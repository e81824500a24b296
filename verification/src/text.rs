//! Joining pieces of text, and taking joined text apart again.

use vstd::prelude::*;

verus! {

/// The parts in order, with `sep` between each two neighbours.
pub open spec fn joined(parts: Seq<Seq<char>>, sep: Seq<char>) -> Seq<char>
    decreases parts.len(),
{
    if parts.len() == 0 {
        Seq::empty()
    } else if parts.len() == 1 {
        parts[0]
    } else {
        joined(parts.drop_last(), sep) + sep + parts.last()
    }
}

/// The pieces of `text` that lie between the occurrences of `sep`. There is
/// one piece more than there are occurrences, so the empty text has one
/// empty piece.
pub open spec fn split(text: Seq<char>, sep: char) -> Seq<Seq<char>>
    decreases text.len(),
{
    if text.len() == 0 {
        seq![Seq::empty()]
    } else {
        let before = split(text.drop_last(), sep);
        if text.last() == sep {
            before.push(Seq::empty())
        } else {
            before.drop_last().push(before.last().push(text.last()))
        }
    }
}

/// `sep` does not occur in `text`.
pub open spec fn free_of(text: Seq<char>, sep: char) -> bool {
    forall|i: int| 0 <= i < text.len() ==> text[i] != sep
}

/// Text without the separator, put behind any text, lengthens the last piece
/// and adds none.
pub proof fn lemma_split_extends(text: Seq<char>, tail: Seq<char>, sep: char)
    requires
        free_of(tail, sep),
    ensures
        split(text, sep).len() >= 1,
        split(text + tail, sep) == split(text, sep).drop_last().push(
            split(text, sep).last() + tail,
        ),
    decreases text.len() + tail.len(),
{
    if tail.len() == 0 {
        assert(text + tail =~= text);
        if text.len() > 0 {
            lemma_split_extends(text.drop_last(), Seq::empty(), sep);
        }
        assert(split(text, sep).last() + tail =~= split(text, sep).last());
        assert(split(text, sep) =~= split(text, sep).drop_last().push(split(text, sep).last()));
    } else {
        lemma_split_extends(text, tail.drop_last(), sep);
        let whole = text + tail;
        assert(whole.drop_last() =~= text + tail.drop_last());
        assert(whole.last() == tail.last());
        assert(split(text, sep).last() + tail =~= (split(text, sep).last()
            + tail.drop_last()).push(tail.last()));
        let before = split(text + tail.drop_last(), sep);
        assert(before.drop_last() =~= split(text, sep).drop_last());
    }
}

/// Taking joined text apart gives back the parts, where there is at least
/// one part and the separator occurs in none.
pub proof fn lemma_split_joined(parts: Seq<Seq<char>>, sep: char)
    requires
        parts.len() >= 1,
        forall|i: int| 0 <= i < parts.len() ==> free_of(#[trigger] parts[i], sep),
    ensures
        split(joined(parts, seq![sep]), sep) == parts,
    decreases parts.len(),
{
    let empty = Seq::<char>::empty();
    if parts.len() == 1 {
        lemma_split_extends(empty, parts[0], sep);
        assert(empty + parts[0] =~= parts[0]);
        assert(split(empty, sep) =~= seq![empty]);
        assert(seq![empty].drop_last().push(empty + parts[0]) =~= parts);
    } else {
        let front = parts.drop_last();
        lemma_split_joined(front, sep);
        let text = joined(front, seq![sep]) + seq![sep];
        assert(text.drop_last() =~= joined(front, seq![sep]));
        assert(text.last() == sep);
        assert(split(text, sep) == front.push(empty));
        lemma_split_extends(text, parts.last(), sep);
        assert(front.push(empty).drop_last() =~= front);
        assert(empty + parts.last() =~= parts.last());
        assert(front.push(parts.last()) =~= parts);
    }
}

/// Joins `parts` with `sep` between each two neighbours.
pub fn join(parts: &Vec<String>, sep: &str) -> (text: String)
    ensures
        text@ == joined(parts.deep_view(), sep@),
{
    let mut text = String::new();
    let mut i: usize = 0;
    while i < parts.len()
        invariant
            i <= parts@.len(),
            text@ == joined(parts.deep_view().take(i as int), sep@),
        decreases parts@.len() - i,
    {
        if i > 0 {
            text.append(sep);
        }
        text.append(parts[i].as_str());
        proof {
            let done = parts.deep_view().take(i + 1);
            assert(done.drop_last() =~= parts.deep_view().take(i as int));
            assert(done.last() == parts@[i as int]@);
        }
        i += 1;
    }
    assert(parts.deep_view().take(parts@.len() as int) =~= parts.deep_view());
    text
}

} // verus!
