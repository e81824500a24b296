//! Turning slots into text.

use crate::decimal::{decimal, push_decimal};
use crate::decompose::Slot;
use crate::text::{join, joined};
use vstd::prelude::*;

verus! {

/// A count followed by its unit's label, such as `12s`.
pub open spec fn token(count: nat, suffix: Seq<char>) -> Seq<char> {
    decimal(count) + suffix
}

/// What separates two tokens.
pub open spec fn space() -> Seq<char> {
    seq![' ']
}

impl Slot {
    /// The slot as a token; an absent slot shows a count of zero.
    pub open spec fn text(self) -> Seq<char> {
        token(self.count(), self.suffix()@)
    }

    /// Writes the slot as a token.
    pub fn render(&self) -> (text: String)
        ensures
            text@ == self.text(),
    {
        let (count, suffix) = match self {
            Slot::Present { count, suffix } => (*count, *suffix),
            Slot::Absent { suffix } => (0, *suffix),
        };
        let mut text = String::new();
        push_decimal(&mut text, count);
        text.append(suffix);
        text
    }
}

/// The tokens of the present slots, in order.
pub open spec fn present_texts(slots: Seq<Slot>) -> Seq<Seq<char>> {
    slots.filter(|slot: Slot| slot is Present).map_values(|slot: Slot| slot.text())
}

/// The tokens of all slots, in order.
pub open spec fn all_texts(slots: Seq<Slot>) -> Seq<Seq<char>> {
    slots.map_values(|slot: Slot| slot.text())
}

/// The compact form: the present slots only, separated by single spaces,
/// and the empty text where no slot is present.
pub open spec fn humanized(slots: Seq<Slot>) -> Seq<char> {
    joined(present_texts(slots), space())
}

/// The full form: every slot, separated by single spaces.
pub open spec fn robotized(slots: Seq<Slot>) -> Seq<char> {
    joined(all_texts(slots), space())
}

/// The tokens of the present slots.
pub fn present_tokens(slots: &Vec<Slot>) -> (tokens: Vec<String>)
    ensures
        tokens.deep_view() == present_texts(slots@),
{
    let mut tokens: Vec<String> = Vec::new();
    let mut i: usize = 0;
    while i < slots.len()
        invariant
            i <= slots@.len(),
            tokens.deep_view() == present_texts(slots@.take(i as int)),
        decreases slots@.len() - i,
    {
        proof {
            let is_present = |slot: Slot| slot is Present;
            let text_of = |slot: Slot| slot.text();
            let seen = slots@.take(i as int);
            assert(slots@.take(i + 1) =~= seen.push(slots@[i as int]));
            seen.lemma_filter_push(slots@[i as int], is_present);
            seen.filter(is_present).lemma_push_map_commute(text_of, slots@[i as int]);
        }
        match slots[i] {
            Slot::Present { .. } => {
                let text = slots[i].render();
                tokens.push(text);
            },
            Slot::Absent { .. } => {},
        }
        i += 1;
    }
    assert(slots@.take(slots@.len() as int) =~= slots@);
    tokens
}

/// The tokens of all slots.
pub fn all_tokens(slots: &Vec<Slot>) -> (tokens: Vec<String>)
    ensures
        tokens.deep_view() == all_texts(slots@),
{
    let mut tokens: Vec<String> = Vec::new();
    let mut i: usize = 0;
    while i < slots.len()
        invariant
            i <= slots@.len(),
            tokens@.len() == i,
            forall|j: int| 0 <= j < i ==> tokens@[j]@ == slots@[j].text(),
        decreases slots@.len() - i,
    {
        let text = slots[i].render();
        tokens.push(text);
        i += 1;
    }
    tokens
}

/// A present slot as its token, an absent one as nothing.
pub open spec fn optional_text(slot: Slot) -> Option<Seq<char>> {
    match slot {
        Slot::Present { .. } => Some(slot.text()),
        Slot::Absent { .. } => None,
    }
}

/// A present slot as `Ok` of its token, an absent one as `Err` of the token
/// with a count of zero.
pub open spec fn checked_text(slot: Slot) -> Result<Seq<char>, Seq<char>> {
    match slot {
        Slot::Present { .. } => Ok(slot.text()),
        Slot::Absent { .. } => Err(slot.text()),
    }
}

/// The text inside a result, on either side.
pub open spec fn result_text(token: Result<String, String>) -> Result<Seq<char>, Seq<char>> {
    match token {
        Ok(text) => Ok(text@),
        Err(text) => Err(text@),
    }
}

/// One entry for each slot: the token of a present slot, `None` for an
/// absent one.
pub open spec fn optional_texts(slots: Seq<Slot>) -> Seq<Option<Seq<char>>> {
    slots.map_values(|slot: Slot| optional_text(slot))
}

/// One entry for each slot: `Ok` of the token of a present slot, `Err` of
/// the zero token of an absent one.
pub open spec fn checked_texts(slots: Seq<Slot>) -> Seq<Result<Seq<char>, Seq<char>>> {
    slots.map_values(|slot: Slot| checked_text(slot))
}

/// The texts inside a sequence of results.
pub open spec fn result_texts(tokens: Seq<Result<String, String>>) -> Seq<
    Result<Seq<char>, Seq<char>>,
> {
    tokens.map_values(|token: Result<String, String>| result_text(token))
}

/// One entry for each slot: the token of a present slot, `None` for an
/// absent one.
pub fn optional_tokens(slots: &Vec<Slot>) -> (tokens: Vec<Option<String>>)
    ensures
        tokens.deep_view() == optional_texts(slots@),
{
    let mut tokens: Vec<Option<String>> = Vec::new();
    let mut i: usize = 0;
    while i < slots.len()
        invariant
            i <= slots@.len(),
            tokens@.len() == i,
            forall|j: int| 0 <= j < i ==> tokens@[j].deep_view() == optional_text(slots@[j]),
        decreases slots@.len() - i,
    {
        match slots[i] {
            Slot::Present { .. } => {
                let text = slots[i].render();
                tokens.push(Some(text));
            },
            Slot::Absent { .. } => {
                tokens.push(None);
            },
        }
        i += 1;
    }
    tokens
}

/// One entry for each slot: `Ok` of the token of a present slot, `Err` of
/// the zero token of an absent one.
pub fn checked_tokens(slots: &Vec<Slot>) -> (tokens: Vec<Result<String, String>>)
    ensures
        result_texts(tokens@) == checked_texts(slots@),
{
    let mut tokens: Vec<Result<String, String>> = Vec::new();
    let mut i: usize = 0;
    while i < slots.len()
        invariant
            i <= slots@.len(),
            tokens@.len() == i,
            forall|j: int| 0 <= j < i ==> result_text(tokens@[j]) == checked_text(slots@[j]),
        decreases slots@.len() - i,
    {
        let text = slots[i].render();
        match slots[i] {
            Slot::Present { .. } => {
                tokens.push(Ok(text));
            },
            Slot::Absent { .. } => {
                tokens.push(Err(text));
            },
        }
        i += 1;
    }
    tokens
}

/// The text of a token, whether its unit had a count or not.
pub fn unwrap_result(x: Result<String, String>) -> (text: String)
    ensures
        text == match x {
            Ok(text) => text,
            Err(text) => text,
        },
{
    match x {
        Ok(x) => x,
        Err(x) => x,
    }
}

/// Renders the compact form of `slots`.
pub fn humanize_slots(slots: &Vec<Slot>) -> (text: String)
    ensures
        text@ == humanized(slots@),
{
    proof {
        reveal_strlit(" ");
        assert(" "@ =~= space());
    }
    let tokens = present_tokens(slots);
    join(&tokens, " ")
}

/// Renders the full form of `slots`.
pub fn robotize_slots(slots: &Vec<Slot>) -> (text: String)
    ensures
        text@ == robotized(slots@),
{
    proof {
        reveal_strlit(" ");
        assert(" "@ =~= space());
    }
    let tokens = all_tokens(slots);
    join(&tokens, " ")
}

} // verus!
