//! What holds of every profile and every elapsed time.

use crate::decimal::{decimal, is_digit, lemma_decimal_shape};
use crate::decompose::{lemma_count_bounded, lemma_round_trip, slots_of, weighed, Slot};
use crate::profile::ProfileView;
use crate::render::{all_texts, present_texts, space, token};
use crate::text::{free_of, joined, lemma_split_joined, split};
use crate::unit::{lemma_tiers, plain_labels, NANOS_PER_SEC};
use vstd::prelude::*;

verus! {

/// The four fixed profiles are valid, and no label in them holds a space:
/// every theorem of this module applies to them.
pub proof fn lemma_fixed_profiles()
    ensures
        ProfileView::full().valid(),
        ProfileView::medium().valid(),
        ProfileView::short().valid(),
        ProfileView::nano().valid(),
        plain_labels(ProfileView::full().units()),
        plain_labels(ProfileView::medium().units()),
        plain_labels(ProfileView::short().units()),
        plain_labels(ProfileView::nano().units()),
{
    lemma_tiers();
}

/// A slot of a profile is that of its unit: it has the unit's label and
/// count, and is present where the count is above zero.
proof fn lemma_slot_of_unit(profile: ProfileView, secs: u64, subsec_nanos: u32, i: int)
    requires
        profile.valid(),
        0 <= i < profile.units().len(),
    ensures
        ({
            let slot = profile.slots(secs, subsec_nanos)[i];
            &&& slot.suffix() == profile.units()[i].suffix
            &&& slot.count() == profile.count(secs, subsec_nanos, i)
            &&& slot is Present <==> slot.count() > 0
        }),
{
    if i < profile.whole.len() {
        lemma_count_bounded(secs as nat, profile.whole, i);
    } else {
        lemma_count_bounded(subsec_nanos as nat, profile.frac, i - profile.whole.len());
    }
}

/// The time that the first `k` slots of a profile cover is what the two
/// tables take, the whole table's share counted in nanoseconds.
proof fn lemma_covered_by_tier(profile: ProfileView, secs: u64, subsec_nanos: u32, k: int)
    requires
        profile.valid(),
        0 <= k <= profile.units().len(),
    ensures
        ({
            let covered = profile.covered(profile.slots(secs, subsec_nanos), k);
            let whole_slots = slots_of(secs as nat, profile.whole);
            let frac_slots = slots_of(subsec_nanos as nat, profile.frac);
            let split = profile.whole.len() as int;
            &&& k <= split ==> covered == weighed(whole_slots, profile.whole, k) * NANOS_PER_SEC
            &&& k >= split ==> covered == weighed(whole_slots, profile.whole, split)
                * NANOS_PER_SEC + weighed(frac_slots, profile.frac, k - split)
        }),
    decreases k,
{
    if k > 0 {
        lemma_covered_by_tier(profile, secs, subsec_nanos, k - 1);
        let slots = profile.slots(secs, subsec_nanos);
        let whole_slots = slots_of(secs as nat, profile.whole);
        if k <= profile.whole.len() {
            assert(slots[k - 1] == whole_slots[k - 1]);
            let count = whole_slots[k - 1].count() as int;
            let interval = profile.whole[k - 1].interval as int;
            let before = weighed(whole_slots, profile.whole, k - 1) as int;
            assert((before + count * interval) * NANOS_PER_SEC == before * NANOS_PER_SEC + count
                * (interval * NANOS_PER_SEC)) by (nonlinear_arith);
        } else {
            let frac_slots = slots_of(subsec_nanos as nat, profile.frac);
            assert(slots[k - 1] == frac_slots[k - 1 - profile.whole.len()]);
        }
    }
}

/// Round trip: for every elapsed time, the counts of all slots, each
/// multiplied by the span of its unit, and what the two tiers leave over add
/// up to the elapsed time in nanoseconds. Where the whole table ends in a
/// unit of one second and the fractional table in a unit of one nanosecond,
/// nothing is left over.
pub proof fn theorem_round_trip(profile: ProfileView, secs: u64, subsec_nanos: u32)
    requires
        profile.valid(),
    ensures
        profile.covered(profile.slots(secs, subsec_nanos), profile.units().len() as int)
            + profile.left_over(secs, subsec_nanos) == secs * NANOS_PER_SEC + subsec_nanos,
        profile.whole.len() > 0 && profile.whole.last().interval == 1 && profile.frac.len() > 0
            && profile.frac.last().interval == 1 ==> profile.left_over(secs, subsec_nanos) == 0,
{
    lemma_covered_by_tier(profile, secs, subsec_nanos, profile.units().len() as int);
    lemma_round_trip(secs, profile.whole);
    lemma_round_trip(subsec_nanos as u64, profile.frac);
    let whole_slots = slots_of(secs as nat, profile.whole);
    let taken = weighed(whole_slots, profile.whole, profile.whole.len() as int) as int;
    let left = secs - taken;
    assert((taken + left) * NANOS_PER_SEC == taken * NANOS_PER_SEC + left * NANOS_PER_SEC)
        by (nonlinear_arith);
}

/// Unit order: there is one slot for each unit of the profile, in the order
/// of its tables, with the unit's label and count, present where the count
/// is above zero; and each unit is longer than every unit behind it.
pub proof fn theorem_slots_follow_table(profile: ProfileView, secs: u64, subsec_nanos: u32)
    requires
        profile.valid(),
    ensures
        profile.slots(secs, subsec_nanos).len() == profile.units().len(),
        forall|i: int|
            0 <= i < profile.units().len() ==> ({
                let slot = #[trigger] profile.slots(secs, subsec_nanos)[i];
                &&& slot.suffix() == profile.units()[i].suffix
                &&& slot.count() == profile.count(secs, subsec_nanos, i)
                &&& slot is Present <==> slot.count() > 0
            }),
        forall|i: int, j: int|
            0 <= i < j < profile.units().len() ==> #[trigger] profile.span(i)
                > #[trigger] profile.span(j),
{
    let slots = profile.slots(secs, subsec_nanos);
    assert forall|i: int| 0 <= i < profile.units().len() implies ({
        let slot = #[trigger] slots[i];
        &&& slot.suffix() == profile.units()[i].suffix
        &&& slot.count() == profile.count(secs, subsec_nanos, i)
        &&& slot is Present <==> slot.count() > 0
    }) by {
        lemma_slot_of_unit(profile, secs, subsec_nanos, i);
    }
    assert forall|i: int, j: int|
        0 <= i < j < profile.units().len() implies #[trigger] profile.span(i)
        > #[trigger] profile.span(j) by {
        if j < profile.whole.len() {
            let longer = profile.whole[i].interval as int;
            let shorter = profile.whole[j].interval as int;
            assert(longer * NANOS_PER_SEC > shorter * NANOS_PER_SEC) by (nonlinear_arith)
                requires
                    longer > shorter,
            ;
        } else if i < profile.whole.len() {
            let longer = profile.whole[i].interval as int;
            assert(longer * NANOS_PER_SEC >= NANOS_PER_SEC) by (nonlinear_arith)
                requires
                    longer >= 1,
            ;
            assert(profile.frac[j - profile.whole.len()].interval < NANOS_PER_SEC);
        } else {
            let longer = profile.frac[i - profile.whole.len()];
            let shorter = profile.frac[j - profile.whole.len()];
            assert(longer.interval > shorter.interval);
        }
    }
}

/// The positions from which a filter takes what it keeps: one for each
/// element kept, rising, and none that passes the test left out.
proof fn lemma_filter_positions<A>(s: Seq<A>, pred: spec_fn(A) -> bool) -> (at: Seq<int>)
    ensures
        at.len() == s.filter(pred).len(),
        forall|k: int|
            0 <= k < at.len() ==> 0 <= #[trigger] at[k] < s.len() && s[at[k]] == s.filter(
                pred,
            )[k],
        forall|a: int, b: int| 0 <= a < b < at.len() ==> #[trigger] at[a] < #[trigger] at[b],
        forall|i: int|
            0 <= i < s.len() && pred(#[trigger] s[i]) ==> exists|k: int|
                0 <= k < at.len() && #[trigger] at[k] == i,
    decreases s.len(),
{
    reveal(Seq::filter);
    if s.len() == 0 {
        Seq::empty()
    } else {
        let front = lemma_filter_positions(s.drop_last(), pred);
        let at = if pred(s.last()) {
            front.push(s.len() - 1)
        } else {
            front
        };
        assert forall|i: int| 0 <= i < s.len() && pred(#[trigger] s[i]) implies exists|k: int|
            0 <= k < at.len() && #[trigger] at[k] == i by {
            if i < s.len() - 1 {
                assert(pred(s.drop_last()[i]));
                let k = choose|k: int| 0 <= k < front.len() && #[trigger] front[k] == i;
                assert(at[k] == i);
            } else {
                assert(at[at.len() - 1] == i);
            }
        }
        at
    }
}

/// The compact text keeps the order of the tables: its tokens are those of
/// the slots with a count above zero, all of them, each once, in the order
/// in which the slots stand. The result gives, for each token, the position
/// of its slot.
pub proof fn theorem_humanize_keeps_order(
    profile: ProfileView,
    secs: u64,
    subsec_nanos: u32,
) -> (at: Seq<int>)
    requires
        profile.valid(),
    ensures
        profile.humanize(secs, subsec_nanos) == joined(
            present_texts(profile.slots(secs, subsec_nanos)),
            space(),
        ),
        at.len() == present_texts(profile.slots(secs, subsec_nanos)).len(),
        forall|k: int|
            0 <= k < at.len() ==> ({
                let slots = profile.slots(secs, subsec_nanos);
                &&& 0 <= #[trigger] at[k] < slots.len()
                &&& slots[at[k]].count() > 0
                &&& present_texts(slots)[k] == slots[at[k]].text()
            }),
        forall|a: int, b: int| 0 <= a < b < at.len() ==> #[trigger] at[a] < #[trigger] at[b],
        forall|i: int|
            0 <= i < profile.units().len() && (#[trigger] profile.slots(
                secs,
                subsec_nanos,
            )[i]).count() > 0 ==> exists|k: int| 0 <= k < at.len() && #[trigger] at[k] == i,
{
    let slots = profile.slots(secs, subsec_nanos);
    let is_present = |slot: Slot| slot is Present;
    let at = lemma_filter_positions(slots, is_present);
    assert forall|k: int| 0 <= k < at.len() implies {
        &&& 0 <= #[trigger] at[k] < slots.len()
        &&& slots[at[k]].count() > 0
        &&& present_texts(slots)[k] == slots[at[k]].text()
    } by {
        slots.lemma_filter_pred(is_present, k);
        lemma_slot_of_unit(profile, secs, subsec_nanos, at[k]);
    }
    assert forall|i: int| 0 <= i < profile.units().len() && (#[trigger] slots[i]).count()
        > 0 implies exists|k: int| 0 <= k < at.len() && #[trigger] at[k] == i by {
        lemma_slot_of_unit(profile, secs, subsec_nanos, i);
        assert(is_present(slots[i]));
    }
    at
}

/// No zeros in the compact text: each of its tokens begins with a digit
/// other than `0`, so that none of them is a zero count followed by a label.
pub proof fn theorem_humanize_omits_zeros(profile: ProfileView, secs: u64, subsec_nanos: u32)
    requires
        profile.valid(),
    ensures
        forall|k: int|
            0 <= k < present_texts(profile.slots(secs, subsec_nanos)).len() ==> ({
                let text = #[trigger] present_texts(profile.slots(secs, subsec_nanos))[k];
                text.len() > 0 && is_digit(text[0]) && text[0] != '0'
            }),
        forall|k: int, suffix: Seq<char>|
            0 <= k < present_texts(profile.slots(secs, subsec_nanos)).len()
                ==> #[trigger] present_texts(profile.slots(secs, subsec_nanos))[k]
                != #[trigger] token(0, suffix),
{
    let slots = profile.slots(secs, subsec_nanos);
    let texts = present_texts(slots);
    let at = theorem_humanize_keeps_order(profile, secs, subsec_nanos);
    assert forall|k: int| 0 <= k < texts.len() implies {
        let text = #[trigger] texts[k];
        text.len() > 0 && is_digit(text[0]) && text[0] != '0'
    } by {
        lemma_decimal_shape(slots[at[k]].count());
    }
    assert forall|k: int, suffix: Seq<char>| 0 <= k < texts.len() implies #[trigger] texts[k]
        != #[trigger] token(0, suffix) by {
        lemma_decimal_shape(0);
        assert(token(0, suffix)[0] == '0');
    }
}

/// The full text is total: it is made of exactly one token for each unit of
/// the profile, in the order of its tables, and the token of a unit is its
/// count, zero or not, followed by its label.
pub proof fn theorem_robotize_is_total(profile: ProfileView, secs: u64, subsec_nanos: u32)
    requires
        profile.valid(),
    ensures
        profile.robotize(secs, subsec_nanos) == joined(
            all_texts(profile.slots(secs, subsec_nanos)),
            space(),
        ),
        all_texts(profile.slots(secs, subsec_nanos)).len() == profile.units().len(),
        forall|i: int|
            0 <= i < profile.units().len() ==> #[trigger] all_texts(
                profile.slots(secs, subsec_nanos),
            )[i] == token(profile.count(secs, subsec_nanos, i), profile.units()[i].suffix@),
{
    let texts = all_texts(profile.slots(secs, subsec_nanos));
    assert forall|i: int| 0 <= i < profile.units().len() implies #[trigger] texts[i] == token(
        profile.count(secs, subsec_nanos, i),
        profile.units()[i].suffix@,
    ) by {
        lemma_slot_of_unit(profile, secs, subsec_nanos, i);
    }
}

/// No token holds a space where no label does.
proof fn lemma_tokens_plain(profile: ProfileView, secs: u64, subsec_nanos: u32)
    requires
        profile.valid(),
        plain_labels(profile.units()),
    ensures
        forall|i: int|
            0 <= i < profile.units().len() ==> free_of(
                (#[trigger] profile.slots(secs, subsec_nanos)[i]).text(),
                ' ',
            ),
{
    let slots = profile.slots(secs, subsec_nanos);
    assert forall|i: int| 0 <= i < profile.units().len() implies free_of(
        (#[trigger] slots[i]).text(),
        ' ',
    ) by {
        lemma_slot_of_unit(profile, secs, subsec_nanos, i);
        lemma_decimal_shape(slots[i].count());
        let digits = decimal(slots[i].count());
        let label = profile.units()[i].suffix@;
        assert forall|k: int| 0 <= k < slots[i].text().len() implies slots[i].text()[k]
            != ' ' by {
            if k < digits.len() {
                assert(is_digit(digits[k]));
            } else {
                assert(slots[i].text()[k] == label[k - digits.len()]);
            }
        }
    }
}

/// The full text, taken apart at its spaces, is exactly one token for each
/// unit of the profile, where no label of the profile holds a space.
pub proof fn theorem_robotize_pieces(profile: ProfileView, secs: u64, subsec_nanos: u32)
    requires
        profile.valid(),
        plain_labels(profile.units()),
    ensures
        split(profile.robotize(secs, subsec_nanos), ' ') == all_texts(
            profile.slots(secs, subsec_nanos),
        ),
        split(profile.robotize(secs, subsec_nanos), ' ').len() == profile.units().len(),
{
    lemma_tokens_plain(profile, secs, subsec_nanos);
    lemma_split_joined(all_texts(profile.slots(secs, subsec_nanos)), ' ');
}

/// The compact text, taken apart at its spaces, is the tokens of the slots
/// with a count above zero, and no piece of it is a zero count followed by
/// a label, where no label of the profile holds a space. Where no slot has
/// a count, the text is empty.
pub proof fn theorem_humanize_pieces(profile: ProfileView, secs: u64, subsec_nanos: u32)
    requires
        profile.valid(),
        plain_labels(profile.units()),
    ensures
        ({
            let text = profile.humanize(secs, subsec_nanos);
            let tokens = present_texts(profile.slots(secs, subsec_nanos));
            if tokens.len() == 0 {
                text == Seq::<char>::empty()
            } else {
                split(text, ' ') == tokens
            }
        }),
        forall|k: int, suffix: Seq<char>|
            0 <= k < split(profile.humanize(secs, subsec_nanos), ' ').len() ==> #[trigger] split(
                profile.humanize(secs, subsec_nanos),
                ' ',
            )[k] != #[trigger] token(0, suffix),
{
    let slots = profile.slots(secs, subsec_nanos);
    let text = profile.humanize(secs, subsec_nanos);
    let tokens = present_texts(slots);
    let at = theorem_humanize_keeps_order(profile, secs, subsec_nanos);
    theorem_humanize_omits_zeros(profile, secs, subsec_nanos);
    lemma_tokens_plain(profile, secs, subsec_nanos);
    if tokens.len() > 0 {
        assert forall|k: int| 0 <= k < tokens.len() implies free_of(#[trigger] tokens[k], ' ') by {
            assert(tokens[k] == slots[at[k]].text());
        }
        lemma_split_joined(tokens, ' ');
    } else {
        assert(split(text, ' ') =~= seq![Seq::<char>::empty()]);
        let pieces = split(text, ' ');
        assert forall|k: int, suffix: Seq<char>|
            0 <= k < pieces.len() implies #[trigger] pieces[k] != #[trigger] token(0, suffix) by {
            lemma_decimal_shape(0);
            assert(token(0, suffix).len() >= 1);
        }
    }
}

} // verus!
