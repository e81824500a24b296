//! Greedy decomposition of a magnitude over a table of units.

use crate::unit::{positive, well_formed, Unit};
use vstd::arithmetic::div_mod::{
    lemma_fundamental_div_mod, lemma_fundamental_div_mod_converse, lemma_mod_bound,
};
use vstd::arithmetic::mul::lemma_mul_is_commutative;
use vstd::prelude::*;

verus! {

/// What one unit of a table receives: a count above zero, or nothing.
#[derive(Clone, Copy, Debug, PartialEq, Eq)]
pub enum Slot {
    Present { count: u64, suffix: &'static str },
    Absent { suffix: &'static str },
}

impl Slot {
    /// How many of its unit the slot holds; an absent slot holds none.
    pub open spec fn count(self) -> nat {
        match self {
            Slot::Present { count, .. } => count as nat,
            Slot::Absent { .. } => 0,
        }
    }

    /// The label of the slot's unit.
    pub open spec fn suffix(self) -> &'static str {
        match self {
            Slot::Present { suffix, .. } => suffix,
            Slot::Absent { suffix } => suffix,
        }
    }
}

/// A magnitude taken apart: one slot for each unit of the table, in the
/// table's order, and what no unit could take.
#[derive(Debug, PartialEq, Eq)]
pub struct Decomposition {
    pub slots: Vec<Slot>,
    pub remainder: u64,
}

/// What is left of `accum` once the first `k` units have taken their share.
pub open spec fn carried(accum: nat, units: Seq<Unit>, k: int) -> nat
    decreases k,
{
    if k <= 0 {
        accum
    } else {
        carried(accum, units, k - 1) % (units[k - 1].interval as nat)
    }
}

/// How many times unit `i` fits into what the units before it left.
pub open spec fn count_at(accum: nat, units: Seq<Unit>, i: int) -> nat {
    carried(accum, units, i) / (units[i].interval as nat)
}

/// The slot that unit `i` receives.
pub open spec fn slot_at(accum: nat, units: Seq<Unit>, i: int) -> Slot {
    if count_at(accum, units, i) > 0 {
        Slot::Present { count: count_at(accum, units, i) as u64, suffix: units[i].suffix }
    } else {
        Slot::Absent { suffix: units[i].suffix }
    }
}

/// The slots of the whole table.
pub open spec fn slots_of(accum: nat, units: Seq<Unit>) -> Seq<Slot> {
    Seq::new(units.len(), |i: int| slot_at(accum, units, i))
}

/// What the whole table leaves over.
pub open spec fn remainder_of(accum: nat, units: Seq<Unit>) -> nat {
    carried(accum, units, units.len() as int)
}

/// The counts of the first `k` slots, each multiplied by the interval of its
/// unit, added up.
pub open spec fn weighed(slots: Seq<Slot>, units: Seq<Unit>, k: int) -> nat
    decreases k,
{
    if k <= 0 {
        0
    } else {
        weighed(slots, units, k - 1) + slots[k - 1].count() * (units[k - 1].interval as nat)
    }
}

/// Takes `accum` apart over `units`, largest unit first: each unit takes as
/// many whole multiples of its interval as fit into what is left. A table
/// that is out of order or holds an interval of zero is the caller's
/// mistake; `is_well_formed` tells.
pub fn decompose(accum: u64, units: &Vec<Unit>) -> (parts: Decomposition)
    requires
        well_formed(units@),
    ensures
        parts.slots@ == slots_of(accum as nat, units@),
        parts.remainder == remainder_of(accum as nat, units@),
{
    let mut left: u64 = accum;
    let mut slots: Vec<Slot> = Vec::new();
    let mut i: usize = 0;
    while i < units.len()
        invariant
            i <= units@.len(),
            positive(units@),
            left == carried(accum as nat, units@, i as int),
            slots@.len() == i,
            forall|j: int| 0 <= j < i ==> slots@[j] == slot_at(accum as nat, units@, j),
        decreases units@.len() - i,
    {
        let unit = units[i];
        let count: u64 = left / unit.interval;
        proof {
            lemma_fundamental_div_mod(left as int, unit.interval as int);
            lemma_mod_bound(left as int, unit.interval as int);
            lemma_mul_is_commutative(unit.interval as int, count as int);
            assert(left - count * unit.interval == carried(accum as nat, units@, i + 1));
            assert(count == 0 ==> count * unit.interval == 0) by (nonlinear_arith);
        }
        if count > 0 {
            left = left - count * unit.interval;
            slots.push(Slot::Present { count, suffix: unit.suffix });
        } else {
            slots.push(Slot::Absent { suffix: unit.suffix });
        }
        i += 1;
    }
    Decomposition { slots, remainder: left }
}

/// Nothing that is carried along exceeds the magnitude it started from.
proof fn lemma_carried_bounded(accum: nat, units: Seq<Unit>, k: int)
    requires
        positive(units),
        0 <= k <= units.len(),
    ensures
        carried(accum, units, k) <= accum,
    decreases k,
{
    if k > 0 {
        lemma_carried_bounded(accum, units, k - 1);
        let before = carried(accum, units, k - 1) as int;
        let interval = units[k - 1].interval as int;
        lemma_fundamental_div_mod(before, interval);
        lemma_mod_bound(before, interval);
        assert(interval * (before / interval) >= 0) by (nonlinear_arith)
            requires
                interval > 0,
                before >= 0,
        ;
    }
}

/// The slot of a unit has the unit's label, and no count exceeds the
/// magnitude: counts of a magnitude that fits into 64 bits fit into them
/// too, so that the slot holds the count as it is.
pub proof fn lemma_count_bounded(accum: nat, units: Seq<Unit>, i: int)
    requires
        positive(units),
        0 <= i < units.len(),
    ensures
        count_at(accum, units, i) <= accum,
        slot_at(accum, units, i).suffix() == units[i].suffix,
        accum <= u64::MAX ==> slot_at(accum, units, i).count() == count_at(accum, units, i),
{
    lemma_carried_bounded(accum, units, i);
    let before = carried(accum, units, i) as int;
    let interval = units[i].interval as int;
    lemma_fundamental_div_mod(before, interval);
    lemma_mod_bound(before, interval);
    assert(before / interval <= before) by (nonlinear_arith)
        requires
            interval >= 1,
            before >= 0,
            before == interval * (before / interval) + before % interval,
            before % interval >= 0,
    ;
}

/// After any number of units, what they took and what they left add up to
/// the magnitude, and what they left is less than the last of them.
pub proof fn lemma_partial_round_trip(accum: u64, units: Seq<Unit>, k: int)
    requires
        positive(units),
        0 <= k <= units.len(),
    ensures
        weighed(slots_of(accum as nat, units), units, k) + carried(accum as nat, units, k)
            == accum,
        k > 0 ==> carried(accum as nat, units, k) < units[k - 1].interval,
    decreases k,
{
    if k > 0 {
        lemma_partial_round_trip(accum, units, k - 1);
        lemma_count_bounded(accum as nat, units, k - 1);
        let before = carried(accum as nat, units, k - 1) as int;
        let interval = units[k - 1].interval as int;
        lemma_fundamental_div_mod(before, interval);
        lemma_mod_bound(before, interval);
        lemma_mul_is_commutative(interval, before / interval);
    }
}

/// Round trip: the counts of all slots, each multiplied by the interval of
/// its unit, and the remainder add up to the magnitude that was taken
/// apart. The remainder is less than the last unit, so it is zero where
/// that unit's interval is one.
pub proof fn lemma_round_trip(accum: u64, units: Seq<Unit>)
    requires
        positive(units),
    ensures
        weighed(slots_of(accum as nat, units), units, units.len() as int) + remainder_of(
            accum as nat,
            units,
        ) == accum,
        units.len() > 0 ==> remainder_of(accum as nat, units) < units.last().interval,
{
    lemma_partial_round_trip(accum, units, units.len() as int);
}

/// Slots that take no more than there is, and leave less than the unit
/// that took last, leave at each position what the greedy decomposition
/// carries along.
proof fn lemma_left_is_carried(accum: nat, units: Seq<Unit>, slots: Seq<Slot>, k: int)
    requires
        positive(units),
        slots.len() == units.len(),
        forall|j: int| 0 <= j <= units.len() ==> #[trigger] weighed(slots, units, j) <= accum,
        forall|j: int|
            0 < j <= units.len() ==> accum - #[trigger] weighed(slots, units, j) < units[j
                - 1].interval,
        0 <= k <= units.len(),
    ensures
        accum - weighed(slots, units, k) == carried(accum, units, k),
        k > 0 ==> slots[k - 1].count() == count_at(accum, units, k - 1),
    decreases k,
{
    if k > 0 {
        lemma_left_is_carried(accum, units, slots, k - 1);
        let before = accum - weighed(slots, units, k - 1);
        let after = accum - weighed(slots, units, k);
        let interval = units[k - 1].interval as int;
        lemma_fundamental_div_mod_converse(before, interval, slots[k - 1].count() as int, after);
    }
}

/// The decomposition is the only one that is exhaustive and free of
/// overlap: slots that never take more than the magnitude holds, and that
/// leave behind each unit less than that unit, have the counts of the greedy
/// decomposition and leave its remainder.
pub proof fn lemma_decomposition_is_unique(accum: nat, units: Seq<Unit>, slots: Seq<Slot>)
    requires
        positive(units),
        slots.len() == units.len(),
        forall|j: int| 0 <= j <= units.len() ==> #[trigger] weighed(slots, units, j) <= accum,
        forall|j: int|
            0 < j <= units.len() ==> accum - #[trigger] weighed(slots, units, j) < units[j
                - 1].interval,
    ensures
        forall|i: int|
            0 <= i < units.len() ==> (#[trigger] slots[i]).count() == count_at(accum, units, i),
        accum - weighed(slots, units, units.len() as int) == remainder_of(accum, units),
{
    assert forall|i: int| 0 <= i < units.len() implies (#[trigger] slots[i]).count() == count_at(
        accum,
        units,
        i,
    ) by {
        lemma_left_is_carried(accum, units, slots, i + 1);
    }
    lemma_left_is_carried(accum, units, slots, units.len() as int);
}

} // verus!
