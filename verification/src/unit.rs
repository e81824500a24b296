//! Time units and the two tiers they are drawn from.

use crate::text::free_of;
use vstd::prelude::*;

verus! {

/// One time unit: the label printed behind a count, and how much of its
/// tier's base one such unit holds (seconds in the whole tier, nanoseconds
/// in the fractional tier).
#[derive(Clone, Copy, Debug, PartialEq, Eq)]
pub struct Unit {
    pub suffix: &'static str,
    pub interval: u64,
}

/// Nanoseconds in one second: the base of the whole tier, counted in the
/// base of the fractional tier.
pub const NANOS_PER_SEC: u64 = 1_000_000_000;

/// No unit of the table is empty: each interval is at least one.
pub open spec fn positive(units: Seq<Unit>) -> bool {
    forall|i: int| 0 <= i < units.len() ==> (#[trigger] units[i]).interval > 0
}

/// Every unit of the table is strictly larger than all that follow it.
pub open spec fn descending(units: Seq<Unit>) -> bool {
    forall|i: int, j: int|
        0 <= i < j < units.len() ==> (#[trigger] units[i]).interval > (#[trigger] units[j]).interval
}

/// A table that the decomposition accepts. It may be empty.
pub open spec fn well_formed(units: Seq<Unit>) -> bool {
    positive(units) && descending(units)
}

/// Every unit of the table is shorter than one second.
pub open spec fn subsecond(units: Seq<Unit>) -> bool {
    forall|i: int| 0 <= i < units.len() ==> (#[trigger] units[i]).interval < NANOS_PER_SEC
}

/// No label of the table holds a space.
pub open spec fn plain_labels(units: Seq<Unit>) -> bool {
    forall|i: int| 0 <= i < units.len() ==> free_of((#[trigger] units[i]).suffix@, ' ')
}

/// The whole tier: days, hours, minutes and seconds, counted in seconds.
pub open spec fn whole_tier() -> Seq<Unit> {
    seq![
        Unit { suffix: "d", interval: 86_400 },
        Unit { suffix: "h", interval: 3_600 },
        Unit { suffix: "m", interval: 60 },
        Unit { suffix: "s", interval: 1 },
    ]
}

/// The fractional tier: milliseconds, microseconds and nanoseconds, counted
/// in nanoseconds.
pub open spec fn frac_tier() -> Seq<Unit> {
    seq![
        Unit { suffix: "ms", interval: 1_000_000 },
        Unit { suffix: "us", interval: 1_000 },
        Unit { suffix: "ns", interval: 1 },
    ]
}

/// The two tiers are well formed, and no label in them holds a space.
pub proof fn lemma_tiers()
    ensures
        well_formed(whole_tier()),
        well_formed(frac_tier()),
        plain_labels(whole_tier()),
        plain_labels(frac_tier()),
{
    reveal_strlit("d");
    reveal_strlit("h");
    reveal_strlit("m");
    reveal_strlit("s");
    reveal_strlit("ms");
    reveal_strlit("us");
    reveal_strlit("ns");
}

/// Whether no unit of the table has an interval of zero.
pub fn is_positive(units: &Vec<Unit>) -> (yes: bool)
    ensures
        yes == positive(units@),
{
    let mut i: usize = 0;
    while i < units.len()
        invariant
            i <= units@.len(),
            forall|j: int| 0 <= j < i ==> (#[trigger] units@[j]).interval > 0,
        decreases units@.len() - i,
    {
        if units[i].interval == 0 {
            return false;
        }
        i += 1;
    }
    true
}

/// Whether each unit of the table is larger than all that follow it.
pub fn is_descending(units: &Vec<Unit>) -> (yes: bool)
    ensures
        yes == descending(units@),
{
    if units.len() == 0 {
        return true;
    }
    let mut i: usize = 1;
    while i < units.len()
        invariant
            1 <= i <= units@.len(),
            descending(units@.take(i as int)),
        decreases units@.len() - i,
    {
        if units[i - 1].interval <= units[i].interval {
            return false;
        }
        proof {
            let seen = units@.take(i as int);
            let next = units@.take(i + 1);
            assert forall|a: int, b: int|
                0 <= a < b < next.len() implies (#[trigger] next[a]).interval > (
            #[trigger] next[b]).interval by {
                if b == i && a < i - 1 {
                    assert(seen[a].interval > seen[i - 1].interval);
                }
            }
        }
        i += 1;
    }
    assert(units@.take(units@.len() as int) =~= units@);
    true
}

/// Whether the decomposition accepts the table.
pub fn is_well_formed(units: &Vec<Unit>) -> (yes: bool)
    ensures
        yes == well_formed(units@),
{
    is_positive(units) && is_descending(units)
}

/// Whether each unit of the table is shorter than one second.
pub fn is_subsecond(units: &Vec<Unit>) -> (yes: bool)
    ensures
        yes == subsecond(units@),
{
    let mut i: usize = 0;
    while i < units.len()
        invariant
            i <= units@.len(),
            forall|j: int| 0 <= j < i ==> (#[trigger] units@[j]).interval < NANOS_PER_SEC,
        decreases units@.len() - i,
    {
        if units[i].interval >= NANOS_PER_SEC {
            return false;
        }
        i += 1;
    }
    true
}

/// The whole tier as a table.
pub fn whole_units() -> (units: Vec<Unit>)
    ensures
        units@ == whole_tier(),
{
    let mut units: Vec<Unit> = Vec::new();
    units.push(Unit { suffix: "d", interval: 86_400 });
    units.push(Unit { suffix: "h", interval: 3_600 });
    units.push(Unit { suffix: "m", interval: 60 });
    units.push(Unit { suffix: "s", interval: 1 });
    units
}

/// The fractional tier as a table.
pub fn frac_units() -> (units: Vec<Unit>)
    ensures
        units@ == frac_tier(),
{
    let mut units: Vec<Unit> = Vec::new();
    units.push(Unit { suffix: "ms", interval: 1_000_000 });
    units.push(Unit { suffix: "us", interval: 1_000 });
    units.push(Unit { suffix: "ns", interval: 1 });
    units
}

/// The units of `table` from position `from` up to, not including,
/// position `to`.
pub(crate) fn select(table: &Vec<Unit>, from: usize, to: usize) -> (units: Vec<Unit>)
    requires
        from <= to <= table@.len(),
    ensures
        units@ == table@.subrange(from as int, to as int),
{
    let mut units: Vec<Unit> = Vec::new();
    let mut i: usize = from;
    while i < to
        invariant
            from <= i <= to <= table@.len(),
            units@ == table@.subrange(from as int, i as int),
        decreases to - i,
    {
        units.push(table[i]);
        i += 1;
    }
    units
}

} // verus!
