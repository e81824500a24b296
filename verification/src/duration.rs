//! Rendering a `std::time::Duration`.
//!
//! A duration is read through `as_secs` and `subsec_nanos`, and rendered as
//! `Profile::humanize` and `Profile::robotize` render the two numbers.
//! Verus sees nothing inside a duration: the two numbers are known by name,
//! and what is proved of the text holds for every value of them.

use crate::decompose::Slot;
use crate::profile::{Profile, ProfileView};
use crate::unit::NANOS_PER_SEC;
use std::time::Duration;
use vstd::prelude::*;

verus! {

/// The number of whole seconds that a duration holds.
pub uninterp spec fn whole_seconds(duration: Duration) -> u64;

/// The part of a duration below one second, in nanoseconds.
pub uninterp spec fn subsec_nanoseconds(duration: Duration) -> u32;

/// Taken on trust of `Duration::as_secs`: what it returns depends on the
/// duration alone. The number itself is not described, only named, so that
/// contracts can say which number was rendered.
pub assume_specification[ Duration::as_secs ](duration: &Duration) -> (secs: u64)
    ensures
        secs == whole_seconds(*duration),
;

/// Taken on trust of `Duration::subsec_nanos`: what it returns depends on
/// the duration alone, and is less than one second. Beyond that the number
/// is not described, only named.
pub assume_specification[ Duration::subsec_nanos ](duration: &Duration) -> (nanos: u32)
    ensures
        nanos == subsec_nanoseconds(*duration),
        nanos < NANOS_PER_SEC,
;

/// The two numbers that a duration is rendered from: its whole seconds, and
/// its nanoseconds below one second.
pub fn parts(duration: &Duration) -> (read: (u64, u32))
    ensures
        read.0 == whole_seconds(*duration),
        read.1 == subsec_nanoseconds(*duration),
        read.1 < NANOS_PER_SEC,
{
    (duration.as_secs(), duration.subsec_nanos())
}

/// The slots of a duration under a profile.
pub open spec fn duration_slots(profile: ProfileView, duration: Duration) -> Seq<Slot> {
    profile.slots(whole_seconds(duration), subsec_nanoseconds(duration))
}

/// The slots of `duration` under `profile`, one for each unit.
pub fn slots(duration: &Duration, profile: &Profile) -> (slots: Vec<Slot>)
    ensures
        slots@ == duration_slots(profile@, *duration),
{
    let (secs, subsec_nanos) = parts(duration);
    profile.slots(secs, subsec_nanos)
}

/// The compact text of `duration` under `profile`: the units with a count
/// above zero, largest first. A duration in which no unit of the profile
/// has one gives the empty text.
pub fn humanize(duration: &Duration, profile: &Profile) -> (text: String)
    ensures
        text@ == profile@.humanize(whole_seconds(*duration), subsec_nanoseconds(*duration)),
{
    let (secs, subsec_nanos) = parts(duration);
    profile.humanize(secs, subsec_nanos)
}

/// The full text of `duration` under `profile`: every unit, largest first,
/// with `0` where it has no count.
pub fn robotize(duration: &Duration, profile: &Profile) -> (text: String)
    ensures
        text@ == profile@.robotize(whole_seconds(*duration), subsec_nanoseconds(*duration)),
{
    let (secs, subsec_nanos) = parts(duration);
    profile.robotize(secs, subsec_nanos)
}

} // verus!
