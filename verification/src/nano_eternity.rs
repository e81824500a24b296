//! Milliseconds down to nanoseconds.

use crate::duration::{
    duration_slots, humanize, robotize, slots, subsec_nanoseconds, whole_seconds,
};
use crate::profile::{Profile, ProfileView};
use crate::render::{checked_texts, checked_tokens, result_texts};
use std::time::Duration;
use vstd::prelude::*;

verus! {

/// Represents time periods ranging from nanoseconds to milliseconds.
pub trait NanoEternity {
    /// Milliseconds, microseconds and nanoseconds of the part below one second,
    /// each with its count; units without a count are left out, and the text is
    /// empty where none has one.
    fn humanize(&self) -> String;

    /// Milliseconds, microseconds and nanoseconds of the part below one second,
    /// each with its count, zero or not.
    fn robotize(&self) -> String;
}

impl NanoEternity for Duration {
    fn humanize(&self) -> (text: String)
        ensures
            text@ == ProfileView::nano().humanize(
                whole_seconds(*self),
                subsec_nanoseconds(*self),
            ),
    {
        humanize(self, &Profile::nano())
    }

    fn robotize(&self) -> (text: String)
        ensures
            text@ == ProfileView::nano().robotize(
                whole_seconds(*self),
                subsec_nanoseconds(*self),
            ),
    {
        robotize(self, &Profile::nano())
    }
}

/// Milliseconds to nanoseconds, one entry for each unit: `Ok` of its token,
/// or `Err` of its zero token where it has no count.
pub fn to_time_vec_msusns(dur: &Duration) -> (tokens: Vec<Result<String, String>>)
    ensures
        result_texts(tokens@) == checked_texts(duration_slots(ProfileView::nano(), *dur)),
{
    let slots = slots(dur, &Profile::nano());
    checked_tokens(&slots)
}

} // verus!
