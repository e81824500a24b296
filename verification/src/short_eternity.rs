//! Minutes down to milliseconds.

use crate::duration::{
    duration_slots, humanize, robotize, slots, subsec_nanoseconds, whole_seconds,
};
use crate::profile::{Profile, ProfileView};
use crate::render::{checked_texts, checked_tokens, result_texts};
use std::time::Duration;
use vstd::prelude::*;

verus! {

/// Represents time periods ranging from milliseconds to minutes.
pub trait ShortEternity {
    /// Minutes, seconds and milliseconds, each with its count; units without a
    /// count are left out, and the text is empty where none has one.
    fn humanize(&self) -> String;

    /// Minutes, seconds and milliseconds, each with its count, zero or not.
    fn robotize(&self) -> String;
}

impl ShortEternity for Duration {
    fn humanize(&self) -> (text: String)
        ensures
            text@ == ProfileView::short().humanize(
                whole_seconds(*self),
                subsec_nanoseconds(*self),
            ),
    {
        humanize(self, &Profile::short())
    }

    fn robotize(&self) -> (text: String)
        ensures
            text@ == ProfileView::short().robotize(
                whole_seconds(*self),
                subsec_nanoseconds(*self),
            ),
    {
        robotize(self, &Profile::short())
    }
}

/// Minutes to milliseconds, one entry for each unit: `Ok` of its token, or
/// `Err` of its zero token where it has no count.
pub fn to_time_vec_msms(dur: &Duration) -> (tokens: Vec<Result<String, String>>)
    ensures
        result_texts(tokens@) == checked_texts(duration_slots(ProfileView::short(), *dur)),
{
    let slots = slots(dur, &Profile::short());
    checked_tokens(&slots)
}

} // verus!
