//! Days down to milliseconds.

use crate::duration::{
    duration_slots, humanize, robotize, slots, subsec_nanoseconds, whole_seconds,
};
use crate::profile::{Profile, ProfileView};
use crate::render::{optional_texts, optional_tokens};
use std::time::Duration;
use vstd::prelude::*;

verus! {

/// Represents time periods ranging from milliseconds to days.
pub trait Eternity {
    /// Days, hours, minutes, seconds and milliseconds, each with its count;
    /// units without a count are left out, and the text is empty where none has
    /// one.
    fn humanize(&self) -> String;

    /// Days, hours, minutes, seconds and milliseconds, each with its count,
    /// zero or not.
    fn robotize(&self) -> String;
}

impl Eternity for Duration {
    fn humanize(&self) -> (text: String)
        ensures
            text@ == ProfileView::full().humanize(
                whole_seconds(*self),
                subsec_nanoseconds(*self),
            ),
    {
        humanize(self, &Profile::full())
    }

    fn robotize(&self) -> (text: String)
        ensures
            text@ == ProfileView::full().robotize(
                whole_seconds(*self),
                subsec_nanoseconds(*self),
            ),
    {
        robotize(self, &Profile::full())
    }
}

/// Days to milliseconds, one entry for each unit: its token, or `None`
/// where it has no count.
pub fn to_time_vec(dur: &Duration) -> (tokens: Vec<Option<String>>)
    ensures
        tokens.deep_view() == optional_texts(duration_slots(ProfileView::full(), *dur)),
{
    let slots = slots(dur, &Profile::full());
    optional_tokens(&slots)
}

} // verus!
