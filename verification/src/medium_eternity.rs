//! Hours down to seconds.

use crate::duration::{
    duration_slots, humanize, robotize, slots, subsec_nanoseconds, whole_seconds,
};
use crate::profile::{Profile, ProfileView};
use crate::render::{optional_texts, optional_tokens};
use std::time::Duration;
use vstd::prelude::*;

verus! {

/// Represents time periods ranging from seconds to hours.
pub trait MediumEternity {
    /// Hours, minutes and seconds, each with its count; units without a count
    /// are left out, and the text is empty where none has one.
    fn humanize(&self) -> String;

    /// Hours, minutes and seconds, each with its count, zero or not.
    fn robotize(&self) -> String;
}

impl MediumEternity for Duration {
    fn humanize(&self) -> (text: String)
        ensures
            text@ == ProfileView::medium().humanize(
                whole_seconds(*self),
                subsec_nanoseconds(*self),
            ),
    {
        humanize(self, &Profile::medium())
    }

    fn robotize(&self) -> (text: String)
        ensures
            text@ == ProfileView::medium().robotize(
                whole_seconds(*self),
                subsec_nanoseconds(*self),
            ),
    {
        robotize(self, &Profile::medium())
    }
}

/// Hours to seconds, one entry for each unit: its token, or `None` where it
/// has no count.
pub fn to_time_vec_hms(dur: &Duration) -> (tokens: Vec<Option<String>>)
    ensures
        tokens.deep_view() == optional_texts(duration_slots(ProfileView::medium(), *dur)),
{
    let slots = slots(dur, &Profile::medium());
    optional_tokens(&slots)
}

} // verus!
