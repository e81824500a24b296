//! Profiles: which units of which tier a rendering uses.

use crate::decompose::{count_at, decompose, remainder_of, slots_of, Slot};
use crate::render::{humanize_slots, humanized, robotize_slots, robotized};
use crate::unit::{
    descending, frac_tier, frac_units, is_descending, is_positive, is_subsecond, positive, select,
    subsecond, whole_tier, whole_units, Unit, NANOS_PER_SEC,
};
use vstd::prelude::*;

verus! {

/// Why a pair of tables is no profile.
#[derive(Clone, Copy, Debug, PartialEq, Eq)]
pub enum ProfileError {
    /// Both tables are empty.
    Empty,
    /// Some unit has an interval of zero.
    ZeroInterval,
    /// Some unit is not larger than one that follows it in its table.
    NotDescending,
    /// Some unit of the fractional table is a second or more.
    NotFractional,
}

/// What a profile is made of: the units that share out the whole seconds,
/// and the units that share out the nanoseconds below one second.
pub struct ProfileView {
    pub whole: Seq<Unit>,
    pub frac: Seq<Unit>,
}

impl ProfileView {
    /// The first thing wrong with the two tables, if anything is.
    pub open spec fn fault(self) -> Option<ProfileError> {
        if self.whole.len() + self.frac.len() == 0 {
            Some(ProfileError::Empty)
        } else if !positive(self.whole) || !positive(self.frac) {
            Some(ProfileError::ZeroInterval)
        } else if !descending(self.whole) || !descending(self.frac) {
            Some(ProfileError::NotDescending)
        } else if !subsecond(self.frac) {
            Some(ProfileError::NotFractional)
        } else {
            None
        }
    }

    /// The tables are not both empty, each is strictly descending with no
    /// interval of zero, and the fractional one stays below one second.
    pub open spec fn valid(self) -> bool {
        self.fault() is None
    }

    /// One slot for each unit, the whole tier first: the whole seconds are
    /// shared out over the whole table, the nanoseconds below one second
    /// over the fractional table.
    pub open spec fn slots(self, secs: u64, subsec_nanos: u32) -> Seq<Slot> {
        slots_of(secs as nat, self.whole) + slots_of(subsec_nanos as nat, self.frac)
    }

    /// All units of the profile in one table, the whole tier first.
    pub open spec fn units(self) -> Seq<Unit> {
        self.whole + self.frac
    }

    /// How often unit `i` of `units()` fits into what the units before it in
    /// its table left.
    pub open spec fn count(self, secs: u64, subsec_nanos: u32, i: int) -> nat {
        if i < self.whole.len() {
            count_at(secs as nat, self.whole, i)
        } else {
            count_at(subsec_nanos as nat, self.frac, i - self.whole.len())
        }
    }

    /// How long unit `i` of `units()` is, in nanoseconds.
    pub open spec fn span(self, i: int) -> nat {
        if i < self.whole.len() {
            self.whole[i].interval as nat * NANOS_PER_SEC as nat
        } else {
            self.frac[i - self.whole.len()].interval as nat
        }
    }

    /// The time that the first `k` of `slots` stand for, in nanoseconds:
    /// each count multiplied by the span of its unit.
    pub open spec fn covered(self, slots: Seq<Slot>, k: int) -> nat
        decreases k,
    {
        if k <= 0 {
            0
        } else {
            self.covered(slots, k - 1) + slots[k - 1].count() * self.span(k - 1)
        }
    }

    /// The time that no slot stands for, in nanoseconds: what each tier
    /// leaves over.
    pub open spec fn left_over(self, secs: u64, subsec_nanos: u32) -> nat {
        remainder_of(secs as nat, self.whole) * NANOS_PER_SEC as nat + remainder_of(
            subsec_nanos as nat,
            self.frac,
        )
    }

    /// The compact text of an elapsed time.
    pub open spec fn humanize(self, secs: u64, subsec_nanos: u32) -> Seq<char> {
        humanized(self.slots(secs, subsec_nanos))
    }

    /// The full text of an elapsed time.
    pub open spec fn robotize(self, secs: u64, subsec_nanos: u32) -> Seq<char> {
        robotized(self.slots(secs, subsec_nanos))
    }

    /// Days to seconds, then milliseconds.
    pub open spec fn full() -> ProfileView {
        ProfileView { whole: whole_tier(), frac: frac_tier().subrange(0, 1) }
    }

    /// Hours to seconds.
    pub open spec fn medium() -> ProfileView {
        ProfileView { whole: whole_tier().subrange(1, 4), frac: Seq::empty() }
    }

    /// Minutes and seconds, then milliseconds.
    pub open spec fn short() -> ProfileView {
        ProfileView { whole: whole_tier().subrange(2, 4), frac: frac_tier().subrange(0, 1) }
    }

    /// Milliseconds to nanoseconds; the whole seconds are left out.
    pub open spec fn nano() -> ProfileView {
        ProfileView { whole: Seq::empty(), frac: frac_tier() }
    }
}

/// A checked pair of tables.
#[derive(Debug)]
pub struct Profile {
    whole: Vec<Unit>,
    frac: Vec<Unit>,
}

impl View for Profile {
    type V = ProfileView;

    closed spec fn view(&self) -> ProfileView {
        ProfileView { whole: self.whole@, frac: self.frac@ }
    }
}

impl Profile {
    #[verifier::type_invariant]
    spec fn checked(self) -> bool {
        self@.valid()
    }

    /// Makes a profile of two tables, or says what is wrong with them.
    pub fn new(whole: Vec<Unit>, frac: Vec<Unit>) -> (made: Result<Profile, ProfileError>)
        ensures
            match made {
                Ok(profile) => profile@ == (ProfileView { whole: whole@, frac: frac@ })
                    && profile@.valid(),
                Err(error) => (ProfileView { whole: whole@, frac: frac@ }).fault() == Some(error),
            },
    {
        if whole.len() == 0 && frac.len() == 0 {
            return Err(ProfileError::Empty);
        }
        if !is_positive(&whole) || !is_positive(&frac) {
            return Err(ProfileError::ZeroInterval);
        }
        if !is_descending(&whole) || !is_descending(&frac) {
            return Err(ProfileError::NotDescending);
        }
        if !is_subsecond(&frac) {
            return Err(ProfileError::NotFractional);
        }
        Ok(Profile { whole, frac })
    }

    /// Days, hours, minutes and seconds, then milliseconds.
    pub fn full() -> (profile: Profile)
        ensures
            profile@ == ProfileView::full(),
    {
        let whole = whole_units();
        let frac = select(&frac_units(), 0, 1);
        Profile { whole, frac }
    }

    /// Hours, minutes and seconds.
    pub fn medium() -> (profile: Profile)
        ensures
            profile@ == ProfileView::medium(),
    {
        let whole = select(&whole_units(), 1, 4);
        let frac: Vec<Unit> = Vec::new();
        Profile { whole, frac }
    }

    /// Minutes and seconds, then milliseconds.
    pub fn short() -> (profile: Profile)
        ensures
            profile@ == ProfileView::short(),
    {
        let whole = select(&whole_units(), 2, 4);
        let frac = select(&frac_units(), 0, 1);
        Profile { whole, frac }
    }

    /// Milliseconds, microseconds and nanoseconds of the part below one
    /// second; whole seconds are left out.
    pub fn nano() -> (profile: Profile)
        ensures
            profile@ == ProfileView::nano(),
    {
        let whole: Vec<Unit> = Vec::new();
        let frac = frac_units();
        Profile { whole, frac }
    }

    /// The table that shares out the whole seconds.
    pub fn whole_units(&self) -> (units: &Vec<Unit>)
        ensures
            units@ == self@.whole,
            self@.valid(),
    {
        proof {
            use_type_invariant(self);
        }
        &self.whole
    }

    /// The table that shares out the nanoseconds below one second.
    pub fn frac_units(&self) -> (units: &Vec<Unit>)
        ensures
            units@ == self@.frac,
            self@.valid(),
    {
        proof {
            use_type_invariant(self);
        }
        &self.frac
    }

    /// Takes an elapsed time apart: the whole seconds over the whole table,
    /// the nanoseconds below one second over the fractional table. The
    /// nanoseconds are taken as given, also where they make up a second or
    /// more.
    pub fn slots(&self, secs: u64, subsec_nanos: u32) -> (slots: Vec<Slot>)
        ensures
            slots@ == self@.slots(secs, subsec_nanos),
    {
        proof {
            use_type_invariant(self);
        }
        let whole = decompose(secs, &self.whole);
        let frac = decompose(subsec_nanos as u64, &self.frac);
        let mut slots = whole.slots;
        let mut rest = frac.slots;
        slots.append(&mut rest);
        slots
    }

    /// The compact text of an elapsed time: the units with a count above
    /// zero. An elapsed time in which no unit has one gives the empty text.
    pub fn humanize(&self, secs: u64, subsec_nanos: u32) -> (text: String)
        ensures
            text@ == self@.humanize(secs, subsec_nanos),
    {
        let slots = self.slots(secs, subsec_nanos);
        humanize_slots(&slots)
    }

    /// The full text of an elapsed time: every unit, with `0` where it has
    /// no count.
    pub fn robotize(&self, secs: u64, subsec_nanos: u32) -> (text: String)
        ensures
            text@ == self@.robotize(secs, subsec_nanos),
    {
        let slots = self.slots(secs, subsec_nanos);
        robotize_slots(&slots)
    }
}

} // verus!
