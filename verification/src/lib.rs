//! Renders elapsed time as compact text, unit by unit.
//!
//! An elapsed time is taken apart over a table of units, largest first, and
//! the counts are written out with the units' labels: `1d 1h 1m 12s`.
//! `humanize` leaves out the units without a count; `robotize` names every
//! unit, with `0` where it has none. An elapsed time in which no unit has a
//! count is humanized to the empty text.
//!
//! - `unit`: units, the two tiers (days to seconds, milliseconds to
//!   nanoseconds), and what makes a table of units well formed.
//! - `decompose`: the greedy decomposition and its slots.
//! - `decimal`, `text`, `render`: counts as decimal numbers, joining, and
//!   slots as tokens.
//! - `profile`: a checked choice of units from the two tiers, and rendering
//!   seconds and nanoseconds under it.
//! - `duration`: rendering a `std::time::Duration` under a profile.
//! - `eternity`, `medium_eternity`, `short_eternity`, `nano_eternity`: the
//!   four fixed profiles as traits on `std::time::Duration`.
//! - `theorems`: what holds of every profile and every elapsed time.

pub mod decimal;
pub mod decompose;
pub mod duration;
pub mod eternity;
pub mod medium_eternity;
pub mod nano_eternity;
pub mod profile;
pub mod render;
pub mod short_eternity;
pub mod text;
pub mod theorems;
pub mod unit;

pub use decompose::Slot;
pub use duration::{humanize, robotize};
pub use eternity::{to_time_vec, Eternity};
pub use medium_eternity::{to_time_vec_hms, MediumEternity};
pub use nano_eternity::{to_time_vec_msusns, NanoEternity};
pub use profile::{Profile, ProfileError};
pub use render::unwrap_result;
pub use short_eternity::{to_time_vec_msms, ShortEternity};
pub use unit::Unit;
