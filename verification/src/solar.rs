//! Solar event values as the window resolver consumes them.
//!
//! All instants are Unix timestamps in whole seconds.  Computing sunrise and
//! sunset for a date and location is floating-point ephemeris work that the
//! verified engine leaves to its caller at the edge; the resolver takes the
//! computed instants as plain values and is verified for every value of
//! them.

use vstd::prelude::*;

verus! {

/// Sunrise and sunset for one civil day at one location, both Unix seconds.
/// A day with no sunrise or sunset (polar day or night) has no
/// `SolarEvents`: callers hand the resolver `None` for it.
#[derive(Clone, Copy, PartialEq, Eq, Structural, Debug)]
pub struct SolarEvents {
    pub sunrise_utc: i64,
    pub sunset_utc: i64,
}

/// The ephemeris answers for the four civil days the resolver may look at,
/// relative to the UTC day holding `now`: the day before it, the day itself,
/// and the next two days.  `None` in a field means the sun does not rise or
/// set there on that day.  A poller without a device location has no
/// `SolarDays` at all and passes `None` for the whole set.
#[derive(Clone, Copy, PartialEq, Eq, Structural, Debug)]
pub struct SolarDays {
    pub yesterday: Option<SolarEvents>,
    pub today: Option<SolarEvents>,
    pub tomorrow: Option<SolarEvents>,
    pub two_days_ahead: Option<SolarEvents>,
}

} // verus!
