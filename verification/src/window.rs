//! The window resolver: the current or next active recording interval.
//!
//! Given an instant, the two parsed bounds, the UTC offset of the device's
//! locale and — when a bound is relative — the ephemeris answers for the
//! days around the instant, the resolver produces the one interval that is
//! active now or comes next, and an is-active predicate.  It handles
//! day-boundary wraparound for absolute bounds, mixed absolute/relative
//! bounds, and the degenerate always-recording configuration.

use vstd::prelude::*;

use crate::solar::SolarDays;
use crate::timespec::AbsRelTime;
use crate::timespec::spec_time_offset;

verus! {

/// The widest instant the resolver accepts, about 125 000 years from the
/// epoch: room enough for every real clock while keeping all of the
/// resolver's 64-bit arithmetic visibly in range.
pub const MAX_INSTANT: i64 = 4_000_000_000_000;

/// The recording window as configured: the two bounds, and the explicit
/// always-recording flag.
#[derive(Clone, Copy, PartialEq, Eq, Structural, Debug)]
pub struct RecordingWindowConfig {
    pub start: AbsRelTime,
    pub stop: AbsRelTime,
    pub continuous_recorder: bool,
}

/// The resolved interval, both ends Unix seconds, inclusive on both ends.
#[derive(Clone, Copy, PartialEq, Eq, Structural, Debug)]
pub struct ResolvedWindow {
    pub start_utc: i64,
    pub end_utc: i64,
}

/// Why a window could not be resolved.
#[derive(Clone, Copy, PartialEq, Eq, Structural, Debug)]
pub enum ResolveError {
    /// A relative bound needs the device's location — that is, ephemeris
    /// answers computed from it — and none was given.
    LocationRequired,
    /// A day the resolver had to look at has no sunrise or sunset.
    SolarUndefined,
    /// No candidate interval contains or follows the instant: a geometry
    /// edge case that the caller should log loudly.
    Unresolvable,
}

/// A configuration records continuously when its flag says so, or when both
/// bounds are absolute and name the same time of day.
pub open spec fn spec_is_continuous(cfg: RecordingWindowConfig) -> bool {
    cfg.continuous_recorder || (cfg.start matches AbsRelTime::Absolute { .. } && cfg.start
        == cfg.stop)
}

/// The UTC midnight opening the civil day that holds `ts`.
pub open spec fn day_start(ts: int) -> int {
    (ts / 86400) * 86400
}

/// Day-boundary correction for a window with at least one absolute bound.
/// Starting from the naive same-day interval, each absolute bound may be
/// shifted one day back or forward so that the interval keeps `start <= end`
/// across midnight wraps and is the earliest one whose end has not yet
/// passed.
pub open spec fn spec_day_correction(now: int, s: int, abs_s: bool, e: int, abs_e: bool) -> (
    int,
    int,
) {
    let start_minus_day = s - 86400;
    let start_plus_day0 = s + 86400;
    let end_minus_day0 = e - 86400;
    let end_plus_day = e + 86400;
    let end_minus_day = if start_minus_day > end_minus_day0 {
        end_minus_day0 + 86400
    } else {
        end_minus_day0
    };
    let start_plus_day = if start_plus_day0 > end_plus_day {
        s
    } else {
        start_plus_day0
    };
    let s1 = if end_minus_day > now && abs_s {
        start_minus_day
    } else {
        s
    };
    let e1 = if end_minus_day > now && abs_e {
        end_minus_day
    } else {
        e
    };
    let e2 = if e1 < s1 && abs_e {
        end_plus_day
    } else {
        e1
    };
    let s3 = if now > e2 && abs_s {
        start_plus_day
    } else {
        s1
    };
    let e3 = if now > e2 && abs_e {
        end_plus_day
    } else {
        e2
    };
    (s3, e3)
}

/// The interval after substituting each absolute bound's own time of day for
/// the solar candidate, with the day-boundary correction where any bound is
/// absolute.
pub open spec fn spec_substitute(
    now: int,
    abs_s: bool,
    so: int,
    abs_e: bool,
    eo: int,
    ws: int,
    we: int,
) -> (int, int) {
    let s = if abs_s {
        day_start(now) + so
    } else {
        ws
    };
    let e = if abs_e {
        day_start(now) + eo
    } else {
        we
    };
    if abs_s || abs_e {
        spec_day_correction(now, s, abs_s, e, abs_e)
    } else {
        (s, e)
    }
}

/// Candidate selection when a bound is relative.  The sunsets carry the
/// start offset and the sunrises the end offset; the candidate holding or
/// following `now` is picked in priority order, looking two days ahead only
/// when `now` has passed both today's shifted sunset and tomorrow's shifted
/// sunrise.
pub open spec fn spec_resolve_solar(
    now: int,
    abs_s: bool,
    so: int,
    abs_e: bool,
    eo: int,
    days: SolarDays,
) -> Result<(int, int), ResolveError> {
    match (days.yesterday, days.today, days.tomorrow) {
        (Some(y), Some(t), Some(tm)) => {
            let yesterday_sunset = y.sunset_utc + so;
            let today_sunrise = t.sunrise_utc + eo;
            let today_sunset = t.sunset_utc + so;
            let tomorrow_sunrise = tm.sunrise_utc + eo;
            let tomorrow_sunset = tm.sunset_utc + so;
            if now > today_sunset && now > tomorrow_sunrise {
                match days.two_days_ahead {
                    Some(two) => Ok(
                        spec_substitute(
                            now,
                            abs_s,
                            so,
                            abs_e,
                            eo,
                            tomorrow_sunset,
                            two.sunrise_utc + eo,
                        ),
                    ),
                    None => Err(ResolveError::SolarUndefined),
                }
            } else if (now > today_sunset && now < tomorrow_sunrise) || (now < today_sunset && now
                > today_sunrise) {
                Ok(spec_substitute(now, abs_s, so, abs_e, eo, today_sunset, tomorrow_sunrise))
            } else if now < tomorrow_sunset && now < today_sunrise && now > yesterday_sunset {
                Ok(spec_substitute(now, abs_s, so, abs_e, eo, yesterday_sunset, today_sunrise))
            } else {
                Err(ResolveError::Unresolvable)
            }
        },
        _ => Err(ResolveError::SolarUndefined),
    }
}

/// The resolved window for an instant, or the typed reason there is none.
/// A continuous configuration resolves to the sentinel full day holding the
/// instant.
pub open spec fn spec_resolve_window(
    now: int,
    cfg: RecordingWindowConfig,
    solar: Option<SolarDays>,
    tz: int,
) -> Result<(int, int), ResolveError> {
    if spec_is_continuous(cfg) {
        Ok((day_start(now), day_start(now) + 86400))
    } else {
        let start_bound = spec_time_offset(cfg.start, tz);
        let end_bound = spec_time_offset(cfg.stop, tz);
        let abs_s = start_bound.0;
        let abs_e = end_bound.0;
        let so = start_bound.1;
        let eo = end_bound.1;
        if abs_s && abs_e {
            Ok(spec_day_correction(now, day_start(now) + so, true, day_start(now) + eo, true))
        } else {
            match solar {
                Some(days) => spec_resolve_solar(now, abs_s, so, abs_e, eo, days),
                None => Err(ResolveError::LocationRequired),
            }
        }
    }
}

/// Whether the instant lies in the resolved window, both ends inclusive.
pub open spec fn spec_is_active(
    now: int,
    cfg: RecordingWindowConfig,
    solar: Option<SolarDays>,
    tz: int,
) -> Result<bool, ResolveError> {
    match spec_resolve_window(now, cfg, solar, tz) {
        Ok((s, e)) => Ok(s <= now && now <= e),
        Err(e) => Err(e),
    }
}

/// The given solar instants, where present, lie within the instant range the
/// resolver's arithmetic is proved for.
pub open spec fn events_bounded(ev: crate::solar::SolarEvents) -> bool {
    -MAX_INSTANT <= ev.sunrise_utc <= MAX_INSTANT && -MAX_INSTANT <= ev.sunset_utc <= MAX_INSTANT
}

pub open spec fn solar_bounded(solar: Option<SolarDays>) -> bool {
    match solar {
        None => true,
        Some(days) => (days.yesterday matches Some(ev) ==> events_bounded(ev)) && (days.today
            matches Some(ev) ==> events_bounded(ev)) && (days.tomorrow matches Some(ev)
            ==> events_bounded(ev)) && (days.two_days_ahead matches Some(ev) ==> events_bounded(
            ev,
        )),
    }
}

/// The supplied solar answers as the specification sees them.
pub open spec fn solar_view(solar: Option<&SolarDays>) -> Option<SolarDays> {
    match solar {
        Some(days) => Some(*days),
        None => None,
    }
}

impl RecordingWindowConfig {
    /// The derived continuous flag: the explicit always-recording flag, or
    /// both bounds absolute and equal.
    pub fn is_continuous_recorder(&self) -> (r: bool)
        ensures
            r == spec_is_continuous(*self),
    {
        self.continuous_recorder || (matches!(self.start, AbsRelTime::Absolute { .. }) && self.start
            == self.stop)
    }
}

/// The UTC midnight opening the civil day that holds `ts`.
fn day_start_of(ts: i64) -> (r: i64)
    requires
        -MAX_INSTANT <= ts <= MAX_INSTANT,
    ensures
        r as int == day_start(ts as int),
        -MAX_INSTANT - 86400 <= r <= MAX_INSTANT,
{
    let q: i64 = ts / 86400;
    let rem: i64 = ts % 86400;
    let floor_q: i64 = if rem < 0 {
        q - 1
    } else {
        q
    };
    floor_q * 86400
}

/// Day-boundary correction, executing `spec_day_correction`.
fn day_correction(now: i64, s: i64, abs_s: bool, e: i64, abs_e: bool) -> (r: (i64, i64))
    requires
        -MAX_INSTANT <= now <= MAX_INSTANT,
        -4_200_000_000_000 <= s <= 4_200_000_000_000,
        -4_200_000_000_000 <= e <= 4_200_000_000_000,
    ensures
        (r.0 as int, r.1 as int) == spec_day_correction(now as int, s as int, abs_s, e as int, abs_e),
{
    let start_minus_day: i64 = s - 86400;
    let start_plus_day0: i64 = s + 86400;
    let end_minus_day0: i64 = e - 86400;
    let end_plus_day: i64 = e + 86400;
    let end_minus_day: i64 = if start_minus_day > end_minus_day0 {
        end_minus_day0 + 86400
    } else {
        end_minus_day0
    };
    let start_plus_day: i64 = if start_plus_day0 > end_plus_day {
        s
    } else {
        start_plus_day0
    };
    let s1: i64 = if end_minus_day > now && abs_s {
        start_minus_day
    } else {
        s
    };
    let e1: i64 = if end_minus_day > now && abs_e {
        end_minus_day
    } else {
        e
    };
    let e2: i64 = if e1 < s1 && abs_e {
        end_plus_day
    } else {
        e1
    };
    let s3: i64 = if now > e2 && abs_s {
        start_plus_day
    } else {
        s1
    };
    let e3: i64 = if now > e2 && abs_e {
        end_plus_day
    } else {
        e2
    };
    (s3, e3)
}

/// The current or next recording interval for `now_utc`, per
/// `spec_resolve_window`: the sentinel full day for a continuous
/// configuration; the naive same-day interval with day-boundary correction
/// when both bounds are absolute; otherwise the solar candidate holding or
/// following `now_utc`, built from the supplied ephemeris answers — whose
/// absence is the `LocationRequired` error, and whose missing days are the
/// `SolarUndefined` error.
pub fn resolve_window(
    now_utc: i64,
    config: &RecordingWindowConfig,
    solar: Option<&SolarDays>,
    utc_offset_seconds: i32,
) -> (r: Result<ResolvedWindow, ResolveError>)
    requires
        -MAX_INSTANT <= now_utc <= MAX_INSTANT,
        solar_bounded(solar_view(solar)),
    ensures
        match r {
            Ok(w) => spec_resolve_window(
                now_utc as int,
                *config,
                solar_view(solar),
                utc_offset_seconds as int,
            ) == Ok::<(int, int), ResolveError>((w.start_utc as int, w.end_utc as int)),
            Err(e) => spec_resolve_window(
                now_utc as int,
                *config,
                solar_view(solar),
                utc_offset_seconds as int,
            ) == Err::<(int, int), ResolveError>(e),
        },
{
    if config.is_continuous_recorder() {
        let ds: i64 = day_start_of(now_utc);
        return Ok(ResolvedWindow { start_utc: ds, end_utc: ds + 86400 });
    }
    let start_bound = config.start.time_offset(utc_offset_seconds);
    let end_bound = config.stop.time_offset(utc_offset_seconds);
    let abs_s: bool = start_bound.0;
    let abs_e: bool = end_bound.0;
    let so: i64 = start_bound.1 as i64;
    let eo: i64 = end_bound.1 as i64;
    if abs_s && abs_e {
        let ds: i64 = day_start_of(now_utc);
        let corrected = day_correction(now_utc, ds + so, true, ds + eo, true);
        return Ok(ResolvedWindow { start_utc: corrected.0, end_utc: corrected.1 });
    }
    match solar {
        None => Err(ResolveError::LocationRequired),
        Some(days) => match (days.yesterday, days.today, days.tomorrow) {
            (Some(y), Some(t), Some(tm)) => {
                let yesterday_sunset: i64 = y.sunset_utc + so;
                let today_sunrise: i64 = t.sunrise_utc + eo;
                let today_sunset: i64 = t.sunset_utc + so;
                let tomorrow_sunrise: i64 = tm.sunrise_utc + eo;
                let tomorrow_sunset: i64 = tm.sunset_utc + so;
                if now_utc > today_sunset && now_utc > tomorrow_sunrise {
                    match days.two_days_ahead {
                        Some(two) => {
                            let two_days_sunrise: i64 = two.sunrise_utc + eo;
                            Ok(substitute(now_utc, abs_s, so, abs_e, eo, tomorrow_sunset, two_days_sunrise))
                        },
                        None => Err(ResolveError::SolarUndefined),
                    }
                } else if (now_utc > today_sunset && now_utc < tomorrow_sunrise) || (now_utc
                    < today_sunset && now_utc > today_sunrise) {
                    Ok(substitute(now_utc, abs_s, so, abs_e, eo, today_sunset, tomorrow_sunrise))
                } else if now_utc < tomorrow_sunset && now_utc < today_sunrise && now_utc
                    > yesterday_sunset {
                    Ok(substitute(now_utc, abs_s, so, abs_e, eo, yesterday_sunset, today_sunrise))
                } else {
                    Err(ResolveError::Unresolvable)
                }
            },
            _ => Err(ResolveError::SolarUndefined),
        },
    }
}

/// Bound substitution and correction, executing `spec_substitute`.
fn substitute(now: i64, abs_s: bool, so: i64, abs_e: bool, eo: i64, ws: i64, we: i64) -> (r:
    ResolvedWindow)
    requires
        -MAX_INSTANT <= now <= MAX_INSTANT,
        0 <= so < 86400 || !abs_s,
        0 <= eo < 86400 || !abs_e,
        -4_200_000_000_000 <= ws <= 4_200_000_000_000,
        -4_200_000_000_000 <= we <= 4_200_000_000_000,
    ensures
        (r.start_utc as int, r.end_utc as int) == spec_substitute(
            now as int,
            abs_s,
            so as int,
            abs_e,
            eo as int,
            ws as int,
            we as int,
        ),
{
    let s: i64 = if abs_s {
        day_start_of(now) + so
    } else {
        ws
    };
    let e: i64 = if abs_e {
        day_start_of(now) + eo
    } else {
        we
    };
    if abs_s || abs_e {
        let corrected = day_correction(now, s, abs_s, e, abs_e);
        ResolvedWindow { start_utc: corrected.0, end_utc: corrected.1 }
    } else {
        ResolvedWindow { start_utc: s, end_utc: e }
    }
}

/// Whether `now_utc` lies inside the active recording window, both ends
/// inclusive; errors exactly as `resolve_window` errs.
pub fn is_active(
    now_utc: i64,
    config: &RecordingWindowConfig,
    solar: Option<&SolarDays>,
    utc_offset_seconds: i32,
) -> (r: Result<bool, ResolveError>)
    requires
        -MAX_INSTANT <= now_utc <= MAX_INSTANT,
        solar_bounded(solar_view(solar)),
    ensures
        r == spec_is_active(now_utc as int, *config, solar_view(solar), utc_offset_seconds as int),
{
    match resolve_window(now_utc, config, solar, utc_offset_seconds) {
        Ok(w) => Ok(w.start_utc <= now_utc && now_utc <= w.end_utc),
        Err(e) => Err(e),
    }
}

/// Resolution is a pure function of its inputs: calls with identical
/// instant, configuration, ephemeris answers and UTC offset yield identical
/// output, as `resolve_window`'s contract ties every call's result to this
/// one function of the inputs.
pub proof fn lemma_resolve_window_idempotent(
    now1: int,
    cfg1: RecordingWindowConfig,
    solar1: Option<SolarDays>,
    tz1: int,
    now2: int,
    cfg2: RecordingWindowConfig,
    solar2: Option<SolarDays>,
    tz2: int,
)
    requires
        now1 == now2,
        cfg1 == cfg2,
        solar1 == solar2,
        tz1 == tz2,
    ensures
        spec_resolve_window(now1, cfg1, solar1, tz1) == spec_resolve_window(
            now2,
            cfg2,
            solar2,
            tz2,
        ),
{
}

/// A continuous configuration — the explicit flag, or both bounds absolute
/// and naming the same time of day — is active at every instant.
pub proof fn lemma_continuous_always_active(
    now: int,
    cfg: RecordingWindowConfig,
    solar: Option<SolarDays>,
    tz: int,
)
    requires
        spec_is_continuous(cfg),
    ensures
        spec_is_active(now, cfg, solar, tz) == Ok::<bool, ResolveError>(true),
{
    assert(86400 * (now / 86400) + now % 86400 == now) by (nonlinear_arith);
    assert(day_start(now) <= now < day_start(now) + 86400);
}

/// A relative start bound anchors the window's start to a computed sunset:
/// when resolution succeeds, the window starts exactly at the sunset of one
/// of the three days around the instant, shifted by the configured offset.
pub proof fn lemma_relative_start_anchored(
    now: int,
    cfg: RecordingWindowConfig,
    days: SolarDays,
    tz: int,
    off: i32,
    w: (int, int),
)
    requires
        cfg.start == (AbsRelTime::Relative { offset_seconds: off }),
        !cfg.continuous_recorder,
        spec_resolve_window(now, cfg, Some(days), tz) == Ok::<(int, int), ResolveError>(w),
    ensures
        (days.yesterday matches Some(y) && w.0 == y.sunset_utc + off) || (days.today matches Some(
            t,
        ) && w.0 == t.sunset_utc + off) || (days.tomorrow matches Some(tm) && w.0
            == tm.sunset_utc + off),
{
}

/// A relative stop bound anchors the window's end to a computed sunrise:
/// when resolution succeeds, the window ends exactly at the sunrise of one
/// of the three days after the instant's previous day, shifted by the
/// configured offset.
pub proof fn lemma_relative_end_anchored(
    now: int,
    cfg: RecordingWindowConfig,
    days: SolarDays,
    tz: int,
    off: i32,
    w: (int, int),
)
    requires
        cfg.stop == (AbsRelTime::Relative { offset_seconds: off }),
        !cfg.continuous_recorder,
        spec_resolve_window(now, cfg, Some(days), tz) == Ok::<(int, int), ResolveError>(w),
    ensures
        (days.today matches Some(t) && w.1 == t.sunrise_utc + off) || (days.tomorrow matches Some(
            tm,
        ) && w.1 == tm.sunrise_utc + off) || (days.two_days_ahead matches Some(two) && w.1
            == two.sunrise_utc + off),
{
}

/// With both bounds absolute, the resolved interval is ordered and not yet
/// over: its start is never after its end, and its end never precedes the
/// instant it was resolved for.
pub proof fn lemma_absolute_window_ordered(
    now: int,
    cfg: RecordingWindowConfig,
    solar: Option<SolarDays>,
    tz: int,
    w: (int, int),
)
    requires
        cfg.start matches AbsRelTime::Absolute { .. },
        cfg.stop matches AbsRelTime::Absolute { .. },
        spec_resolve_window(now, cfg, solar, tz) == Ok::<(int, int), ResolveError>(w),
    ensures
        w.0 <= w.1,
        now <= w.1,
{
    assert(86400 * (now / 86400) + now % 86400 == now) by (nonlinear_arith);
    assert(day_start(now) <= now < day_start(now) + 86400);
}

/// With both bounds relative, the resolved interval is ordered and not yet
/// over, provided the supplied ephemeris answers are ordered as the real
/// ephemeris orders them: each day's shifted sunset precedes the next day's
/// shifted sunrise, the sunrise two days ahead lies on its own day, and the
/// end offset reaches back less than a whole day.
pub proof fn lemma_relative_window_ordered(
    now: int,
    cfg: RecordingWindowConfig,
    days: SolarDays,
    tz: int,
    so: i32,
    eo: i32,
    w: (int, int),
)
    requires
        cfg.start == (AbsRelTime::Relative { offset_seconds: so }),
        cfg.stop == (AbsRelTime::Relative { offset_seconds: eo }),
        !cfg.continuous_recorder,
        spec_resolve_window(now, cfg, Some(days), tz) == Ok::<(int, int), ResolveError>(w),
        (match (days.yesterday, days.today) {
            (Some(y), Some(t)) => y.sunset_utc + so <= t.sunrise_utc + eo,
            _ => true,
        }),
        (match (days.today, days.tomorrow) {
            (Some(t), Some(tm)) => t.sunset_utc + so <= tm.sunrise_utc + eo,
            _ => true,
        }),
        (match (days.tomorrow, days.two_days_ahead) {
            (Some(tm), Some(two)) => tm.sunset_utc + so <= two.sunrise_utc + eo,
            _ => true,
        }),
        (match days.two_days_ahead {
            Some(two) => two.sunrise_utc >= day_start(now) + 2 * 86400,
            None => true,
        }),
        eo >= -86400,
    ensures
        w.0 <= w.1,
        now <= w.1,
{
    assert(86400 * (now / 86400) + now % 86400 == now) by (nonlinear_arith);
    assert(day_start(now) <= now < day_start(now) + 86400);
}

/// When the instant lies inside today's solar candidate — after today's
/// shifted sunrise or sunset but before tomorrow's shifted sunrise — a
/// relative start bound anchors the resolved start exactly to today's
/// computed sunset, shifted by the offset.
pub proof fn lemma_relative_start_today_sunset(
    now: int,
    cfg: RecordingWindowConfig,
    days: SolarDays,
    tz: int,
    off: i32,
    w: (int, int),
)
    requires
        cfg.start == (AbsRelTime::Relative { offset_seconds: off }),
        !cfg.continuous_recorder,
        spec_resolve_window(now, cfg, Some(days), tz) == Ok::<(int, int), ResolveError>(w),
        (match (days.today, days.tomorrow) {
            (Some(t), Some(tm)) => {
                let eo = spec_time_offset(cfg.stop, tz).1;
                &&& !(now > t.sunset_utc + off && now > tm.sunrise_utc + eo)
                &&& ((now > t.sunset_utc + off && now < tm.sunrise_utc + eo) || (now
                    < t.sunset_utc + off && now > t.sunrise_utc + eo))
            },
            _ => true,
        }),
    ensures
        days.today matches Some(t) && w.0 == t.sunset_utc + off,
{
}

} // verus!
