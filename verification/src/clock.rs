//! Clock and delta calculator: maps wall-clock instants to schedule-relative
//! times and computes drift against the daily schedule.

use vstd::prelude::*;

use chrono::{Datelike, Timelike};

use crate::{Config, MS_PER_DAY, valid_config};
use crate::date::{Date, date_from_parts, valid_date};

verus! {

/// `a` and `b` are no further apart than `tol`.
pub open spec fn spec_is_close(a: int, b: int, tol: int) -> bool {
    -tol <= a - b && a - b <= tol
}

/// Tolerant comparison of two schedule times.
pub fn is_close(a: i64, b: i64, tol: i64) -> (r: bool)
    ensures
        r == spec_is_close(a as int, b as int, tol as int),
{
    let d: i128 = a as i128 - b as i128;
    -(tol as i128) <= d && d <= tol as i128
}

/// The wall clock moved into the schedule day: a moment within four seconds
/// of midnight belongs to the ending day when the schedule starts at
/// midnight, and a moment more than two seconds before the day's start
/// still belongs to the previous schedule day.
pub open spec fn spec_adjusted_now(c: Config, now: int) -> int {
    if c.day_start_ms == 0 && MS_PER_DAY - now < 4000 {
        now - MS_PER_DAY
    } else if c.day_start_ms > now + 2000 {
        now + MS_PER_DAY
    } else {
        now
    }
}

/// The drift of a scheduled moment against the clock. A drift within the
/// stop threshold of a full day is an artefact of the midnight wrap and is
/// folded back by one day.
pub open spec fn spec_delta(c: Config, reference_ms: int, now: int) -> int {
    let d0 = reference_ms - spec_adjusted_now(c, now);
    if spec_is_close(d0, MS_PER_DAY as int, c.stop_threshold_ms as int) {
        d0 - MS_PER_DAY
    } else {
        d0
    }
}

/// How much of today's slot remains: the time to the day's start while the
/// day has not begun, else the time to its end. Negative once the slot is
/// over.
pub open spec fn spec_total_delta(c: Config, now: int) -> int {
    let a = spec_adjusted_now(c, now);
    if a < c.day_start_ms {
        c.day_start_ms - a
    } else {
        c.day_length_ms + c.day_start_ms - a
    }
}

/// What `get_delta` returns: the drift of `reference_ms` against the clock,
/// and the remainder of today's slot.
pub open spec fn spec_get_delta(c: Config, reference_ms: int, now_ms: int) -> (int, int) {
    (spec_delta(c, reference_ms, now_ms), spec_total_delta(c, now_ms))
}

/// Given a reference second-of-day (typically a clip's scheduled begin) and
/// the wall clock, compute the signed drift `reference - now` and the time
/// remaining in today's slot, both read across the midnight wrap.
pub fn get_delta(c: &Config, reference_ms: i64, now_ms: i64) -> (r: (i64, i64))
    requires
        valid_config(*c),
        -MS_PER_DAY <= reference_ms <= 4 * MS_PER_DAY,
        0 <= now_ms < MS_PER_DAY,
    ensures
        (r.0 as int, r.1 as int) == spec_get_delta(*c, reference_ms as int, now_ms as int),
{
    let adjusted: i64 = if c.day_start_ms == 0 && MS_PER_DAY - now_ms < 4000 {
        now_ms - MS_PER_DAY
    } else if c.day_start_ms > now_ms + 2000 {
        now_ms + MS_PER_DAY
    } else {
        now_ms
    };
    let d0 = reference_ms - adjusted;
    let delta = if is_close(d0, MS_PER_DAY, c.stop_threshold_ms) {
        d0 - MS_PER_DAY
    } else {
        d0
    };
    let total = if adjusted < c.day_start_ms {
        c.day_start_ms - adjusted
    } else {
        c.day_length_ms + c.day_start_ms - adjusted
    };
    (delta, total)
}

/// The clip is playing close enough to its scheduled time.
pub open spec fn spec_in_sync(c: Config, delta: int) -> bool {
    -c.sync_threshold_ms <= delta && delta <= c.sync_threshold_ms
}

/// The drift is so large that the playout must stop.
pub open spec fn spec_sync_fatal(c: Config, delta: int) -> bool {
    delta > 2 * c.sync_threshold_ms || delta < -2 * c.sync_threshold_ms
}

/// Judge a clip's drift: `r.0` says the clip is still in sync, `r.1` says the
/// drift is past twice the threshold and the playout should terminate.
pub fn check_sync(c: &Config, delta: i64) -> (r: (bool, bool))
    requires
        valid_config(*c),
    ensures
        r.0 == spec_in_sync(*c, delta as int),
        r.1 == spec_sync_fatal(*c, delta as int),
{
    let t2: i64 = 2 * c.sync_threshold_ms;
    let in_sync = -c.sync_threshold_ms <= delta && delta <= c.sync_threshold_ms;
    let fatal = delta > t2 || delta < -t2;
    (in_sync, fatal)
}

/// Relies on chrono's `Local::now` and the `Timelike` accessors `hour`,
/// `minute`, `second` and `nanosecond`: the hour is below 24, minute and
/// second below 60, and the nanosecond below two billion (values above one
/// billion stand for a leap second).
#[verifier::external_body]
fn local_time_parts() -> (r: (u32, u32, u32, u32))
    ensures
        r.0 < 24,
        r.1 < 60,
        r.2 < 60,
        r.3 < 2_000_000_000,
{
    let now = chrono::Local::now();
    (now.hour(), now.minute(), now.second(), now.nanosecond())
}

/// Relies on chrono's `Local::now` and the `Datelike` accessors `year`,
/// `month` and `day`: the month is in 1 to 12 and the day of month in 1 to 31.
#[verifier::external_body]
fn local_date_parts() -> (r: (i32, u32, u32))
    ensures
        1 <= r.1 <= 12,
        1 <= r.2 <= 31,
{
    let now = chrono::Local::now();
    (now.year(), now.month(), now.day())
}

/// The milliseconds of the day at a clock reading.
pub open spec fn spec_ms_of_day(h: int, m: int, s: int, ns: int) -> int {
    h * 3_600_000 + m * 60_000 + s * 1000 + ns / 1_000_000
}

/// Combine clock fields into milliseconds of the day.
pub fn ms_of_day(h: u32, m: u32, s: u32, ns: u32) -> (r: i64)
    requires
        h < 24,
        m < 60,
        s < 60,
        ns < 2_000_000_000,
    ensures
        r == spec_ms_of_day(h as int, m as int, s as int, ns as int),
        0 <= r < MS_PER_DAY + 2000,
{
    (h as i64) * 3_600_000 + (m as i64) * 60_000 + (s as i64) * 1000 + (ns as i64) / 1_000_000
}

/// The local wall clock as milliseconds of the day, clamped below one day
/// (a leap second reads as the last moment of the day).
pub fn get_sec_ms() -> (r: i64)
    ensures
        0 <= r < MS_PER_DAY,
{
    let (h, m, s, ns) = local_time_parts();
    let v = ms_of_day(h, m, s, ns);
    if v >= MS_PER_DAY {
        MS_PER_DAY - 1
    } else {
        v
    }
}

/// The local calendar day, when the clock reports a day this library can
/// name. Whatever the clock read, the result is `date_from_parts` of it:
/// that function pins, for every reading, whether and which date comes out.
pub fn today_date() -> (r: Option<Date>)
    ensures
        r matches Some(d) ==> valid_date(d),
{
    let (y, m, d) = local_date_parts();
    date_from_parts(y, m, d)
}

} // verus!
