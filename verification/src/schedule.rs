//! The release schedule: one puzzle unlocks at each midnight of the release
//! zone, from the first to the twenty-fifth of December of the event year.

use vstd::prelude::*;
use chrono::{FixedOffset, TimeZone};
use crate::time::{Duration, Timestamp, NANOS_PER_SECOND};

verus! {

/// The release zone lies this many seconds west of UTC (UTC-05:00).
pub const RELEASE_ZONE_WEST_SECONDS: i32 = 18_000;

/// The month in which the puzzles are released.
pub const RELEASE_MONTH: u32 = 12;

/// The number of puzzle days in one event.
pub const LAST_DAY: u32 = 25;

/// Seconds in one day of a zone with a fixed offset.
pub const SECONDS_PER_DAY: i64 = 86_400;

/// The first year that the calendar of chrono holds.
pub const MIN_YEAR: i32 = -262_143;

/// The last year that the calendar of chrono holds.
pub const MAX_YEAR: i32 = 262_142;

/// Leap years of the proleptic Gregorian calendar.
pub open spec fn is_leap_year(year: int) -> bool {
    year % 4 == 0 && (year % 100 != 0 || year % 400 == 0)
}

/// The length of a month in days; `month` counts from 1.
pub open spec fn days_in_month(year: int, month: int) -> int {
    if month == 2 {
        if is_leap_year(year) {
            29
        } else {
            28
        }
    } else if month == 4 || month == 6 || month == 9 || month == 11 {
        30
    } else {
        31
    }
}

/// The days of `year` that lie before the first of `month`.
pub open spec fn days_before_month(year: int, month: int) -> int
    decreases month,
{
    if month <= 1 {
        0
    } else {
        days_before_month(year, month - 1) + days_in_month(year, month - 1)
    }
}

/// Whether year, month and day name a day that the calendar of chrono holds.
pub open spec fn is_calendar_date(year: int, month: int, day: int) -> bool {
    &&& MIN_YEAR <= year <= MAX_YEAR
    &&& 1 <= month <= 12
    &&& 1 <= day <= days_in_month(year, month)
}

/// The number of days from 1970-01-01 to the given day of the proleptic
/// Gregorian calendar (year 0 is 1 BCE); negative before 1970.
pub open spec fn days_from_epoch(year: int, month: int, day: int) -> int {
    let before = year - 1;
    365 * before + before / 4 - before / 100 + before / 400 + days_before_month(year, month) + day
        - 719_163
}

/// The UNIX timestamp of the midnight that begins the given day in a zone
/// `west_secs` seconds west of UTC.
pub open spec fn midnight_timestamp(west_secs: int, year: int, month: int, day: int) -> int {
    days_from_epoch(year, month, day) * 86_400 + west_secs
}

/// Calls chrono's `TimeZone::with_ymd_and_hms` on the zone that
/// `FixedOffset::west_opt` gives, for hour, minute and second zero, and reads
/// the result by `DateTime::timestamp`. Trusted: the call yields a value
/// exactly for the days of the proleptic Gregorian calendar between chrono's
/// first and last year, and that value is the count of seconds from the UNIX
/// epoch to that local midnight. The offset is kept at or west of UTC and
/// under one day, where the zone exists and the date never leaves the range.
#[verifier::external_body]
fn local_midnight(west_secs: i32, year: i32, month: u32, day: u32) -> (at: Option<i64>)
    requires
        0 <= west_secs < 86_400,
    ensures
        at is Some <==> is_calendar_date(year as int, month as int, day as int),
        at is Some ==> at.unwrap() == midnight_timestamp(
            west_secs as int,
            year as int,
            month as int,
            day as int,
        ),
{
    let zone = FixedOffset::west_opt(west_secs)?;
    match zone.with_ymd_and_hms(year, month, day, 0, 0, 0).single() {
        Some(at) => Some(at.timestamp()),
        None => None,
    }
}

/// The instant at which day 1 of the event of `year` unlocks.
pub open spec fn release_start(year: int) -> int {
    midnight_timestamp(RELEASE_ZONE_WEST_SECONDS as int, year, RELEASE_MONTH as int, 1)
}

/// The first of December is day 335 of a year, and day 336 of a leap year.
pub proof fn lemma_days_before_december(year: int)
    ensures
        days_before_month(year, 12) == 334 + if is_leap_year(year) {
            1int
        } else {
            0int
        },
{
    reveal_with_fuel(days_before_month, 13);
}

/// The start of the event of `year`, counted in days of the calendar without
/// asking chrono: for the years that lie beyond chrono's last.
fn counted_release_start(year: u32) -> (start: i64)
    ensures
        start == release_start(year as int),
{
    proof {
        lemma_days_before_december(year as int);
    }
    let leap: i64 = if year % 4 == 0 && (year % 100 != 0 || year % 400 == 0) {
        1
    } else {
        0
    };
    let before: i64 = year as i64 - 1;
    let leap_days: i64 = if year == 0 {
        -1
    } else {
        before / 4 - before / 100 + before / 400
    };
    let days: i64 = 365 * before + leap_days + 334 + leap + 1 - 719_163;
    days * SECONDS_PER_DAY + RELEASE_ZONE_WEST_SECONDS as i64
}

/// The UNIX timestamp at which day 1 of the event of `year` unlocks: the
/// midnight that begins the first of December in the release zone. chrono
/// is asked as far as its calendar reaches; beyond its last year the days
/// are counted here.
pub fn release_start_of(year: u32) -> (start: i64)
    ensures
        start == release_start(year as int),
{
    if year <= MAX_YEAR as u32 {
        match local_midnight(RELEASE_ZONE_WEST_SECONDS, year as i32, RELEASE_MONTH, 1) {
            Some(at) => at,
            None => counted_release_start(year),
        }
    } else {
        counted_release_start(year)
    }
}

/// Every event starts within 140 quadrillion seconds of the epoch, so that
/// its days fit the seconds of a timestamp.
pub proof fn lemma_release_start_bounds(year: int)
    requires
        0 <= year <= u32::MAX,
    ensures
        -62_200_000_000 <= release_start(year) <= 140_000_000_000_000_000,
{
    lemma_days_before_month(year, 12);
}

/// The days before a month are no more than those of a leap year.
pub proof fn lemma_days_before_month(year: int, month: int)
    requires
        1 <= month <= 12,
    ensures
        0 <= days_before_month(year, month) <= 31 * (month - 1),
    decreases month,
{
    if month > 1 {
        lemma_days_before_month(year, month - 1);
    }
}

/// Nanoseconds in one day of a zone with a fixed offset.
pub const NANOS_PER_DAY: i128 = 86_400_000_000_000;

/// The number of days unlocked at the instant `now_nanos` (nanoseconds since
/// the UNIX epoch), for an event whose first day unlocks at second `start`:
/// one more than the whole days gone by since `start`, kept within 0 and 25.
pub open spec fn unlocked_days(start: int, now_nanos: int) -> int {
    let day = (now_nanos - start * 1_000_000_000) / 86_400_000_000_000 + 1;
    if day <= 0 {
        0
    } else if day > 25 {
        25
    } else {
        day
    }
}

/// The second at which the next day unlocks; meant for fewer than 25
/// unlocked days.
pub open spec fn next_unlock(start: int, now_nanos: int) -> int {
    start + unlocked_days(start, now_nanos) * 86_400
}

/// The nanoseconds from `now_nanos` to the next unlock, or `None` once all
/// 25 days are unlocked.
pub open spec fn until_next_unlock(start: int, now_nanos: int) -> Option<int> {
    if unlocked_days(start, now_nanos) == 25 {
        None
    } else {
        Some(next_unlock(start, now_nanos) * 1_000_000_000 - now_nanos)
    }
}

/// Counts the unlocked days at `now` for an event that starts at `start`.
pub fn unlocked_days_at(start: i64, now: Timestamp) -> (days: u32)
    ensures
        days == unlocked_days(start as int, now.nanos_since_epoch()),
        days <= LAST_DAY,
{
    let elapsed: i128 = now.total_nanos() - start as i128 * NANOS_PER_SECOND;
    if elapsed < 0 {
        0
    } else if elapsed >= 24 * NANOS_PER_DAY {
        LAST_DAY
    } else {
        let whole: i128 = elapsed / NANOS_PER_DAY;
        (whole + 1) as u32
    }
}

/// The span from `now` to the next unlock, or `None` once all days are
/// unlocked.
pub fn until_next_unlock_at(start: i64, now: Timestamp) -> (left: Option<Duration>)
    ensures
        left is None <==> unlocked_days(start as int, now.nanos_since_epoch()) == 25,
        left is Some ==> until_next_unlock(start as int, now.nanos_since_epoch()) == Some(
            left.unwrap().nanos as int,
        ),
{
    let days = unlocked_days_at(start, now);
    if days >= LAST_DAY {
        return None;
    }
    let next: i128 = start as i128 + days as i128 * (SECONDS_PER_DAY as i128);
    Some(Duration { nanos: next * NANOS_PER_SECOND - now.total_nanos() })
}

/// The count of unlocked days never falls as time goes on.
pub proof fn lemma_unlocked_days_monotonic(start: int, earlier: int, later: int)
    requires
        earlier <= later,
    ensures
        unlocked_days(start, earlier) <= unlocked_days(start, later),
{
}

/// The count of unlocked days lies between 0 and 25.
pub proof fn lemma_unlocked_days_bounded(start: int, now_nanos: int)
    ensures
        0 <= unlocked_days(start, now_nanos) <= 25,
{
}

/// While a day is still locked, the next unlock lies strictly after now, and
/// no more than one day ahead once the event has begun.
pub proof fn lemma_next_unlock_in_future(start: int, now_nanos: int)
    requires
        unlocked_days(start, now_nanos) < 25,
    ensures
        until_next_unlock(start, now_nanos) is Some,
        until_next_unlock(start, now_nanos).unwrap() > 0,
        unlocked_days(start, now_nanos) > 0 ==> until_next_unlock(start, now_nanos).unwrap()
            <= 86_400 * 1_000_000_000,
{
}

} // verus!
