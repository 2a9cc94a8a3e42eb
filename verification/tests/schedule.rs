use aoc::error::Error;
use aoc::leaderboard::Leaderboard;
use aoc::schedule::{release_start_of, unlocked_days_at, until_next_unlock_at};
use aoc::time::{now, ClockReading, Duration, Timestamp};

const DAY: i64 = 86_400;
// 2018-12-01T00:00:00-05:00
const START_2018: i64 = 1_543_640_400;

fn board(event: &str) -> Leaderboard {
    Leaderboard::new("42".to_string(), event.to_string())
}

#[test]
fn first_day_unlocks_at_release_zone_midnight() {
    let now = Timestamp::new(START_2018, 0);
    assert_eq!(board("2018").num_unlocked_days_at(now), Ok(1));
}

#[test]
fn nothing_is_unlocked_a_second_before() {
    // 2018-11-30T23:59:59-05:00
    let now = Timestamp::new(START_2018 - 1, 0);
    assert_eq!(board("2018").num_unlocked_days_at(now), Ok(0));
    let now = Timestamp::new(START_2018 - 1, 999_999_999);
    assert_eq!(board("2018").num_unlocked_days_at(now), Ok(0));
}

#[test]
fn all_days_are_unlocked_in_january() {
    // 2019-01-01T00:00:00-05:00
    let now = Timestamp::new(1_546_318_800, 0);
    assert_eq!(board("2018").num_unlocked_days_at(now), Ok(25));
}

#[test]
fn malformed_year_fails_the_schedule() {
    let now = Timestamp::new(START_2018, 0);
    assert_eq!(board("twenty-eighteen").num_unlocked_days_at(now), Err(Error::InvalidYear));
    assert_eq!(
        board("twenty-eighteen").duration_until_next_unlock_at(now),
        Err(Error::InvalidYear)
    );
    assert_eq!(board("twenty-eighteen").year(), Err(Error::InvalidYear));
    assert_eq!(board("twenty-eighteen").num_unlocked_days(), Err(Error::InvalidYear));
    assert_eq!(board("twenty-eighteen").duration_until_next_unlock(), Err(Error::InvalidYear));
}

#[test]
fn release_starts_on_the_first_of_december_at_five_utc() {
    assert_eq!(release_start_of(2018), START_2018);
    assert_eq!(release_start_of(2015), 1_448_946_000);
    // 2020 is a leap year, 1900 is none, 2000 is one
    assert_eq!(release_start_of(2020), 1_606_798_800);
    assert_eq!(release_start_of(2021) - release_start_of(2020), 365 * DAY);
    assert_eq!(release_start_of(2020) - release_start_of(2019), 366 * DAY);
    assert_eq!(release_start_of(1901) - release_start_of(1900), 365 * DAY);
    assert_eq!(release_start_of(2000) - release_start_of(1999), 366 * DAY);
    assert_eq!(release_start_of(1970), 334 * DAY + 18_000);
    assert_eq!(release_start_of(0), -62_138_257_200);
}

#[test]
fn release_start_goes_on_beyond_the_calendar_of_chrono() {
    assert_eq!(release_start_of(262_142), 8_210_264_216_400);
    assert_eq!(release_start_of(262_143), 8_210_295_752_400);
    assert_eq!(release_start_of(262_143) - release_start_of(262_142), 365 * DAY);
    assert_eq!(release_start_of(262_145) - release_start_of(262_144), 365 * DAY);
    assert_eq!(release_start_of(262_144) - release_start_of(262_143), 366 * DAY);
    assert_eq!(release_start_of(1_000_000), 31_494_813_742_800);
    assert_eq!(release_start_of(4_294_967_292), 135_536_014_537_016_400);
    assert_eq!(release_start_of(u32::MAX), 135_536_014_631_624_400);
    assert_eq!(board("262142").year(), Ok(262_142));
    assert_eq!(board("262143").year(), Ok(262_143));
    assert_eq!(board("999999999").year(), Ok(999_999_999));
    assert_eq!(board("4294967295").year(), Ok(u32::MAX));
    assert_eq!(board("4294967296").year(), Err(Error::InvalidYear));
}

#[test]
fn far_events_have_a_schedule() {
    let far = board("262143");
    let start = 8_210_295_752_400;
    assert_eq!(far.num_unlocked_days_at(Timestamp::new(start - 1, 0)), Ok(0));
    assert_eq!(far.num_unlocked_days_at(Timestamp::new(start, 0)), Ok(1));
    assert_eq!(far.num_unlocked_days_at(Timestamp::new(start + 24 * DAY, 0)), Ok(25));
    assert_eq!(
        far.duration_until_next_unlock_at(Timestamp::new(start + 10, 0)),
        Ok(Some(Duration { nanos: (DAY as i128 - 10) * 1_000_000_000 }))
    );
    assert_eq!(
        far.next_unlock_date_at(Timestamp::new(start + 10, 0)),
        Ok(Some(Timestamp::new(start + DAY, 0)))
    );
    let last = board("4294967295");
    let start = 135_536_014_631_624_400;
    assert_eq!(last.num_unlocked_days_at(Timestamp::new(0, 0)), Ok(0));
    assert_eq!(last.num_unlocked_days_at(Timestamp::new(start + 3 * DAY, 0)), Ok(4));
    assert_eq!(
        last.next_unlock_date_at(Timestamp::new(start + 23 * DAY, 5)),
        Ok(Some(Timestamp::new(start + 24 * DAY, 0)))
    );
    assert_eq!(last.num_unlocked_days_at(Timestamp::new(i64::MAX, 0)), Ok(25));
    assert_eq!(last.num_unlocked_days(), Ok(0));
}

#[test]
fn year_is_read_as_a_decimal_number() {
    assert_eq!(board("2018").year(), Ok(2018));
    assert_eq!(board("+2018").year(), Ok(2018));
    assert_eq!(board("02018").year(), Ok(2018));
    assert_eq!(board("0").year(), Ok(0));
    for event in ["", "+", "-2018", " 2018", "2018 ", "20 18", "2018.0", "2_018", "++2018", "２０１８"] {
        assert_eq!(board(event).year(), Err(Error::InvalidYear), "{:?}", event);
    }
}

#[test]
fn days_unlock_one_by_one() {
    for day in 1..=25i64 {
        let at = START_2018 + (day - 1) * DAY;
        assert_eq!(unlocked_days_at(START_2018, Timestamp::new(at - 1, 999_999_999)), (day - 1) as u32);
        assert_eq!(unlocked_days_at(START_2018, Timestamp::new(at, 0)), day as u32);
        assert_eq!(unlocked_days_at(START_2018, Timestamp::new(at + DAY - 1, 0)), day as u32);
    }
    assert_eq!(unlocked_days_at(START_2018, Timestamp::new(START_2018 + 30 * DAY, 0)), 25);
}

#[test]
fn unlocked_days_never_fall_and_stay_within_bounds() {
    let mut last = 0;
    let mut at = START_2018 - 3 * DAY;
    while at < START_2018 + 40 * DAY {
        let days = unlocked_days_at(START_2018, Timestamp::new(at, 0));
        assert!(days >= last);
        assert!(days <= 25);
        last = days;
        at += 3_601;
    }
    assert_eq!(unlocked_days_at(START_2018, Timestamp::new(i64::MIN, 0)), 0);
    assert_eq!(unlocked_days_at(START_2018, Timestamp::new(i64::MAX, u32::MAX)), 25);
    assert_eq!(unlocked_days_at(i64::MAX, Timestamp::new(i64::MIN, 0)), 0);
    assert_eq!(unlocked_days_at(i64::MIN, Timestamp::new(i64::MAX, 0)), 25);
}

#[test]
fn duration_runs_to_the_next_midnight() {
    let board = board("2018");
    assert_eq!(
        board.duration_until_next_unlock_at(Timestamp::new(START_2018, 0)),
        Ok(Some(Duration { nanos: 86_400_000_000_000 }))
    );
    assert_eq!(
        board.duration_until_next_unlock_at(Timestamp::new(START_2018 + DAY - 1, 999_999_999)),
        Ok(Some(Duration { nanos: 1 }))
    );
    // before the event the first day is the next to unlock
    assert_eq!(
        board.duration_until_next_unlock_at(Timestamp::new(START_2018 - 10, 500_000_000)),
        Ok(Some(Duration { nanos: 9_500_000_000 }))
    );
    // the last second before day 25
    assert_eq!(
        board.duration_until_next_unlock_at(Timestamp::new(START_2018 + 24 * DAY - 1, 0)),
        Ok(Some(Duration { nanos: 1_000_000_000 }))
    );
}

#[test]
fn no_unlock_is_left_exactly_when_all_days_are_unlocked() {
    let board = board("2018");
    let mut at = START_2018 - 2 * DAY;
    while at < START_2018 + 30 * DAY {
        let now = Timestamp::new(at, 0);
        let days = board.num_unlocked_days_at(now).unwrap();
        let left = board.duration_until_next_unlock_at(now).unwrap();
        assert_eq!(left.is_none(), days == 25);
        if let Some(left) = left {
            assert!(left.nanos > 0);
        }
        at += 7_200;
    }
    assert_eq!(until_next_unlock_at(START_2018, Timestamp::new(START_2018 + 24 * DAY, 0)), None);
}

#[test]
fn seconds_of_a_span_round_toward_zero() {
    assert_eq!(Duration { nanos: 1_999_999_999 }.num_seconds(), 1);
    assert_eq!(Duration { nanos: -1_999_999_999 }.num_seconds(), -1);
    assert_eq!(Duration { nanos: 0 }.num_seconds(), 0);
    assert_eq!(Duration { nanos: i128::MIN }.num_seconds(), i128::MIN / 1_000_000_000);
    let later = Timestamp::new(10, 1);
    let earlier = Timestamp::new(-5, 999_999_999);
    assert_eq!(later.signed_duration_since(&earlier), Duration { nanos: 14_000_000_002 });
    assert_eq!(earlier.signed_duration_since(&later), Duration { nanos: -14_000_000_002 });
    assert_eq!(earlier.total_nanos(), -4_000_000_001);
}

#[test]
fn clock_of_this_machine_is_past_old_events_and_before_far_ones() {
    assert_eq!(board("1971").num_unlocked_days(), Ok(25));
    assert_eq!(board("1971").duration_until_next_unlock(), Ok(None));
    assert_eq!(board("200000").num_unlocked_days(), Ok(0));
    let left = board("200000").duration_until_next_unlock().unwrap().unwrap();
    assert!(left.nanos > 0);
    let at = now();
    assert!(at.secs > 1_700_000_000);
    assert!(at.nanos < 1_000_000_000);
}

#[test]
fn clock_readings_lie_on_either_side_of_the_epoch() {
    let reading = |after_epoch, secs, nanos| ClockReading { after_epoch, secs, nanos };
    assert_eq!(reading(true, 5, 7).instant(), Timestamp::new(5, 7));
    assert_eq!(reading(true, 0, 0).instant(), Timestamp::new(0, 0));
    assert_eq!(reading(false, 0, 0).instant(), Timestamp::new(0, 0));
    assert_eq!(reading(false, 5, 0).instant(), Timestamp::new(-5, 0));
    assert_eq!(reading(false, 5, 1).instant(), Timestamp::new(-6, 999_999_999));
    assert_eq!(reading(false, 0, 999_999_999).instant(), Timestamp::new(-1, 1));
    assert_eq!(reading(true, 1, 3_000_000_000).instant(), Timestamp::new(4, 0));
    assert_eq!(reading(true, i64::MAX as u64, 999_999_999).instant(), Timestamp::new(i64::MAX, 999_999_999));
    assert_eq!(reading(true, u64::MAX, 0).instant(), Timestamp::new(i64::MAX, 999_999_999));
    assert_eq!(reading(false, 1 << 63, 0).instant(), Timestamp::new(i64::MIN, 0));
    assert_eq!(reading(false, u64::MAX, 5).instant(), Timestamp::new(i64::MIN, 0));
}

fn is_leap_year(year: i64) -> bool {
    year % 4 == 0 && (year % 100 != 0 || year % 400 == 0)
}

#[test]
fn release_start_follows_the_gregorian_calendar() {
    // the days from 1970-01-01 to the first of December, year by year
    let mut days: i64 = 334;
    for year in 1970..=300_000i64 {
        let leap = if is_leap_year(year) { 1 } else { 0 };
        assert_eq!(release_start_of(year as u32), (days + leap) * DAY + 18_000, "{}", year);
        days += 365 + leap;
    }
    let mut days: i64 = 334;
    for year in (0..1970i64).rev() {
        days -= if is_leap_year(year) { 366 } else { 365 };
        let leap = if is_leap_year(year) { 1 } else { 0 };
        assert_eq!(release_start_of(year as u32), (days + leap) * DAY + 18_000, "{}", year);
    }
}
