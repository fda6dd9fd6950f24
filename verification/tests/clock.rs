use lockedin::clock::{month_marker, next_month_date, same_time_on, UtcDate};
use lockedin::{Error, LockedIn};

fn on(year: i32, month: u8, day: u8) -> UtcDate {
    UtcDate { year, month, day }
}

#[test]
fn current_month_is_year_times_hundred_plus_month() {
    assert_eq!(LockedIn::get_current_month(0), Ok(197001));
    assert_eq!(LockedIn::get_current_month(1000), Ok(197001));
    assert_eq!(LockedIn::get_current_month(31 * 86_400 - 1), Ok(197001));
    assert_eq!(LockedIn::get_current_month(31 * 86_400), Ok(197002));
    assert_eq!(LockedIn::get_current_month(1_704_067_199), Ok(202312));
    assert_eq!(LockedIn::get_current_month(1_704_067_200), Ok(202401));
    assert_eq!(LockedIn::get_current_month(1_709_164_800), Ok(202402));
    assert_eq!(LockedIn::get_current_month(253_402_300_799), Ok(999912));
}

#[test]
fn current_month_of_a_moment_beyond_the_calendar() {
    assert_eq!(LockedIn::get_current_month(u64::MAX), Err(Error::InvalidTimestamp));
    assert_eq!(LockedIn::get_current_month(i64::MAX as u64), Err(Error::InvalidTimestamp));
    assert_eq!(LockedIn::get_current_month(i64::MAX as u64 + 1), Err(Error::InvalidTimestamp));
}

#[test]
fn one_month_on_keeps_the_day_and_the_time() {
    // 15 December 2024 -> 15 January 2025
    assert_eq!(LockedIn::add_one_month(1_734_220_800), Ok(1_736_899_200));
    // 1 January 1970 -> 1 February 1970
    assert_eq!(LockedIn::add_one_month(0), Ok(2_678_400));
    // 10 May 2024, 23:59:59 -> 10 June 2024, 23:59:59
    assert_eq!(LockedIn::add_one_month(1_715_385_599), Ok(1_718_063_999));
}

#[test]
fn one_month_on_clamps_to_the_end_of_a_shorter_month() {
    // 31 January 2024, 12:34:56 -> 29 February 2024, 12:34:56
    assert_eq!(LockedIn::add_one_month(1_706_704_496), Ok(1_709_210_096));
    // 31 January 2023 -> 28 February 2023
    assert_eq!(LockedIn::add_one_month(1_675_123_200), Ok(1_677_542_400));
    // 30 January 2023 -> 28 February 2023
    assert_eq!(LockedIn::add_one_month(1_675_036_800), Ok(1_677_542_400));
    // 31 March 2024 -> 30 April 2024
    assert_eq!(LockedIn::add_one_month(1_711_843_200), Ok(1_714_435_200));
    // 31 December 2024 -> 31 January 2025
    assert_eq!(LockedIn::add_one_month(1_735_603_200), Ok(1_738_281_600));
}

#[test]
fn one_month_on_from_a_moment_beyond_the_calendar() {
    assert_eq!(LockedIn::add_one_month(u64::MAX), Err(Error::InvalidTimestamp));
    assert_eq!(LockedIn::add_one_month(i64::MAX as u64 + 1), Err(Error::InvalidTimestamp));
}

#[test]
fn month_markers() {
    assert_eq!(month_marker(2024, 1), Some(202401));
    assert_eq!(month_marker(1970, 12), Some(197012));
    assert_eq!(month_marker(0, 1), Some(1));
    assert_eq!(month_marker(-1, 5), None);
    assert_eq!(month_marker(i32::MIN, 1), None);
    assert_eq!(month_marker(42_949_672, 95), Some(u32::MAX));
    assert_eq!(month_marker(42_949_672, 96), None);
    assert_eq!(month_marker(i32::MAX, 12), None);
}

#[test]
fn the_date_one_month_on() {
    assert_eq!(next_month_date(on(2024, 5, 15)), Some(on(2024, 6, 15)));
    assert_eq!(next_month_date(on(2024, 1, 31)), Some(on(2024, 2, 29)));
    assert_eq!(next_month_date(on(2024, 1, 29)), Some(on(2024, 2, 29)));
    assert_eq!(next_month_date(on(2023, 1, 31)), Some(on(2023, 2, 28)));
    assert_eq!(next_month_date(on(2023, 1, 28)), Some(on(2023, 2, 28)));
    assert_eq!(next_month_date(on(1900, 1, 29)), Some(on(1900, 2, 28)));
    assert_eq!(next_month_date(on(2000, 1, 30)), Some(on(2000, 2, 29)));
    assert_eq!(next_month_date(on(2024, 3, 31)), Some(on(2024, 4, 30)));
    assert_eq!(next_month_date(on(2024, 7, 31)), Some(on(2024, 8, 31)));
    assert_eq!(next_month_date(on(2024, 8, 31)), Some(on(2024, 9, 30)));
    assert_eq!(next_month_date(on(2024, 12, 31)), Some(on(2025, 1, 31)));
    assert_eq!(next_month_date(on(-1, 12, 1)), Some(on(0, 1, 1)));
    assert_eq!(next_month_date(on(i32::MAX, 12, 1)), None);
    assert_eq!(next_month_date(on(i32::MAX, 11, 30)), Some(on(i32::MAX, 12, 30)));
}

#[test]
fn the_same_time_on_another_day() {
    assert_eq!(same_time_on(864_000, 3 * 86_400 + 55), Some(864_055));
    assert_eq!(same_time_on(0, 86_399), Some(86_399));
    assert_eq!(same_time_on(0, 86_400), Some(0));
    assert_eq!(same_time_on(-50, 100), Some(50));
    assert_eq!(same_time_on(-100, 50), None);
    assert_eq!(same_time_on(-100, 100), Some(0));
    assert_eq!(same_time_on(i64::MIN, 86_399), None);
    assert_eq!(same_time_on(i64::MAX, 86_399), Some(i64::MAX as u64 + 86_399));
}
