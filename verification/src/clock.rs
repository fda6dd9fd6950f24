//! Calendar months, read off the clock: which month it is, and the same
//! moment one month on.
//!
//! The conversions between seconds and civil dates are those of the `time`
//! crate. What that crate returns is taken on trust here and named; what the
//! ledger makes of it is verified.

use vstd::prelude::*;
use time::{Date, Month, OffsetDateTime};
use crate::calendar::month_length;
use crate::contract::LockedIn;
use crate::error::Error;

verus! {

/// The last second that every build of the `time` crate places in a civil
/// year: the end of 31 December 9999.
pub const LAST_DATED_SECOND: u64 = 253_402_300_799;

/// A civil date as the `time` crate counts it.
#[derive(Clone, Copy, Debug, PartialEq, Eq, Structural)]
pub struct UtcDate {
    pub year: i32,
    pub month: u8,
    pub day: u8,
}

/// The civil date in UTC on which `OffsetDateTime::from_unix_timestamp`
/// places a moment; nothing where it refuses the moment as out of range.
pub uninterp spec fn utc_date_of(timestamp: i64) -> Option<UtcDate>;

/// The moment, in seconds, at which `Date::from_calendar_date` and
/// `OffsetDateTime::unix_timestamp` have a civil date begin in UTC; nothing
/// where there is no such date.
pub uninterp spec fn unix_midnight_of(year: i32, month: u8, day: u8) -> Option<i64>;

/// Calls `OffsetDateTime::from_unix_timestamp` and reads the year, the month
/// and the day off the result with `year`, `month` and `day`.
///
/// Taken on trust: the result is a function of the moment alone; the month
/// is 1 to 12 and the day 1 to 31; and a moment from the start of 1970 to the
/// end of 9999 is accepted and falls in one of those years.
#[verifier::external_body]
fn utc_date(timestamp: i64) -> (date: Option<UtcDate>)
    ensures
        date == utc_date_of(timestamp),
        date is Some ==> 1 <= date->0.month <= 12 && 1 <= date->0.day <= 31,
        0 <= timestamp <= LAST_DATED_SECOND ==> date is Some && 1970 <= date->0.year <= 9999,
{
    match OffsetDateTime::from_unix_timestamp(timestamp) {
        Ok(moment) => Some(
            UtcDate { year: moment.year(), month: u8::from(moment.month()), day: moment.day() },
        ),
        Err(_) => None,
    }
}

/// Calls `Month::length`, after `Month::try_from` has turned the number into
/// a month.
///
/// Taken on trust: the result is the length of the month in the proleptic
/// Gregorian calendar, for every year.
#[verifier::external_body]
fn days_in_month(year: i32, month: u8) -> (days: u8)
    requires
        1 <= month <= 12,
    ensures
        days == month_length(year as int, month as int),
{
    match Month::try_from(month) {
        Ok(m) => m.length(year),
        Err(_) => 0,
    }
}

/// Calls `Date::from_calendar_date` and turns the date into the second at
/// which it begins in UTC, with `midnight`, `assume_utc` and
/// `unix_timestamp`.
///
/// Taken on trust: the result is a function of the date alone.
#[verifier::external_body]
fn unix_midnight(year: i32, month: u8, day: u8) -> (start: Option<i64>)
    ensures
        start == unix_midnight_of(year, month, day),
{
    match Month::try_from(month) {
        Ok(m) => match Date::from_calendar_date(year, m, day) {
            Ok(date) => Some(date.midnight().assume_utc().unix_timestamp()),
            Err(_) => None,
        },
        Err(_) => None,
    }
}

/// A month as one number, `year × 100 + month`; nothing for a year before 0
/// or a number too large to hold.
pub open spec fn month_marker_of(year: i32, month: u8) -> Option<u32> {
    if 0 <= year && year * 100 + month <= u32::MAX {
        Some((year * 100 + month) as u32)
    } else {
        None
    }
}

/// The date one calendar month after a date: the same day of the following
/// month, or that month's last day where it is shorter.
pub open spec fn next_month_date_of(date: UtcDate) -> Option<UtcDate> {
    if date.month == 12 {
        if date.year < i32::MAX {
            Some(UtcDate { year: (date.year + 1) as i32, month: 1, day: date.day })
        } else {
            None
        }
    } else if date.day > month_length(date.year as int, date.month + 1) {
        Some(
            UtcDate {
                year: date.year,
                month: (date.month + 1) as u8,
                day: month_length(date.year as int, date.month + 1) as u8,
            },
        )
    } else {
        Some(UtcDate { year: date.year, month: (date.month + 1) as u8, day: date.day })
    }
}

/// The moment that lies as far into its day as `timestamp` does into its
/// own, on the day that begins at `midnight`.
pub open spec fn same_time_on_of(midnight: i64, timestamp: u64) -> Option<u64> {
    if 0 <= midnight + timestamp % 86_400 <= u64::MAX {
        Some((midnight + timestamp % 86_400) as u64)
    } else {
        None
    }
}

/// The month in which a moment falls, as `year × 100 + month`.
pub open spec fn current_month_of(now: u64) -> Option<u32> {
    if now > i64::MAX {
        None
    } else {
        match utc_date_of(now as i64) {
            Some(d) => month_marker_of(d.year, d.month),
            None => None,
        }
    }
}

/// The same moment of the day, one calendar month after `timestamp`.
pub open spec fn one_month_after(timestamp: u64) -> Option<u64> {
    if timestamp > i64::MAX {
        None
    } else {
        match utc_date_of(timestamp as i64) {
            None => None,
            Some(d) => match next_month_date_of(d) {
                None => None,
                Some(next) => match unix_midnight_of(next.year, next.month, next.day) {
                    None => None,
                    Some(midnight) => same_time_on_of(midnight, timestamp),
                },
            },
        }
    }
}

/// Writes a month as one number, `year × 100 + month`.
pub fn month_marker(year: i32, month: u8) -> (marker: Option<u32>)
    ensures
        marker == month_marker_of(year, month),
{
    if year < 0 {
        return None;
    }
    let wide: u64 = year as u64 * 100 + month as u64;
    if wide > u32::MAX as u64 {
        return None;
    }
    Some(wide as u32)
}

/// The date one calendar month after a date, the day clamped to the length
/// of the following month.
pub fn next_month_date(date: UtcDate) -> (next: Option<UtcDate>)
    requires
        1 <= date.month <= 12,
    ensures
        next == next_month_date_of(date),
{
    if date.month == 12 {
        if date.year < i32::MAX {
            Some(UtcDate { year: date.year + 1, month: 1, day: date.day })
        } else {
            None
        }
    } else {
        let length: u8 = days_in_month(date.year, date.month + 1);
        if date.day > length {
            Some(UtcDate { year: date.year, month: date.month + 1, day: length })
        } else {
            Some(UtcDate { year: date.year, month: date.month + 1, day: date.day })
        }
    }
}

/// Moves a moment to the day that begins at `midnight`, keeping its time of
/// day.
pub fn same_time_on(midnight: i64, timestamp: u64) -> (moved: Option<u64>)
    ensures
        moved == same_time_on_of(midnight, timestamp),
{
    let moment: i128 = midnight as i128 + (timestamp % 86_400) as i128;
    if moment >= 0 {
        Some(moment as u64)
    } else {
        None
    }
}

impl LockedIn {
    /// The calendar month in which `now` falls, as `year × 100 + month`.
    pub fn get_current_month(now: u64) -> (r: Result<u32, Error>)
        ensures
            match r {
                Ok(marker) => current_month_of(now) == Some(marker),
                Err(e) => current_month_of(now) is None && e == Error::InvalidTimestamp,
            },
            now <= LAST_DATED_SECOND ==> r is Ok,
    {
        if now > i64::MAX as u64 {
            return Err(Error::InvalidTimestamp);
        }
        match utc_date(now as i64) {
            Some(date) => match month_marker(date.year, date.month) {
                Some(marker) => Ok(marker),
                None => Err(Error::InvalidTimestamp),
            },
            None => Err(Error::InvalidTimestamp),
        }
    }

    /// The same moment of the day one calendar month after `timestamp`: the
    /// same day of the following month, or that month's last day where it is
    /// shorter.
    pub fn add_one_month(timestamp: u64) -> (r: Result<u64, Error>)
        ensures
            match r {
                Ok(moved) => one_month_after(timestamp) == Some(moved),
                Err(e) => one_month_after(timestamp) is None && e == Error::InvalidTimestamp,
            },
    {
        if timestamp > i64::MAX as u64 {
            return Err(Error::InvalidTimestamp);
        }
        let date = match utc_date(timestamp as i64) {
            Some(date) => date,
            None => {
                return Err(Error::InvalidTimestamp);
            },
        };
        let next = match next_month_date(date) {
            Some(next) => next,
            None => {
                return Err(Error::InvalidTimestamp);
            },
        };
        let midnight: i64 = match unix_midnight(next.year, next.month, next.day) {
            Some(midnight) => midnight,
            None => {
                return Err(Error::InvalidTimestamp);
            },
        };
        match same_time_on(midnight, timestamp) {
            Some(moved) => Ok(moved),
            None => Err(Error::InvalidTimestamp),
        }
    }
}

} // verus!
