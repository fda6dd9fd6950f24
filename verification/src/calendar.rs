//! The civil calendar, as far as the ledger needs it: on which day of the
//! month a moment falls.
//!
//! Days are counted from 1 January 1970, in the proleptic Gregorian calendar
//! and in UTC.
//!
//! The calendar is defined and proved here, so that the rule on due dates
//! rests on nothing outside this crate.

use vstd::prelude::*;
use crate::contract::LockedIn;
use crate::error::Error;

verus! {

/// Whether `year` has a 29 February.
pub open spec fn is_leap(year: int) -> bool {
    (year % 4 == 0 && year % 100 != 0) || year % 400 == 0
}

/// The number of days of `year`.
pub open spec fn days_in_year(year: int) -> int {
    if is_leap(year) {
        366
    } else {
        365
    }
}

/// The number of days of month `month` (1 to 12) of `year`.
pub open spec fn month_length(year: int, month: int) -> int {
    if month == 2 {
        if is_leap(year) {
            29
        } else {
            28
        }
    } else if month == 4 || month == 6 || month == 9 || month == 11 {
        30
    } else {
        31
    }
}

/// The number of days of `year` that lie before the first of month `month`.
pub open spec fn days_before_month(year: int, month: int) -> int
    decreases month,
{
    if month <= 1 {
        0
    } else {
        days_before_month(year, month - 1) + month_length(year, month - 1)
    }
}

/// December begins thirty-one days before the year ends.
pub proof fn lemma_days_before_december(year: int)
    ensures
        days_before_month(year, 12) == days_in_year(year) - 31,
{
    reveal_with_fuel(days_before_month, 12);
}

/// The year of the day that comes `days` days after 1 January of `year`.
pub open spec fn year_after(year: int, days: int) -> int
    decreases days,
{
    if days >= days_in_year(year) {
        year_after(year + 1, days - days_in_year(year))
    } else {
        year
    }
}

/// How many days into its own year the day is that comes `days` days after
/// 1 January of `year`.
pub open spec fn day_of_year_after(year: int, days: int) -> int
    decreases days,
{
    if days >= days_in_year(year) {
        day_of_year_after(year + 1, days - days_in_year(year))
    } else {
        days
    }
}

/// The month of the day that comes `days` days after the first of month
/// `month` of `year`, within that year.
pub open spec fn month_after(year: int, month: int, days: int) -> int
    decreases 12 - month,
{
    if month < 12 && days >= month_length(year, month) {
        month_after(year, month + 1, days - month_length(year, month))
    } else {
        month
    }
}

/// The day of the month of the day that comes `days` days after the first of
/// month `month` of `year`, within that year.
pub open spec fn day_after(year: int, month: int, days: int) -> int
    decreases 12 - month,
{
    if month < 12 && days >= month_length(year, month) {
        day_after(year, month + 1, days - month_length(year, month))
    } else {
        days + 1
    }
}

/// The year of day number `days`.
pub open spec fn civil_year(days: int) -> int {
    year_after(1970, days)
}

/// The month, 1 to 12, of day number `days`.
pub open spec fn civil_month(days: int) -> int {
    month_after(civil_year(days), 1, day_of_year_after(1970, days))
}

/// The day of the month, from 1, of day number `days`.
pub open spec fn civil_day(days: int) -> int {
    day_after(civil_year(days), 1, day_of_year_after(1970, days))
}

/// The day of the month on which the moment `timestamp`, in seconds, falls.
pub open spec fn day_of_month(timestamp: u64) -> int {
    civil_day(timestamp as int / 86_400)
}

/// The number of days from 1 January 1970 to 1 January of `year`.
pub open spec fn days_before_year(year: int) -> int
    decreases year - 1970,
{
    if year <= 1970 {
        0
    } else {
        days_before_year(year - 1) + days_in_year(year - 1)
    }
}

/// The number of the day that is the `day`-th of month `month` of `year`.
pub open spec fn days_from_civil(year: int, month: int, day: int) -> int {
    days_before_year(year) + days_before_month(year, month) + day - 1
}

/// Walking on by whole years ends in the year in which the day lies, and
/// leaves the number of days it lies into that year.
pub proof fn lemma_year_after(year: int, days: int)
    requires
        1970 <= year,
        0 <= days,
    ensures
        year <= year_after(year, days),
        0 <= day_of_year_after(year, days) < days_in_year(year_after(year, days)),
        days_before_year(year) + days == days_before_year(year_after(year, days))
            + day_of_year_after(year, days),
    decreases days,
{
    if days >= days_in_year(year) {
        lemma_year_after(year + 1, days - days_in_year(year));
    }
}

/// Walking on by whole months ends in the month in which the day lies, and
/// leaves its day of that month.
pub proof fn lemma_month_after(year: int, month: int, days: int)
    requires
        1 <= month <= 12,
        0 <= days,
        days_before_month(year, month) + days < days_in_year(year),
    ensures
        month <= month_after(year, month, days) <= 12,
        1 <= day_after(year, month, days) <= month_length(
            year,
            month_after(year, month, days),
        ),
        days_before_month(year, month) + days == days_before_month(
            year,
            month_after(year, month, days),
        ) + day_after(year, month, days) - 1,
    decreases 12 - month,
{
    lemma_days_before_december(year);
    if month < 12 && days >= month_length(year, month) {
        lemma_month_after(year, month + 1, days - month_length(year, month));
    }
}

/// The date given for a day number is a date of the calendar, and it is the
/// date of that day: counting the days of the years and the months before
/// it, and its own, gives the day number back.
pub proof fn law_civil_date_of_day(days: int)
    requires
        0 <= days,
    ensures
        1970 <= civil_year(days),
        1 <= civil_month(days) <= 12,
        1 <= civil_day(days) <= month_length(civil_year(days), civil_month(days)),
        days_from_civil(civil_year(days), civil_month(days), civil_day(days)) == days,
{
    lemma_year_after(1970, days);
    lemma_month_after(civil_year(days), 1, day_of_year_after(1970, days));
}

/// The number of leap years from year 0 up to, but not counting, `year`.
pub open spec fn leaps_before(year: int) -> int {
    (year + 3) / 4 - (year + 99) / 100 + (year + 399) / 400
}

/// The number of days from 1 January of year 0 to 1 January of `year`.
pub open spec fn days_since_zero(year: int) -> int {
    365 * year + leaps_before(year)
}

/// The number of days in the four hundred years after which the calendar
/// repeats.
pub const DAYS_PER_ERA: u64 = 146_097;

/// From one 1 January to the next it is the length of the year.
pub proof fn lemma_one_year_on(year: int)
    requires
        0 <= year,
    ensures
        days_since_zero(year + 1) == days_since_zero(year) + days_in_year(year),
{
}

/// Any four hundred years in a row have the same number of days.
pub proof fn lemma_one_era_on(year: int)
    requires
        0 <= year,
    ensures
        days_since_zero(year + 400) == days_since_zero(year) + DAYS_PER_ERA,
{
}

/// A day that lies at least `years` whole years after 1 January of `year`
/// can as well be counted from 1 January of that later year.
pub proof fn lemma_skip_years(year: int, years: int, days: int)
    requires
        0 <= year,
        0 <= years,
        days >= days_since_zero(year + years) - days_since_zero(year),
    ensures
        days_since_zero(year + years) - days_since_zero(year) >= 365 * years,
        year_after(year, days) == year_after(
            year + years,
            days - (days_since_zero(year + years) - days_since_zero(year)),
        ),
        day_of_year_after(year, days) == day_of_year_after(
            year + years,
            days - (days_since_zero(year + years) - days_since_zero(year)),
        ),
    decreases years,
{
    if years > 0 {
        lemma_one_year_on(year + years - 1);
        lemma_skip_years(year, years - 1, days);
    }
}

/// A day that lies at least `eras` times four hundred years after
/// 1 January of `year` can as well be counted from 1 January of the year
/// that many eras later.
pub proof fn lemma_skip_eras(year: int, eras: int, days: int)
    requires
        0 <= year,
        0 <= eras,
        days >= eras * DAYS_PER_ERA,
    ensures
        year_after(year, days) == year_after(year + 400 * eras, days - eras * DAYS_PER_ERA),
        day_of_year_after(year, days) == day_of_year_after(
            year + 400 * eras,
            days - eras * DAYS_PER_ERA,
        ),
    decreases eras,
{
    if eras > 0 {
        assert((eras - 1) * DAYS_PER_ERA == eras * DAYS_PER_ERA - DAYS_PER_ERA) by (nonlinear_arith);
        assert(400 * (eras - 1) == 400 * eras - 400);
        lemma_skip_eras(year, eras - 1, days);
        let later = year + 400 * (eras - 1);
        let left = days - (eras - 1) * DAYS_PER_ERA;
        lemma_one_era_on(later);
        lemma_skip_years(later, 400, left);
    }
}

/// A day of the civil calendar.
#[derive(Clone, Copy, Debug, PartialEq, Eq, Structural)]
pub struct CivilDate {
    pub year: u64,
    pub month: u8,
    pub day: u8,
}

fn leap(year: u64) -> (r: bool)
    ensures
        r == is_leap(year as int),
{
    (year % 4 == 0 && year % 100 != 0) || year % 400 == 0
}

fn length_of_month(year: u64, month: u8) -> (days: u64)
    ensures
        days == month_length(year as int, month as int),
{
    if month == 2 {
        if leap(year) {
            29
        } else {
            28
        }
    } else if month == 4 || month == 6 || month == 9 || month == 11 {
        30
    } else {
        31
    }
}

/// The day on which the moment `timestamp`, in seconds, falls. Whole eras
/// of four hundred years are skipped at once, so that no moment takes more
/// than some four hundred steps.
pub fn civil_date(timestamp: u64) -> (date: CivilDate)
    ensures
        date.year == civil_year(timestamp as int / 86_400),
        date.month == civil_month(timestamp as int / 86_400),
        date.day == civil_day(timestamp as int / 86_400),
        1 <= date.month <= 12,
        1 <= date.day <= 31,
{
    let days: u64 = timestamp / 86_400;
    let eras: u64 = days / 146_097;
    let mut year: u64 = 1970 + 400 * eras;
    let mut remaining: u64 = days % 146_097;
    proof {
        assert(days == eras * 146_097 + remaining) by (nonlinear_arith)
            requires
                eras == days / 146_097,
                remaining == days % 146_097,
        ;
        lemma_skip_eras(1970, eras as int, days as int);
    }
    loop
        invariant
            eras <= u64::MAX / 86_400,
            remaining < 146_097,
            year + remaining <= 1970 + 400 * eras + 146_097,
            year_after(year as int, remaining as int) == year_after(1970, days as int),
            day_of_year_after(year as int, remaining as int) == day_of_year_after(
                1970,
                days as int,
            ),
        ensures
            remaining < days_in_year(year as int),
            year_after(year as int, remaining as int) == year_after(1970, days as int),
            day_of_year_after(year as int, remaining as int) == day_of_year_after(
                1970,
                days as int,
            ),
        decreases remaining,
    {
        let in_year: u64 = if leap(year) {
            366
        } else {
            365
        };
        if remaining >= in_year {
            remaining = remaining - in_year;
            year = year + 1;
        } else {
            break ;
        }
    }
    let ghost day_in_year: int = remaining as int;
    let mut month: u8 = 1;
    loop
        invariant
            1 <= month <= 12,
            remaining + days_before_month(year as int, month as int) == day_in_year,
            day_in_year < days_in_year(year as int),
            month_after(year as int, month as int, remaining as int) == month_after(
                year as int,
                1,
                day_in_year,
            ),
            day_after(year as int, month as int, remaining as int) == day_after(
                year as int,
                1,
                day_in_year,
            ),
        ensures
            1 <= month <= 12,
            remaining < 31,
            month == month_after(year as int, 1, day_in_year),
            remaining + 1 == day_after(year as int, 1, day_in_year),
        decreases 12 - month,
    {
        let in_month: u64 = length_of_month(year, month);
        proof {
            lemma_days_before_december(year as int);
        }
        if month < 12 && remaining >= in_month {
            remaining = remaining - in_month;
            month = month + 1;
        } else {
            break ;
        }
    }
    CivilDate { year, month, day: (remaining + 1) as u8 }
}

impl LockedIn {
    /// Whether `year` has a 29 February.
    pub fn is_leap_year(year: u32) -> (r: bool)
        ensures
            r == is_leap(year as int),
    {
        (year % 4 == 0 && year % 100 != 0) || (year % 400 == 0)
    }

    /// Accepts a due date that falls on the 1st to the 28th of its month, a
    /// day that every month has.
    pub fn validate_day_of_month(due_date: u64) -> (r: Result<(), Error>)
        ensures
            r is Ok <==> day_of_month(due_date) <= 28,
            r is Err ==> r == Err::<(), Error>(Error::InvalidDueDate),
    {
        let date: CivilDate = civil_date(due_date);
        if date.day < 1 || date.day > 28 {
            return Err(Error::InvalidDueDate);
        }
        Ok(())
    }
}

} // verus!
