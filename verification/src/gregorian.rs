//! The proleptic Gregorian calendar as plain integer arithmetic.
//!
//! Years are astronomical (year 0 exists and is a leap year), months run from
//! 1 to 12 and days of the month from 1. Day numbers count from 1 January of
//! year 1, which is day 1 and a Monday.

use vstd::prelude::*;

verus! {

/// The earliest year in which a date can be represented: the year of
/// `chrono::NaiveDate::MIN`.
pub const MIN_YEAR: i32 = -262_143;

/// The latest year in which a date can be represented: the year of
/// `chrono::NaiveDate::MAX`.
pub const MAX_YEAR: i32 = 262_142;

/// Every fourth year is a leap year, except centuries not divisible by 400.
pub open spec fn is_leap_year(year: int) -> bool {
    year % 4 == 0 && (year % 100 != 0 || year % 400 == 0)
}

/// Number of days in a year.
pub open spec fn days_in_year(year: int) -> int {
    if is_leap_year(year) {
        366
    } else {
        365
    }
}

/// Number of days in month `month` (1 to 12) of `year`.
pub open spec fn days_in_month(year: int, month: int) -> int {
    if month == 2 {
        if is_leap_year(year) {
            29
        } else {
            28
        }
    } else if month == 4 || month == 6 || month == 9 || month == 11 {
        30
    } else {
        31
    }
}

/// Whether `(year, month, day)` names a day of the calendar that can be
/// represented.
pub open spec fn is_civil_date(year: int, month: int, day: int) -> bool {
    &&& MIN_YEAR <= year <= MAX_YEAR
    &&& 1 <= month <= 12
    &&& 1 <= day <= days_in_month(year, month)
}

/// Days of `year` that lie before the first day of `month`.
pub open spec fn days_before_month(year: int, month: int) -> int
    decreases month,
{
    if month <= 1 {
        0
    } else {
        days_before_month(year, month - 1) + days_in_month(year, month - 1)
    }
}

/// Days from 1 January of year 1 up to, and not including, 1 January of
/// `year`. Negative for years before year 1.
pub open spec fn days_before_year(year: int) -> int {
    let y: int = year - 1;
    365 * y + y / 4 - y / 100 + y / 400
}

/// The number of a day, counting 1 January of year 1 as day 1.
pub open spec fn day_number(year: int, month: int, day: int) -> int {
    days_before_year(year) + days_before_month(year, month) + day
}

/// The ISO weekday of a day: 1 for Monday up to 7 for Sunday.
pub open spec fn iso_weekday(year: int, month: int, day: int) -> int {
    (day_number(year, month, day) - 1) % 7 + 1
}

/// The month that follows `month`, December being followed by January.
pub open spec fn following_month(month: int) -> int {
    if month == 12 {
        1
    } else {
        month + 1
    }
}

/// The year in which the month after `month` of `year` lies.
pub open spec fn following_month_year(year: int, month: int) -> int {
    if month == 12 {
        year + 1
    } else {
        year
    }
}

/// Consecutive years start `days_in_year` days apart.
pub proof fn lemma_year_length(year: int)
    ensures
        days_before_year(year + 1) - days_before_year(year) == days_in_year(year),
{
}

/// The months of a year add up to the year.
pub proof fn lemma_months_fill_year(year: int)
    ensures
        days_before_month(year, 12) + days_in_month(year, 12) == days_in_year(year),
{
    reveal_with_fuel(days_before_month, 13);
}

/// The first day of a month and the first day of the month after it lie
/// exactly `days_in_month` days apart.
pub proof fn lemma_month_length(year: int, month: int)
    requires
        1 <= month <= 12,
    ensures
        day_number(following_month_year(year, month), following_month(month), 1) - day_number(
            year,
            month,
            1,
        ) == days_in_month(year, month),
{
    if month == 12 {
        lemma_year_length(year);
        lemma_months_fill_year(year);
    }
}

/// A weekday is a number from 1 to 7.
pub proof fn lemma_weekday_range(year: int, month: int, day: int)
    ensures
        1 <= iso_weekday(year, month, day) <= 7,
{
}

} // verus!
