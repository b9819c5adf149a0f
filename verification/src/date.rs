//! Civil dates, as `chrono` reports them.
//!
//! A [`CivilDate`] is a day of the proleptic Gregorian calendar together with
//! its weekday. Dates are made by `chrono::NaiveDate`, and so are weekdays and
//! distances between dates. Verus cannot look inside `chrono`, so three
//! private functions of this module carry contracts that are taken on trust:
//! `chrono_weekday`, `chrono_days_between` and `chrono_month_after`. Each states
//! what `chrono` documents, over the arithmetic of [`crate::gregorian`];
//! everything else in the crate is proved from them.

use crate::gregorian::{day_number, following_month, is_civil_date, iso_weekday};
use chrono::{Datelike, NaiveDate};
use num_traits::FromPrimitive;
use vstd::prelude::*;

verus! {

/// What a [`CivilDate`] stands for: a year, a month and a day of the month.
pub struct DateView {
    pub year: int,
    pub month: int,
    pub day: int,
}

impl DateView {
    /// The ISO weekday of this day, 1 for Monday up to 7 for Sunday.
    pub open spec fn weekday(self) -> int {
        iso_weekday(self.year, self.month, self.day)
    }

    /// The number of this day, counting 1 January of year 1 as day 1.
    pub open spec fn number(self) -> int {
        day_number(self.year, self.month, self.day)
    }

    /// Whether this is a day of the calendar that can be represented.
    pub open spec fn is_valid(self) -> bool {
        is_civil_date(self.year, self.month, self.day)
    }
}

/// A day of the proleptic Gregorian calendar, with its weekday.
///
/// Values are only made by [`CivilDate::from_ymd`], so every value names a day
/// that exists and carries the weekday of that day.
#[derive(Clone, Copy, Debug, PartialEq, Eq)]
pub struct CivilDate {
    year: i32,
    month: u32,
    day: u32,
    weekday: u32,
}

impl View for CivilDate {
    type V = DateView;

    closed spec fn view(&self) -> DateView {
        DateView { year: self.year as int, month: self.month as int, day: self.day as int }
    }
}

/// Builds the date with `chrono::NaiveDate::from_ymd_opt` and asks for its
/// `Datelike::weekday`, as the number that `Weekday::number_from_monday`
/// gives it.
///
/// Trusted: `from_ymd_opt` answers `None` exactly for a month outside 1 to
/// 12, a day that the month does not have, or a year outside `MIN_YEAR` to
/// `MAX_YEAR`; and the weekday of a date is its weekday in the proleptic
/// Gregorian calendar, numbered from Monday, which is 1, to Sunday.
#[verifier::external_body]
fn chrono_weekday(year: i32, month: u32, day: u32) -> (r: Option<u32>)
    ensures
        r.is_some() == is_civil_date(year as int, month as int, day as int),
        r matches Some(weekday) ==> weekday == iso_weekday(year as int, month as int, day as int),
{
    match NaiveDate::from_ymd_opt(year, month, day) {
        Some(date) => Some(date.weekday().number_from_monday()),
        None => None,
    }
}

/// Subtracts two dates with `chrono::NaiveDate::signed_duration_since` and
/// reads the result with `TimeDelta::num_days`.
///
/// Trusted: the result is the number of days from `from` to `to` in the
/// proleptic Gregorian calendar, negative when `to` is the earlier day.
/// Both dates must exist: `chrono` then builds them, with `from_ymd_opt`.
#[verifier::external_body]
fn chrono_days_between(from: &CivilDate, to: &CivilDate) -> (days: i64)
    requires
        from@.is_valid(),
        to@.is_valid(),
    ensures
        days == to@.number() - from@.number(),
{
    let start = NaiveDate::from_ymd_opt(from.year, from.month, from.day).unwrap();
    let end = NaiveDate::from_ymd_opt(to.year, to.month, to.day).unwrap();
    end.signed_duration_since(start).num_days()
}

/// Looks the month up with `chrono::Month::from_u32`, steps to the next one
/// with `Month::succ` and reads its number with `Month::number_from_month`.
///
/// Trusted: `from_u32` knows exactly the numbers 1 to 12, January being 1,
/// and `succ` goes from each month to the next and from December to January.
#[verifier::external_body]
fn chrono_month_after(month: u32) -> (r: Option<u32>)
    ensures
        r.is_some() == (1 <= month <= 12),
        r matches Some(next) ==> next == following_month(month as int),
{
    match chrono::Month::from_u32(month) {
        Some(m) => Some(m.succ().number_from_month()),
        None => None,
    }
}

impl CivilDate {
    #[verifier::type_invariant]
    spec fn valid(self) -> bool {
        &&& is_civil_date(self.year as int, self.month as int, self.day as int)
        &&& self.weekday == iso_weekday(self.year as int, self.month as int, self.day as int)
    }

    /// The date with the given year, month and day of the month, or `None`
    /// where the calendar has no such day or cannot represent its year.
    pub fn from_ymd(year: i32, month: u32, day: u32) -> (r: Option<CivilDate>)
        ensures
            r.is_some() == is_civil_date(year as int, month as int, day as int),
            r matches Some(d) ==> d@ == (DateView {
                year: year as int,
                month: month as int,
                day: day as int,
            }),
    {
        match chrono_weekday(year, month, day) {
            Some(weekday) => Some(CivilDate { year, month, day, weekday }),
            None => None,
        }
    }

    /// The year of this date.
    pub fn year(&self) -> (year: i32)
        ensures
            year == self@.year,
            self@.is_valid(),
    {
        proof {
            use_type_invariant(self);
        }
        self.year
    }

    /// The month of this date, 1 to 12.
    pub fn month(&self) -> (month: u32)
        ensures
            month == self@.month,
            self@.is_valid(),
    {
        proof {
            use_type_invariant(self);
        }
        self.month
    }

    /// The day of the month of this date, counted from 1.
    pub fn day(&self) -> (day: u32)
        ensures
            day == self@.day,
            self@.is_valid(),
    {
        proof {
            use_type_invariant(self);
        }
        self.day
    }

    /// The ISO weekday of this date: 1 for Monday up to 7 for Sunday.
    pub fn weekday(&self) -> (weekday: u32)
        ensures
            weekday == self@.weekday(),
            1 <= weekday <= 7,
    {
        proof {
            use_type_invariant(self);
        }
        self.weekday
    }

    /// The number of days from `earlier` to this date; negative when this
    /// date is the earlier one.
    pub fn days_since(&self, earlier: &CivilDate) -> (days: i64)
        ensures
            days == self@.number() - earlier@.number(),
    {
        proof {
            use_type_invariant(self);
            use_type_invariant(earlier);
        }
        chrono_days_between(earlier, self)
    }
}

/// The number of the month after `month`, January after December, or `None`
/// where `month` is not a month number.
pub fn month_after(month: u32) -> (r: Option<u32>)
    ensures
        r.is_some() == (1 <= month <= 12),
        r matches Some(next) ==> next == following_month(month as int),
{
    chrono_month_after(month)
}

} // verus!
