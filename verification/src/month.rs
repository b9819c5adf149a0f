//! The calendar of one month.

use crate::date::{month_after, CivilDate, DateView};
use crate::day::{blank_cell, date_cell, Day, DayView};
use crate::decimal::{decimal_string, decimal_text};
use crate::gregorian::{
    days_in_month, following_month, following_month_year, is_civil_date, iso_weekday,
    lemma_month_length, lemma_weekday_range,
};
use crate::notation::{parse_notation, read_notation};
use crate::weeks::{into_weeks, rows_of, week_rows};
use vstd::pervasive::unreached;
use vstd::prelude::*;
use vstd::string::StringExecFns;

verus! {

/// Why no calendar was built.
#[derive(Clone, Copy, Debug, PartialEq, Eq)]
pub enum CalendarError {
    /// The month number is not one of 1 to 12.
    InvalidMonth,
    /// The text is not the notation of a month.
    MalformedNotation,
    /// The month, or the month after it, lies outside the years in which
    /// dates can be represented.
    DateOutOfRange,
}

/// What a [`Month`] stands for: its title and its weeks, each week a row of
/// cells.
pub struct MonthView {
    pub name: Seq<char>,
    pub days: Seq<Seq<DayView>>,
}

/// The name of month `month`, for `month` from 1 to 12.
pub open spec fn month_name(month: int) -> Seq<char> {
    if month == 1 {
        "Январь"@
    } else if month == 2 {
        "Февраль"@
    } else if month == 3 {
        "Март"@
    } else if month == 4 {
        "Апрель"@
    } else if month == 5 {
        "Май"@
    } else if month == 6 {
        "Июнь"@
    } else if month == 7 {
        "Июль"@
    } else if month == 8 {
        "Август"@
    } else if month == 9 {
        "Сентябрь"@
    } else if month == 10 {
        "Октябрь"@
    } else if month == 11 {
        "Ноябрь"@
    } else {
        "Декабрь"@
    }
}

/// The title of a month: its name, a space, and the year.
pub open spec fn month_title(year: int, month: int) -> Seq<char> {
    month_name(month) + seq![' '] + decimal_text(year)
}

/// The number of blank cells before the first day of a month: one for each
/// weekday that comes before the weekday of the first day.
pub open spec fn leading_blanks(year: int, month: int) -> int {
    iso_weekday(year, month, 1) - 1
}

/// The cells of a month in one run: the leading blanks, then one cell for
/// each day of the month, from the first to the last.
pub open spec fn month_cells(year: int, month: int) -> Seq<DayView> {
    Seq::new(leading_blanks(year, month) as nat, |i: int| blank_cell()) + Seq::new(
        days_in_month(year, month) as nat,
        |i: int| date_cell(DateView { year, month, day: i + 1 }),
    )
}

/// The calendar of month `month` of `year`.
pub open spec fn month_view(year: int, month: int) -> MonthView {
    MonthView { name: month_title(year, month), days: week_rows(month_cells(year, month)) }
}

/// Whether a calendar can be built for month `month` of `year`: its first
/// day and the first day of the month after it can both be represented.
pub open spec fn has_calendar(year: int, month: int) -> bool {
    &&& is_civil_date(year, month, 1)
    &&& is_civil_date(following_month_year(year, month), following_month(month), 1)
}

/// What building the calendar of month `month` of `year` gives.
pub open spec fn month_of(month: int, year: int) -> Result<MonthView, CalendarError> {
    if !(1 <= month <= 12) {
        Err(CalendarError::InvalidMonth)
    } else if !has_calendar(year, month) {
        Err(CalendarError::DateOutOfRange)
    } else {
        Ok(month_view(year, month))
    }
}

/// What reading a notation and building the calendar it denotes gives.
pub open spec fn month_of_notation(notation: Seq<char>) -> Result<MonthView, CalendarError> {
    match parse_notation(notation) {
        Some((year, month)) => month_of(month, year),
        None => Err(CalendarError::MalformedNotation),
    }
}

/// What the outcome of building a calendar stands for.
pub open spec fn outcome_view(r: Result<Month, CalendarError>) -> Result<MonthView, CalendarError> {
    match r {
        Ok(month) => Ok(month@),
        Err(e) => Err(e),
    }
}

impl MonthView {
    /// What holds of every [`Month`]: it is the calendar of some month.
    pub open spec fn is_calendar(self) -> bool {
        exists|year: int, month: int| #[trigger]
            has_calendar(year, month) && self == month_view(year, month)
    }
}

/// What a vector of cells stands for.
pub open spec fn cells_view(cells: Seq<Day>) -> Seq<DayView> {
    Seq::new(cells.len(), |i: int| cells[i]@)
}

/// What a vector of rows of cells stands for.
pub open spec fn grid_view(rows: Seq<Vec<Day>>) -> Seq<Seq<DayView>> {
    Seq::new(rows.len(), |i: int| cells_view(rows[i]@))
}

/// The calendar of one month: a title and the weeks of the month.
///
/// Each week is a row of cells from Monday to Sunday. The first row starts
/// with a blank cell for each weekday before the first day of the month. The
/// last row ends with the last day of the month, so it may be shorter than
/// the others.
#[derive(Debug, PartialEq, Eq)]
pub struct Month {
    name: String,
    days: Vec<Vec<Day>>,
}

impl View for Month {
    type V = MonthView;

    closed spec fn view(&self) -> MonthView {
        MonthView { name: self.name@, days: grid_view(self.days@) }
    }
}

/// The name of month `month`.
fn month_name_str(month: u32) -> (name: &'static str)
    requires
        1 <= month <= 12,
    ensures
        name@ == month_name(month as int),
{
    if month == 1 {
        "Январь"
    } else if month == 2 {
        "Февраль"
    } else if month == 3 {
        "Март"
    } else if month == 4 {
        "Апрель"
    } else if month == 5 {
        "Май"
    } else if month == 6 {
        "Июнь"
    } else if month == 7 {
        "Июль"
    } else if month == 8 {
        "Август"
    } else if month == 9 {
        "Сентябрь"
    } else if month == 10 {
        "Октябрь"
    } else if month == 11 {
        "Ноябрь"
    } else {
        "Декабрь"
    }
}

/// The title of month `month` of `year`.
fn month_title_string(year: i32, month: u32) -> (title: String)
    requires
        1 <= month <= 12,
    ensures
        title@ == month_title(year as int, month as int),
{
    let mut title = String::from_str(month_name_str(month));
    proof {
        reveal_strlit(" ");
    }
    title.append(" ");
    let digits = decimal_string(year as i64);
    title.append(digits.as_str());
    title
}

/// The cells of a month in one run, given the weekday of its first day and
/// the number of its days.
fn month_cells_vec(year: i32, month: u32, first_weekday: u32, days: u32) -> (cells: Vec<Day>)
    requires
        is_civil_date(year as int, month as int, 1),
        first_weekday == iso_weekday(year as int, month as int, 1),
        days == days_in_month(year as int, month as int),
    ensures
        cells_view(cells@) == month_cells(year as int, month as int),
{
    proof {
        lemma_weekday_range(year as int, month as int, 1);
    }
    let mut cells: Vec<Day> = Vec::new();
    let mut blanks: u32 = 1;
    while blanks < first_weekday
        invariant
            1 <= blanks <= first_weekday <= 7,
            cells.len() == blanks - 1,
            forall|i: int| 0 <= i < cells.len() ==> (#[trigger] cells[i])@ == blank_cell(),
        decreases first_weekday - blanks,
    {
        cells.push(Day::empty());
        blanks += 1;
    }
    let mut day: u32 = 1;
    while day <= days
        invariant
            is_civil_date(year as int, month as int, 1),
            days == days_in_month(year as int, month as int),
            1 <= first_weekday <= 7,
            1 <= day <= days + 1,
            cells.len() == first_weekday - 1 + day - 1,
            forall|i: int| 0 <= i < first_weekday - 1 ==> (#[trigger] cells[i])@ == blank_cell(),
            forall|i: int|
                first_weekday - 1 <= i < cells.len() ==> (#[trigger] cells[i])@ == date_cell(
                    DateView {
                        year: year as int,
                        month: month as int,
                        day: i - (first_weekday - 1) + 1,
                    },
                ),
        decreases days + 1 - day,
    {
        match CivilDate::from_ymd(year, month, day) {
            Some(date) => cells.push(Day::from(date)),
            // Every day from the first to the last of the month exists.
            None => unreached(),
        }
        day += 1;
    }
    cells
}

/// Cutting cells into weeks and taking what they stand for can be done in
/// either order.
proof fn lemma_grid_view_of_weeks(rows: Seq<Vec<Day>>, cells: Seq<Day>)
    requires
        rows_of(rows) == week_rows(cells),
    ensures
        grid_view(rows) == week_rows(cells_view(cells)),
{
    assert(rows_of(rows).len() == rows.len());
    assert forall|i: int| 0 <= i < rows.len() implies #[trigger] grid_view(rows)[i] == week_rows(
        cells_view(cells),
    )[i] by {
        assert(rows_of(rows)[i] == week_rows(cells)[i]);
    }
}

impl Month {
    #[verifier::type_invariant]
    spec fn is_calendar(self) -> bool {
        self@.is_calendar()
    }

    /// The calendar of month `order` of `year`.
    ///
    /// Fails with `InvalidMonth` where `order` is not one of 1 to 12, and
    /// with `DateOutOfRange` where the first day of the month, or of the
    /// month after it, cannot be represented.
    pub fn new(order: u32, year: i32) -> (r: Result<Month, CalendarError>)
        ensures
            outcome_view(r) == month_of(order as int, year as int),
    {
        let next_month: u32 = match month_after(order) {
            Some(next) => next,
            None => { return Err(CalendarError::InvalidMonth); },
        };
        let date = match CivilDate::from_ymd(year, order, 1) {
            Some(date) => date,
            None => { return Err(CalendarError::DateOutOfRange); },
        };
        let weekday: u32 = date.weekday();
        let next_months_year: i32 = if next_month > date.month() {
            date.year()
        } else {
            date.year() + 1
        };
        let next_month_date = match CivilDate::from_ymd(next_months_year, next_month, 1) {
            Some(date) => date,
            None => { return Err(CalendarError::DateOutOfRange); },
        };
        let days_in_month: i64 = next_month_date.days_since(&date);
        proof {
            lemma_month_length(year as int, order as int);
        }
        let name = month_title_string(year, order);
        let cells = month_cells_vec(year, order, weekday, days_in_month as u32);
        let ghost run = cells@;
        let days = into_weeks(cells);
        proof {
            lemma_grid_view_of_weeks(days@, run);
        }
        Ok(Month { name, days })
    }

    /// The calendar of the month that `date_notation` denotes, as in
    /// `"2021-03"`: the year, a `-`, and the number of the month.
    ///
    /// Fails with `MalformedNotation` where the text is no such notation, and
    /// otherwise as [`Month::new`] does for the month and year read.
    pub fn from_date_notation(date_notation: &String) -> (r: Result<Month, CalendarError>)
        ensures
            outcome_view(r) == month_of_notation(date_notation@),
    {
        match read_notation(date_notation.as_str()) {
            Some((year, month)) => {
                proof {
                    crate::notation::lemma_notation_month_not_negative(date_notation@);
                }
                Month::new(month, year)
            },
            None => Err(CalendarError::MalformedNotation),
        }
    }

    /// The title of the calendar: the name of the month and the year.
    pub fn name(&self) -> (name: &str)
        ensures
            name@ == self@.name,
            self@.is_calendar(),
    {
        proof {
            use_type_invariant(self);
        }
        self.name.as_str()
    }

    /// The weeks of the month, each a row of cells.
    pub fn days(&self) -> (days: &Vec<Vec<Day>>)
        ensures
            grid_view(days@) == self@.days,
            self@.is_calendar(),
    {
        proof {
            use_type_invariant(self);
        }
        &self.days
    }
}

} // verus!
