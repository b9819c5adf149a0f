//! What holds of every calendar that [`Month::new`](crate::month::Month::new)
//! and [`Month::from_date_notation`](crate::month::Month::from_date_notation)
//! build.

use crate::date::DateView;
use crate::day::{blank_cell, date_cell, lemma_date_cell_shows_text};
use crate::decimal::{decimal_digits, decimal_text};
use crate::gregorian::{days_in_month, iso_weekday, lemma_weekday_range, MAX_YEAR, MIN_YEAR};
use crate::month::{
    has_calendar, leading_blanks, month_cells, month_of, month_of_notation, month_view,
    CalendarError, MonthView,
};
use crate::notation::{
    has_dash, is_number, lemma_notation_of_parts, number_value, parse_notation,
};
use crate::weeks::{
    lemma_week_rows_cell, lemma_week_rows_flatten, lemma_week_rows_lengths, week_rows,
};
use vstd::prelude::*;

verus! {

/// A calendar is built for every month of every year from `MIN_YEAR` to
/// `MAX_YEAR`, but for the last month of the last year, whose end cannot be
/// represented.
pub proof fn lemma_calendar_is_built(year: int, month: int)
    requires
        1 <= month <= 12,
        MIN_YEAR <= year <= MAX_YEAR,
        !(year == MAX_YEAR && month == 12),
    ensures
        has_calendar(year, month),
        month_of(month, year) == Ok::<MonthView, CalendarError>(month_view(year, month)),
{
}

/// A month number that is not one of 1 to 12 is refused, whatever the year.
pub proof fn lemma_invalid_month_is_refused(year: int, month: int)
    requires
        !(1 <= month <= 12),
    ensures
        month_of(month, year) == Err::<MonthView, CalendarError>(CalendarError::InvalidMonth),
{
}

/// The cells of a month are one blank for each weekday before the weekday of
/// its first day, and then one cell for each of its days, in order; and the
/// weeks of its calendar, put one after another, are exactly these cells.
pub proof fn lemma_cells_of_month(year: int, month: int)
    requires
        1 <= month <= 12,
    ensures
        0 <= leading_blanks(year, month) <= 6,
        28 <= days_in_month(year, month) <= 31,
        month_cells(year, month).len() == leading_blanks(year, month) + days_in_month(
            year,
            month,
        ),
        forall|k: int|
            0 <= k < leading_blanks(year, month) ==> #[trigger] month_cells(year, month)[k]
                == blank_cell(),
        forall|k: int|
            leading_blanks(year, month) <= k < month_cells(year, month).len()
                ==> #[trigger] month_cells(year, month)[k] == date_cell(
                DateView { year, month, day: k - leading_blanks(year, month) + 1 },
            ),
        month_view(year, month).days.flatten() == month_cells(year, month),
{
    lemma_weekday_range(year, month, 1);
    lemma_week_rows_flatten(month_cells(year, month));
}

/// A calendar has four to six weeks. No week is empty or longer than seven
/// cells, and every week but the last has exactly seven. Cell `k` of the
/// month stands in week `k / 7`, at place `k % 7`.
pub proof fn lemma_weeks_of_month(year: int, month: int)
    requires
        1 <= month <= 12,
    ensures
        4 <= month_view(year, month).days.len() <= 6,
        forall|w: int|
            0 <= w < month_view(year, month).days.len() ==> 1 <= (#[trigger] month_view(
                year,
                month,
            ).days[w]).len() <= 7,
        forall|w: int|
            0 <= w < month_view(year, month).days.len() - 1 ==> (#[trigger] month_view(
                year,
                month,
            ).days[w]).len() == 7,
        (forall|k: int|
            0 <= k < month_cells(year, month).len() ==> {
                &&& k / 7 < month_view(year, month).days.len()
                &&& k % 7 < month_view(year, month).days[k / 7].len()
                &&& month_view(year, month).days[k / 7][k % 7] == #[trigger] month_cells(
                    year,
                    month,
                )[k]
            }),
{
    let cells = month_cells(year, month);
    lemma_weekday_range(year, month, 1);
    lemma_week_rows_lengths(cells);
    assert forall|k: int| 0 <= k < cells.len() implies {
        &&& k / 7 < week_rows(cells).len()
        &&& k % 7 < week_rows(cells)[k / 7].len()
        &&& week_rows(cells)[k / 7][k % 7] == #[trigger] cells[k]
    } by {
        lemma_week_rows_cell(cells, k);
    }
}

/// The first day of a month stands in the column of its weekday, and every
/// later day in the column of its own: the cell at place `c` of a week, if
/// it is not blank, shows a day whose weekday is `c + 1`.
pub proof fn lemma_columns_are_weekdays(year: int, month: int, k: int)
    requires
        1 <= month <= 12,
        leading_blanks(year, month) <= k < month_cells(year, month).len(),
    ensures
        iso_weekday(year, month, k - leading_blanks(year, month) + 1) == k % 7 + 1,
{
}

/// A cell is marked exactly when it shows a day that is a Saturday or a
/// Sunday. Blank cells are never marked; the cells that are marked are
/// the days in the last two columns.
pub proof fn lemma_weekends_are_marked(year: int, month: int, k: int)
    requires
        1 <= month <= 12,
        0 <= k < month_cells(year, month).len(),
    ensures
        month_cells(year, month)[k].wf(),
        month_cells(year, month)[k].is_blank() <==> k < leading_blanks(year, month),
        month_cells(year, month)[k].red <==> k >= leading_blanks(year, month) && ({
            let weekday: int = iso_weekday(year, month, k - leading_blanks(year, month) + 1);
            weekday == 6 || weekday == 7
        }),
        month_cells(year, month)[k].red <==> k >= leading_blanks(year, month) && k % 7 >= 5,
{
    lemma_weekday_range(year, month, 1);
    let blanks: int = leading_blanks(year, month);
    if k >= blanks {
        lemma_date_cell_shows_text(DateView { year, month, day: k - blanks + 1 });
        lemma_columns_are_weekdays(year, month, k);
    }
}

/// What holds of every calendar, whatever its month: it has four to six
/// weeks, none empty or longer than seven cells and all but the last of
/// exactly seven; blank cells stand only in the first week; and the cells
/// that are marked are exactly the days in the last two columns.
pub proof fn lemma_shape_of_calendar(calendar: MonthView)
    requires
        calendar.is_calendar(),
    ensures
        4 <= calendar.days.len() <= 6,
        forall|w: int|
            0 <= w < calendar.days.len() ==> 1 <= (#[trigger] calendar.days[w]).len() <= 7,
        forall|w: int|
            0 <= w < calendar.days.len() - 1 ==> (#[trigger] calendar.days[w]).len() == 7,
        (forall|w: int, c: int|
            0 <= w < calendar.days.len() && 0 <= c < calendar.days[w].len() ==> {
                let cell = #[trigger] calendar.days[w][c];
                &&& cell.wf()
                &&& cell.is_blank() ==> w == 0
                &&& cell.red <==> !cell.is_blank() && c >= 5
            }),
{
    let (year, month) = choose|year: int, month: int| #[trigger]
        has_calendar(year, month) && calendar == month_view(year, month);
    let cells = month_cells(year, month);
    lemma_weeks_of_month(year, month);
    lemma_cells_of_month(year, month);
    assert forall|w: int, c: int|
        0 <= w < calendar.days.len() && 0 <= c < calendar.days[w].len() implies {
        let cell = #[trigger] calendar.days[w][c];
        &&& cell.wf()
        &&& cell.is_blank() ==> w == 0
        &&& cell.red <==> !cell.is_blank() && c >= 5
    } by {
        let k: int = 7 * w + c;
        lemma_week_rows_cell(cells, k);
        lemma_weekends_are_marked(year, month, k);
    }
}

/// Building from a notation gives what building from the month and the year
/// that it denotes gives.
pub proof fn lemma_notation_builds_same_month(notation: Seq<char>, year: int, month: int)
    requires
        parse_notation(notation) == Some((year, month)),
    ensures
        month_of_notation(notation) == month_of(month, year),
{
}

/// The digits that write a number are read back as that number.
pub proof fn lemma_digits_are_read_back(n: nat)
    ensures
        is_number(decimal_digits(n)),
        number_value(decimal_digits(n)) == n,
        forall|i: int| 0 <= i < decimal_digits(n).len() ==> decimal_digits(n)[i] != '-',
        decimal_digits(n)[0] != '+',
    decreases n,
{
    let digits = decimal_digits(n);
    if n < 10 {
        assert(number_value(digits.drop_last()) == 0);
    } else {
        lemma_digits_are_read_back(n / 10);
        assert(digits.drop_last() =~= decimal_digits(n / 10));
    }
}

/// A year that is not negative, a `-`, and a month, both written in
/// decimal, are the notation of that month of that year: building from it
/// gives what building from the two numbers gives.
pub proof fn lemma_written_notation_is_read(year: int, month: int)
    requires
        0 <= year,
        0 <= month,
    ensures
        parse_notation(decimal_text(year) + seq!['-'] + decimal_text(month)) == Some(
            (year, month),
        ),
        month_of_notation(decimal_text(year) + seq!['-'] + decimal_text(month)) == month_of(
            month,
            year,
        ),
{
    lemma_digits_are_read_back(year as nat);
    lemma_digits_are_read_back(month as nat);
    lemma_notation_of_parts(decimal_text(year), decimal_text(month));
}

/// A text without `-` is not the notation of a month.
pub proof fn lemma_notation_needs_dash(notation: Seq<char>)
    requires
        !has_dash(notation),
    ensures
        month_of_notation(notation) == Err::<MonthView, CalendarError>(
            CalendarError::MalformedNotation,
        ),
{
}

} // verus!
