//! The cells of a calendar.

use crate::date::{CivilDate, DateView};
use crate::decimal::{decimal_string, decimal_text};
use vstd::prelude::*;

verus! {

/// What a [`Day`] stands for: the text shown in the cell, and whether the
/// cell is marked as a weekend day.
pub struct DayView {
    pub txt: Seq<char>,
    pub red: bool,
}

impl DayView {
    /// A blank cell shows no text. It stands for no day, so it is never
    /// marked.
    pub open spec fn is_blank(self) -> bool {
        self.txt.len() == 0
    }

    /// What holds of every cell: only a cell that shows a day is marked.
    pub open spec fn wf(self) -> bool {
        self.is_blank() ==> !self.red
    }
}

/// The cell that pads a week before the first day of a month.
pub open spec fn blank_cell() -> DayView {
    DayView { txt: Seq::empty(), red: false }
}

/// The cell of a day: it shows the day of the month and is marked when the
/// day is a Saturday or a Sunday.
pub open spec fn date_cell(date: DateView) -> DayView {
    DayView { txt: decimal_text(date.day), red: date.weekday() == 6 || date.weekday() == 7 }
}

/// The text of a day of the month is never empty.
pub proof fn lemma_date_cell_shows_text(date: DateView)
    ensures
        !date_cell(date).is_blank(),
        date_cell(date).wf(),
{
}

/// One cell of a calendar: blank, or a day of the month.
#[derive(Debug, PartialEq, Eq)]
pub struct Day {
    txt: String,
    red: bool,
}

impl View for Day {
    type V = DayView;

    closed spec fn view(&self) -> DayView {
        DayView { txt: self.txt@, red: self.red }
    }
}

impl Clone for Day {
    fn clone(&self) -> (cell: Day)
        ensures
            cell@ == self@,
    {
        proof {
            use_type_invariant(self);
        }
        Day { txt: self.txt.clone(), red: self.red }
    }
}

impl Day {
    #[verifier::type_invariant]
    spec fn marked_only_with_text(self) -> bool {
        self@.wf()
    }

    /// A blank cell.
    pub fn empty() -> (cell: Day)
        ensures
            cell@ == blank_cell(),
    {
        Day { txt: String::new(), red: false }
    }

    /// The cell of the day `date`.
    pub fn from(date: CivilDate) -> (cell: Day)
        ensures
            cell@ == date_cell(date@),
    {
        let weekday: u32 = date.weekday();
        let txt = decimal_string(date.day() as i64);
        proof {
            lemma_date_cell_shows_text(date@);
        }
        Day { txt, red: weekday == 6 || weekday == 7 }
    }

    /// The text shown in the cell: the day of the month, or nothing in a
    /// blank cell.
    pub fn txt(&self) -> (txt: &str)
        ensures
            txt@ == self@.txt,
    {
        self.txt.as_str()
    }

    /// Whether the cell is marked as a weekend day.
    pub fn red(&self) -> (red: bool)
        ensures
            red == self@.red,
            self@.wf(),
    {
        proof {
            use_type_invariant(self);
        }
        self.red
    }
}

} // verus!
