//! Month calendars: the weeks of a civil month laid out Monday to Sunday, with
//! weekends marked, built from a month number and a year or from a compact
//! `"<year>-<month>"` notation.
//!
//! Every function states its result over a small arithmetic model of the
//! proleptic Gregorian calendar (see [`gregorian`]). Dates, weekdays and day
//! counts are obtained from the `chrono` crate; the few places where its
//! answers are taken on trust are listed in [`date`].

pub mod date;
pub mod day;
pub mod decimal;
pub mod gregorian;
pub mod laws;
pub mod month;
pub mod notation;
pub mod weeks;

pub use date::CivilDate;
pub use day::Day;
pub use month::{CalendarError, Month};
