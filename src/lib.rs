//! Period boundaries of calendar dates: the beginning, end, next and previous
//! week, month, quarter and year of a date in the proleptic Gregorian calendar.
//!
//! Dates are held as plain year, month and day values ([`Date`]); the calendar
//! arithmetic on them (weekdays, ISO weeks, adding days, replacing a field) is
//! done by chrono's `NaiveDate`. Every function returns `None` where a date it
//! needs lies outside the years that `NaiveDate` represents.

pub mod calendar;
mod chrono_ops;
pub mod laws;
pub mod months;
pub mod weeks;

pub use calendar::{month_length, Date, MAX_YEAR, MIN_YEAR};
pub use months::{
    beginning_of_month, beginning_of_quarter, beginning_of_year, end_of_month, end_of_quarter,
    end_of_year, next_month, next_quarter, next_year, previous_month, previous_quarter,
    previous_year,
};
pub use weeks::{beginning_of_week, end_of_week, next_week, previous_week};
