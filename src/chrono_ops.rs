//! The calls into chrono. Each function turns a `Date` into a `NaiveDate`,
//! makes one call, and turns what comes back into plain values.
use crate::calendar::{
    days_from_sunday, days_from_monday, in_range, iso_week_monday, iso_year_start, valid_ymd,
    Date, MAX_YEAR, MIN_YEAR,
};
use chrono::Datelike;
use vstd::prelude::*;

verus! {

/// Relies on `Datelike::weekday` of `NaiveDate` and `Weekday::num_days_from_sunday`:
/// 0 on a Sunday, 1 on a Monday, up to 6 on a Saturday.
#[verifier::external_body]
pub(crate) fn weekday_from_sunday(d: &Date) -> (r: u32)
    requires
        d.wf(),
    ensures
        r == days_from_sunday(d.num()),
{
    let n = chrono::NaiveDate::from_ymd_opt(d.year, d.month, d.day).unwrap();
    n.weekday().num_days_from_sunday()
}

/// Relies on `Datelike::iso_week` of `NaiveDate`, with `IsoWeek::year` and
/// `IsoWeek::week`: the ISO year and the week (from 1) of that year whose
/// Monday opens the Monday-to-Sunday week of `d`. The ISO year is the
/// calendar year or one of its neighbours.
#[verifier::external_body]
pub(crate) fn iso_week(d: &Date) -> (r: (i32, u32))
    requires
        d.wf(),
    ensures
        d.year - 1 <= r.0 <= d.year + 1,
        1 <= r.1 <= 53,
        iso_week_monday(r.0 as int, r.1 as int) == d.num() - days_from_monday(d.num()),
        iso_week_monday(r.0 as int, r.1 as int) < iso_year_start(r.0 + 1),
{
    let w = chrono::NaiveDate::from_ymd_opt(d.year, d.month, d.day).unwrap().iso_week();
    (w.year(), w.week())
}

/// Relies on `NaiveDate::from_isoywd_opt` with `Weekday::Sun`: the Sunday of ISO
/// week `week` of ISO year `year`, or `None` where that year has no such week
/// or the Sunday lies outside the dates that `NaiveDate` represents.
#[verifier::external_body]
pub(crate) fn iso_week_sunday(year: i32, week: u32) -> (r: Option<Date>)
    requires
        MIN_YEAR - 1 <= year <= MAX_YEAR + 1,
        week <= 53,
    ensures
        r is Some <==> (1 <= week && iso_week_monday(year as int, week as int) < iso_year_start(
            year + 1,
        ) && in_range(iso_week_monday(year as int, week as int) + 6)),
        r matches Some(s) ==> s.wf() && s.num() == iso_week_monday(year as int, week as int) + 6,
{
    chrono::NaiveDate::from_isoywd_opt(year, week, chrono::Weekday::Sun).map(
        |n| Date { year: n.year(), month: n.month(), day: n.day() },
    )
}

/// Relies on `NaiveDate::checked_add_signed` with `TimeDelta::days(days)`: the
/// date `days` days later (earlier where negative), or `None` where it lies
/// outside the dates that `NaiveDate` represents.
#[verifier::external_body]
pub(crate) fn add_days(d: &Date, days: i64) -> (r: Option<Date>)
    requires
        d.wf(),
        -7 <= days <= 7,
    ensures
        r is Some <==> in_range(d.num() + days),
        r matches Some(s) ==> s.wf() && s.num() == d.num() + days,
{
    let n = chrono::NaiveDate::from_ymd_opt(d.year, d.month, d.day).unwrap();
    n.checked_add_signed(chrono::TimeDelta::days(days)).map(
        |n| Date { year: n.year(), month: n.month(), day: n.day() },
    )
}

/// Relies on `Datelike::with_day` of `NaiveDate`: the same year and month with
/// the day replaced, or `None` where that day does not exist in the month.
#[verifier::external_body]
pub(crate) fn with_day(d: &Date, day: u32) -> (r: Option<Date>)
    requires
        d.wf(),
    ensures
        r == if valid_ymd(d.year as int, d.month as int, day as int) {
            Some(Date { year: d.year, month: d.month, day })
        } else {
            None
        },
{
    let n = chrono::NaiveDate::from_ymd_opt(d.year, d.month, d.day).unwrap();
    n.with_day(day).map(|n| Date { year: n.year(), month: n.month(), day: n.day() })
}

/// Relies on `Datelike::with_month` of `NaiveDate`: the same year and day with
/// the month replaced, or `None` where that month has no such day.
#[verifier::external_body]
pub(crate) fn with_month(d: &Date, month: u32) -> (r: Option<Date>)
    requires
        d.wf(),
    ensures
        r == if valid_ymd(d.year as int, month as int, d.day as int) {
            Some(Date { year: d.year, month, day: d.day })
        } else {
            None
        },
{
    let n = chrono::NaiveDate::from_ymd_opt(d.year, d.month, d.day).unwrap();
    n.with_month(month).map(|n| Date { year: n.year(), month: n.month(), day: n.day() })
}

/// Relies on `Datelike::with_year` of `NaiveDate`: the same month and day in
/// another year, or `None` where that date does not exist (February 29) or the
/// year lies outside the range of `NaiveDate`.
#[verifier::external_body]
pub(crate) fn with_year(d: &Date, year: i32) -> (r: Option<Date>)
    requires
        d.wf(),
    ensures
        r == if valid_ymd(year as int, d.month as int, d.day as int) {
            Some(Date { year, month: d.month, day: d.day })
        } else {
            None
        },
{
    let n = chrono::NaiveDate::from_ymd_opt(d.year, d.month, d.day).unwrap();
    n.with_year(year).map(|n| Date { year: n.year(), month: n.month(), day: n.day() })
}

} // verus!
