//! Months, quarters and years. Every result is the first day of its period,
//! but for the `end_of_*` functions, which give the last day.
use crate::calendar::{days_in_month, lemma_month_end_next, lemma_num_injective, lemma_wf_in_range, Date, MAX_YEAR, MIN_YEAR};
use crate::chrono_ops::{add_days, with_day, with_month, with_year};
use vstd::prelude::*;

verus! {

/// The first month of the quarter of month `m`: 1, 4, 7 or 10.
pub open spec fn quarter_start(m: int) -> int {
    1 + 3 * ((m - 1) / 3)
}

pub open spec fn spec_beginning_of_month(d: Date) -> Option<Date> {
    Some(Date { year: d.year, month: d.month, day: 1 })
}

pub open spec fn spec_next_year(d: Date) -> Option<Date> {
    if d.year < MAX_YEAR {
        Some(Date { year: (d.year + 1) as i32, month: 1, day: 1 })
    } else {
        None
    }
}

pub open spec fn spec_previous_year(d: Date) -> Option<Date> {
    if d.year > MIN_YEAR {
        Some(Date { year: (d.year - 1) as i32, month: 1, day: 1 })
    } else {
        None
    }
}

pub open spec fn spec_next_month(d: Date) -> Option<Date> {
    if d.month == 12 {
        spec_next_year(d)
    } else {
        Some(Date { year: d.year, month: (d.month + 1) as u32, day: 1 })
    }
}

pub open spec fn spec_previous_month(d: Date) -> Option<Date> {
    if d.month == 1 {
        if d.year > MIN_YEAR {
            Some(Date { year: (d.year - 1) as i32, month: 12, day: 1 })
        } else {
            None
        }
    } else {
        Some(Date { year: d.year, month: (d.month - 1) as u32, day: 1 })
    }
}

/// The last day of the month of `d`, where the month after it is representable.
pub open spec fn spec_end_of_month(d: Date) -> Option<Date> {
    if spec_next_month(d) is Some {
        Some(
            Date {
                year: d.year,
                month: d.month,
                day: days_in_month(d.year as int, d.month as int) as u32,
            },
        )
    } else {
        None
    }
}

pub open spec fn spec_beginning_of_quarter(d: Date) -> Option<Date> {
    Some(Date { year: d.year, month: quarter_start(d.month as int) as u32, day: 1 })
}

pub open spec fn spec_next_quarter(d: Date) -> Option<Date> {
    if d.month >= 10 {
        spec_next_year(d)
    } else {
        Some(Date { year: d.year, month: (quarter_start(d.month as int) + 3) as u32, day: 1 })
    }
}

pub open spec fn spec_previous_quarter(d: Date) -> Option<Date> {
    if d.month < 4 {
        if d.year > MIN_YEAR {
            Some(Date { year: (d.year - 1) as i32, month: 10, day: 1 })
        } else {
            None
        }
    } else {
        Some(Date { year: d.year, month: (quarter_start(d.month as int) - 3) as u32, day: 1 })
    }
}

/// The last day of the quarter of `d`, where the quarter after it is representable.
pub open spec fn spec_end_of_quarter(d: Date) -> Option<Date> {
    let m = quarter_start(d.month as int) + 2;
    if spec_next_quarter(d) is Some {
        Some(Date { year: d.year, month: m as u32, day: days_in_month(d.year as int, m) as u32 })
    } else {
        None
    }
}

pub open spec fn spec_beginning_of_year(d: Date) -> Option<Date> {
    Some(Date { year: d.year, month: 1, day: 1 })
}

pub open spec fn spec_end_of_year(d: Date) -> Option<Date> {
    Some(Date { year: d.year, month: 12, day: 31 })
}

/// The first day of the month of `date`.
pub fn beginning_of_month(date: &Date) -> (r: Option<Date>)
    requires
        date.wf(),
    ensures
        r == spec_beginning_of_month(*date),
        r matches Some(b) ==> b.wf() && b.day == 1 && b.month == date.month && b.year
            == date.year,
{
    with_day(date, 1)
}

/// January 1 of the year after that of `date`; `None` in the last representable year.
pub fn next_year(date: &Date) -> (r: Option<Date>)
    requires
        date.wf(),
    ensures
        r == spec_next_year(*date),
        r is Some <==> date.year < MAX_YEAR,
        r matches Some(n) ==> n.wf() && n.year == date.year + 1 && n.month == 1 && n.day == 1,
{
    let b = beginning_of_year(date)?;
    with_year(&b, date.year + 1)
}

/// January 1 of the year before that of `date`; `None` in the first representable year.
pub fn previous_year(date: &Date) -> (r: Option<Date>)
    requires
        date.wf(),
    ensures
        r == spec_previous_year(*date),
        r is Some <==> date.year > MIN_YEAR,
        r matches Some(p) ==> p.wf() && p.year == date.year - 1 && p.month == 1 && p.day == 1,
{
    let b = beginning_of_year(date)?;
    with_year(&b, date.year - 1)
}

/// January 1 of the year of `date`.
pub fn beginning_of_year(date: &Date) -> (r: Option<Date>)
    requires
        date.wf(),
    ensures
        r == spec_beginning_of_year(*date),
        r matches Some(b) ==> b.wf() && b.year == date.year && b.month == 1 && b.day == 1,
{
    let b = beginning_of_month(date)?;
    with_month(&b, 1)
}

/// December 31 of the year of `date`.
pub fn end_of_year(date: &Date) -> (r: Option<Date>)
    requires
        date.wf(),
    ensures
        r == spec_end_of_year(*date),
        r matches Some(e) ==> e.wf() && e.year == date.year && e.month == 12 && e.day == 31,
{
    let m = with_month(date, 12)?;
    with_day(&m, 31)
}


/// The first day of the month after that of `date`. In December this is
/// January 1 of the next year, and `None` in the last representable year.
pub fn next_month(date: &Date) -> (r: Option<Date>)
    requires
        date.wf(),
    ensures
        r == spec_next_month(*date),
        r is Some <==> (date.month < 12 || date.year < MAX_YEAR),
        r matches Some(n) ==> n.wf() && n.day == 1,
{
    if date.month == 12 {
        next_year(date)
    } else {
        let b = beginning_of_month(date)?;
        with_month(&b, date.month + 1)
    }
}

/// The first day of the month before that of `date`. In January this is
/// December 1 of the previous year, and `None` in the first representable year.
pub fn previous_month(date: &Date) -> (r: Option<Date>)
    requires
        date.wf(),
    ensures
        r == spec_previous_month(*date),
        r is Some <==> (date.month > 1 || date.year > MIN_YEAR),
        r matches Some(p) ==> p.wf() && p.day == 1,
{
    if date.month == 1 {
        let b = beginning_of_month(date)?;
        let m = with_month(&b, 12)?;
        with_year(&m, date.year - 1)
    } else {
        let b = beginning_of_month(date)?;
        with_month(&b, date.month - 1)
    }
}

/// The last day of the month of `date`: the day before `next_month(date)`, and
/// `None` where that is `None`.
pub fn end_of_month(date: &Date) -> (r: Option<Date>)
    requires
        date.wf(),
    ensures
        r == spec_end_of_month(*date),
        r is Some <==> spec_next_month(*date) is Some,
        r matches Some(e) ==> e.wf() && e.year == date.year && e.month == date.month && e.num()
            + 1 == spec_next_month(*date)->0.num(),
{
    let n = next_month(date)?;
    let ghost e = Date {
        year: date.year,
        month: date.month,
        day: days_in_month(date.year as int, date.month as int) as u32,
    };
    proof {
        lemma_month_end_next(date.year as int, date.month as int);
        lemma_wf_in_range(e);
    }
    let r = add_days(&n, -1);
    proof {
        lemma_num_injective(r->0, e);
    }
    r
}

/// The first month (1, 4, 7 or 10) of the quarter of `date`.
fn quarter_month(date: &Date) -> (r: u32)
    requires
        date.wf(),
    ensures
        r == quarter_start(date.month as int),
{
    1 + 3 * ((date.month - 1) / 3)
}

/// The first day of the quarter of `date`.
pub fn beginning_of_quarter(date: &Date) -> (r: Option<Date>)
    requires
        date.wf(),
    ensures
        r == spec_beginning_of_quarter(*date),
        r matches Some(b) ==> b.wf() && b.day == 1 && b.month % 3 == 1 && b.year == date.year,
{
    let b = beginning_of_month(date)?;
    with_month(&b, quarter_month(date))
}

/// The first day of the quarter after that of `date`. From October on this is
/// January 1 of the next year, and `None` in the last representable year.
pub fn next_quarter(date: &Date) -> (r: Option<Date>)
    requires
        date.wf(),
    ensures
        r == spec_next_quarter(*date),
        r is Some <==> (date.month < 10 || date.year < MAX_YEAR),
        r matches Some(n) ==> n.wf() && n.day == 1 && n.month % 3 == 1 && n.year == (if date.month
            >= 10 {
            date.year + 1
        } else {
            date.year as int
        }),
{
    if date.month >= 10 {
        let b = beginning_of_year(date)?;
        with_year(&b, date.year + 1)
    } else {
        let b = beginning_of_month(date)?;
        with_month(&b, quarter_month(date) + 3)
    }
}

/// The first day of the quarter before that of `date`. Up to March this is
/// October 1 of the previous year, and `None` in the first representable year.
pub fn previous_quarter(date: &Date) -> (r: Option<Date>)
    requires
        date.wf(),
    ensures
        r == spec_previous_quarter(*date),
        r is Some <==> (date.month >= 4 || date.year > MIN_YEAR),
        r matches Some(p) ==> p.wf() && p.day == 1 && p.month % 3 == 1 && p.year == (if date.month
            <= 3 {
            date.year - 1
        } else {
            date.year as int
        }),
{
    if date.month < 4 {
        let b = beginning_of_month(date)?;
        let y = with_year(&b, date.year - 1)?;
        with_month(&y, 10)
    } else {
        let b = beginning_of_month(date)?;
        with_month(&b, quarter_month(date) - 3)
    }
}

/// The last day of the quarter of `date`: the day before `next_quarter(date)`,
/// and `None` where that is `None`.
pub fn end_of_quarter(date: &Date) -> (r: Option<Date>)
    requires
        date.wf(),
    ensures
        r == spec_end_of_quarter(*date),
        r is Some <==> spec_next_quarter(*date) is Some,
        r matches Some(e) ==> e.wf() && e.year == date.year && e.month % 3 == 0 && e.num() + 1
            == spec_next_quarter(*date)->0.num(),
{
    let n = next_quarter(date)?;
    let ghost m = quarter_start(date.month as int) + 2;
    let ghost e = Date {
        year: date.year,
        month: m as u32,
        day: days_in_month(date.year as int, m) as u32,
    };
    proof {
        lemma_month_end_next(date.year as int, m);
        lemma_wf_in_range(e);
    }
    let r = add_days(&n, -1);
    proof {
        lemma_num_injective(r->0, e);
    }
    r
}

} // verus!
