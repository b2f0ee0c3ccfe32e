use vstd::prelude::*;

verus! {

/// The first year that chrono's `NaiveDate` represents.
pub const MIN_YEAR: i32 = -262143;

/// The last year that chrono's `NaiveDate` represents.
pub const MAX_YEAR: i32 = 262142;

pub open spec fn is_leap(y: int) -> bool {
    y % 4 == 0 && (y % 100 != 0 || y % 400 == 0)
}

pub open spec fn leap_days(y: int) -> int {
    if is_leap(y) { 1 } else { 0 }
}

pub open spec fn days_in_month(y: int, m: int) -> int {
    if m == 2 {
        28 + leap_days(y)
    } else if m == 4 || m == 6 || m == 9 || m == 11 {
        30
    } else {
        31
    }
}

/// A valid date of the calendar, within the range of years that chrono handles.
pub open spec fn valid_ymd(y: int, m: int, d: int) -> bool {
    &&& MIN_YEAR <= y <= MAX_YEAR
    &&& 1 <= m <= 12
    &&& 1 <= d <= days_in_month(y, m)
}

/// Days from 0001-01-01 to January 1 of year `y` (negative before year 1).
pub open spec fn days_before_year(y: int) -> int {
    365 * (y - 1) + (y - 1) / 4 - (y - 1) / 100 + (y - 1) / 400
}

/// Days of year `y` before the first day of month `m`.
pub open spec fn days_before_month(y: int, m: int) -> int {
    let l = leap_days(y);
    if m <= 1 { 0 }
    else if m == 2 { 31 }
    else if m == 3 { 59 + l }
    else if m == 4 { 90 + l }
    else if m == 5 { 120 + l }
    else if m == 6 { 151 + l }
    else if m == 7 { 181 + l }
    else if m == 8 { 212 + l }
    else if m == 9 { 243 + l }
    else if m == 10 { 273 + l }
    else if m == 11 { 304 + l }
    else if m == 12 { 334 + l }
    else { 365 + l }
}

/// The number of a day: 0001-01-01 is day 0, and each following day is one more.
pub open spec fn day_number(y: int, m: int, d: int) -> int {
    days_before_year(y) + days_before_month(y, m) + d - 1
}

/// Day 0 (0001-01-01) is a Monday, so a day number taken modulo 7 counts the
/// days since Monday.
pub open spec fn days_from_monday(n: int) -> int {
    n % 7
}

/// Days since the last Sunday, for the day numbered `n` (0 on a Sunday).
pub open spec fn days_from_sunday(n: int) -> int {
    (n + 1) % 7
}

/// The Sunday that opens the week (Sunday to Saturday) of the day numbered `n`.
pub open spec fn week_start(n: int) -> int {
    n - days_from_sunday(n)
}

/// Whether the day numbered `n` lies between the first and last dates that
/// chrono represents.
pub open spec fn in_range(n: int) -> bool {
    day_number(MIN_YEAR as int, 1, 1) <= n <= day_number(MAX_YEAR as int, 12, 31)
}

/// The Monday of ISO week 1 of ISO year `y`: the Monday on or before January 4.
pub open spec fn iso_year_start(y: int) -> int {
    let jan4 = day_number(y, 1, 4);
    jan4 - days_from_monday(jan4)
}

/// The Monday of ISO week `w` of ISO year `y`.
pub open spec fn iso_week_monday(y: int, w: int) -> int {
    iso_year_start(y) + 7 * (w - 1)
}

/// A calendar date: a year, a month from 1 to 12 and a day of that month.
#[derive(Clone, Copy, Debug, PartialEq, Eq, Structural)]
pub struct Date {
    pub year: i32,
    pub month: u32,
    pub day: u32,
}

impl Date {
    pub open spec fn wf(self) -> bool {
        valid_ymd(self.year as int, self.month as int, self.day as int)
    }

    /// The day number of this date (see `day_number`).
    pub open spec fn num(self) -> int {
        day_number(self.year as int, self.month as int, self.day as int)
    }

    /// The date of these fields, or `None` where they name no date of the
    /// calendar between the first and last representable years.
    pub fn new(year: i32, month: u32, day: u32) -> (r: Option<Date>)
        ensures
            r is Some <==> valid_ymd(year as int, month as int, day as int),
            r matches Some(d) ==> d == (Date { year, month, day }),
    {
        if year < MIN_YEAR || year > MAX_YEAR || month < 1 || month > 12 || day < 1 {
            None
        } else if day > month_length(year, month) {
            None
        } else {
            Some(Date { year, month, day })
        }
    }
}

/// The number of days of month `month` of year `year`.
pub fn month_length(year: i32, month: u32) -> (r: u32)
    requires
        1 <= month <= 12,
    ensures
        r == days_in_month(year as int, month as int),
{
    if month == 2 {
        if year % 4 == 0 && (year % 100 != 0 || year % 400 == 0) {
            29
        } else {
            28
        }
    } else if month == 4 || month == 6 || month == 9 || month == 11 {
        30
    } else {
        31
    }
}

pub proof fn lemma_year_step(y: int)
    ensures
        days_before_year(y + 1) == days_before_year(y) + 365 + leap_days(y),
{
    let a = y - 1;
    assert(y / 4 - a / 4 == if y % 4 == 0 { 1int } else { 0 });
    assert(y / 100 - a / 100 == if y % 100 == 0 { 1int } else { 0 });
    assert(y / 400 - a / 400 == if y % 400 == 0 { 1int } else { 0 });
}


pub proof fn lemma_years_monotone(y1: int, y2: int)
    requires
        y1 <= y2,
    ensures
        days_before_year(y1) + 365 * (y2 - y1) <= days_before_year(y2),
    decreases y2 - y1,
{
    if y1 < y2 {
        lemma_years_monotone(y1, y2 - 1);
        lemma_year_step(y2 - 1);
    }
}

pub proof fn lemma_month_step(y: int, m: int)
    requires
        1 <= m <= 12,
    ensures
        days_before_month(y, m) + days_in_month(y, m) == days_before_month(y, m + 1),
{
}

/// The last day of a month is followed by the first day of the next month,
/// and December 31 by January 1 of the next year.
pub proof fn lemma_month_end_next(y: int, m: int)
    requires
        1 <= m <= 12,
    ensures
        m < 12 ==> day_number(y, m, days_in_month(y, m)) + 1 == day_number(y, m + 1, 1),
        m == 12 ==> day_number(y, m, days_in_month(y, m)) + 1 == day_number(y + 1, 1, 1),
{
    lemma_month_step(y, m);
    lemma_year_step(y);
}

/// Later dates have larger day numbers.
pub proof fn lemma_num_monotone(a: Date, b: Date)
    requires
        a.wf(),
        b.wf(),
        a.year < b.year || (a.year == b.year && a.month < b.month) || (a.year == b.year
            && a.month == b.month && a.day < b.day),
    ensures
        a.num() < b.num(),
{
    let (y1, m1, d1) = (a.year as int, a.month as int, a.day as int);
    let (y2, m2, d2) = (b.year as int, b.month as int, b.day as int);
    if y1 < y2 {
        lemma_years_monotone(y1 + 1, y2);
        lemma_year_step(y1);
        lemma_month_step(y1, m1);
        assert(days_before_month(y1, m1 + 1) <= 365 + leap_days(y1));
    } else if m1 < m2 {
        lemma_month_step(y1, m1);
        assert(days_before_month(y1, m1 + 1) <= days_before_month(y1, m2));
    }
}

/// A valid date is determined by its day number.
pub proof fn lemma_num_injective(a: Date, b: Date)
    requires
        a.wf(),
        b.wf(),
        a.num() == b.num(),
    ensures
        a == b,
{
    if a.year < b.year || (a.year == b.year && a.month < b.month) || (a.year == b.year
        && a.month == b.month && a.day < b.day) {
        lemma_num_monotone(a, b);
    } else if b.year < a.year || (a.year == b.year && b.month < a.month) || (a.year == b.year
        && a.month == b.month && b.day < a.day) {
        lemma_num_monotone(b, a);
    }
}


/// Every valid date lies within the range of days that chrono represents.
pub proof fn lemma_wf_in_range(a: Date)
    requires
        a.wf(),
    ensures
        in_range(a.num()),
{
    let first = Date { year: MIN_YEAR, month: 1, day: 1 };
    let last = Date { year: MAX_YEAR, month: 12, day: 31 };
    if a != first {
        lemma_num_monotone(first, a);
    }
    if a != last {
        lemma_num_monotone(a, last);
    }
}

} // verus!
