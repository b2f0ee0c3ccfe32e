//! Laws that relate the period functions to one another.
use crate::calendar::{
    day_number, in_range, lemma_month_end_next, lemma_num_monotone, week_start, Date, MAX_YEAR,
    MIN_YEAR,
};
use crate::months::{
    quarter_start, spec_beginning_of_month, spec_end_of_month, spec_end_of_quarter,
    spec_next_month, spec_next_quarter,
};
use crate::weeks::week_start_found;
use vstd::prelude::*;

verus! {

/// The day after the end of a month is the first day of the next month, and
/// the end of a month lies in the same year and month as the date it came from.
/// Both are defined for every date before the last representable year.
pub proof fn lemma_end_of_month_then_next_month(d: Date)
    requires
        d.wf(),
    ensures
        d.year < MAX_YEAR ==> spec_end_of_month(d) is Some,
        spec_end_of_month(d) is Some <==> spec_next_month(d) is Some,
        spec_end_of_month(d) matches Some(e) ==> {
            &&& e.wf()
            &&& e.year == d.year
            &&& e.month == d.month
            &&& e.num() + 1 == spec_next_month(d)->0.num()
        },
{
    lemma_month_end_next(d.year as int, d.month as int);
}

/// The day after the end of a quarter is the first day of the next quarter, and
/// the end of a quarter is the last day of March, June, September or December
/// of the year of the date it came from.
pub proof fn lemma_end_of_quarter_then_next_quarter(d: Date)
    requires
        d.wf(),
    ensures
        d.year < MAX_YEAR ==> spec_end_of_quarter(d) is Some,
        spec_end_of_quarter(d) is Some <==> spec_next_quarter(d) is Some,
        spec_end_of_quarter(d) matches Some(e) ==> {
            &&& e.wf()
            &&& e.year == d.year
            &&& e.month % 3 == 0
            &&& e.num() + 1 == spec_next_quarter(d)->0.num()
        },
{
    lemma_month_end_next(d.year as int, quarter_start(d.month as int) + 2);
}

/// The first day of the month of the end of a month is the first day of the
/// month of the date it came from.
pub proof fn lemma_end_of_month_round_trip(d: Date)
    requires
        d.wf(),
    ensures
        spec_end_of_month(d) matches Some(e) ==> spec_beginning_of_month(e)
            == spec_beginning_of_month(d),
{
}

/// Away from the first and last representable years, every week function has
/// a result: the Sunday that opens the week of `d`, the Sunday before it and
/// the Sunday after it are all representable.
pub proof fn lemma_weeks_defined(d: Date)
    requires
        d.wf(),
        MIN_YEAR < d.year < MAX_YEAR,
    ensures
        week_start_found(d),
        in_range(week_start(d.num()) - 7),
        in_range(week_start(d.num()) + 7),
{
    let lo = Date { year: (MIN_YEAR + 1) as i32, month: 1, day: 1 };
    let hi = Date { year: (MAX_YEAR - 1) as i32, month: 12, day: 31 };
    if d != lo {
        lemma_num_monotone(lo, d);
    }
    if d != hi {
        lemma_num_monotone(d, hi);
    }
    lemma_month_end_next(MIN_YEAR as int, 12);
    lemma_month_end_next((MAX_YEAR - 1) as int, 12);
    assert(day_number(MIN_YEAR as int, 12, 31) - day_number(MIN_YEAR as int, 1, 1) >= 364);
    assert(day_number(MAX_YEAR as int, 12, 31) - day_number(MAX_YEAR as int, 1, 1) >= 364);
}

} // verus!
