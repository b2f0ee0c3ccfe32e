//! Weeks run from Sunday to Saturday.
use crate::calendar::{days_from_monday, days_from_sunday, in_range, week_start, Date};
use crate::chrono_ops::{add_days, iso_week, iso_week_sunday, weekday_from_sunday};
use vstd::prelude::*;

verus! {

/// Away from Sunday, the Sunday that closes the ISO week of the day numbered
/// `n` comes seven days after the Sunday that opens its Sunday-to-Saturday week.
proof fn lemma_iso_sunday(n: int)
    requires
        days_from_sunday(n) != 0,
    ensures
        n - days_from_monday(n) + 6 == week_start(n) + 7,
        days_from_sunday(week_start(n)) == 0,
        1 <= days_from_sunday(n) <= 6,
{
}

proof fn lemma_week_start(n: int)
    ensures
        0 <= n - week_start(n) <= 6,
        days_from_sunday(week_start(n)) == 0,
        days_from_sunday(week_start(n) + 6) == 6,
        days_from_sunday(week_start(n) + 7) == 0,
        days_from_sunday(week_start(n) - 7) == 0,
{
}

/// Whether the Sunday that opens the week of `d` can be found: `d` is itself a
/// Sunday, or both that Sunday and the one after it are representable.
pub open spec fn week_start_found(d: Date) -> bool {
    let s = week_start(d.num());
    days_from_sunday(d.num()) == 0 || (in_range(s) && in_range(s + 7))
}

/// The Sunday that opens the week of `date`: `date` itself on a Sunday, else
/// the last Sunday before it. The Sunday is found as the last day of the ISO
/// (Monday-to-Sunday) week of `date`, one week back.
pub fn beginning_of_week(date: &Date) -> (r: Option<Date>)
    requires
        date.wf(),
    ensures
        r is Some <==> week_start_found(*date),
        r matches Some(b) ==> b.wf() && b.num() == week_start(date.num()),
        r matches Some(b) ==> days_from_sunday(b.num()) == 0 && 0 <= date.num() - b.num() <= 6,
{
    if weekday_from_sunday(date) == 0 {
        Some(*date)
    } else {
        let (year, week) = iso_week(date);
        proof {
            lemma_iso_sunday(date.num());
        }
        let sunday = iso_week_sunday(year, week)?;
        add_days(&sunday, -7)
    }
}

/// The Saturday that closes the week of `date`: six days after
/// `beginning_of_week(date)`.
pub fn end_of_week(date: &Date) -> (r: Option<Date>)
    requires
        date.wf(),
    ensures
        r is Some <==> week_start_found(*date) && in_range(week_start(date.num()) + 6),
        r matches Some(e) ==> e.wf() && e.num() == week_start(date.num()) + 6,
        r matches Some(e) ==> days_from_sunday(e.num()) == 6 && 0 <= e.num() - date.num() <= 6,
{
    let b = beginning_of_week(date)?;
    proof {
        lemma_week_start(date.num());
    }
    add_days(&b, 6)
}

/// The Sunday that opens the week after that of `date`, a week after
/// `beginning_of_week(date)` (seven days on from a Sunday).
pub fn next_week(date: &Date) -> (r: Option<Date>)
    requires
        date.wf(),
    ensures
        r is Some <==> week_start_found(*date) && in_range(week_start(date.num()) + 7),
        r matches Some(n) ==> n.wf() && n.num() == week_start(date.num()) + 7,
        r matches Some(n) ==> days_from_sunday(n.num()) == 0 && 0 < n.num() - date.num() <= 7,
{
    let b = beginning_of_week(date)?;
    proof {
        lemma_week_start(date.num());
    }
    add_days(&b, 7)
}

/// The Sunday that opens the week before that of `date`, a week before
/// `beginning_of_week(date)` (seven days back from a Sunday).
pub fn previous_week(date: &Date) -> (r: Option<Date>)
    requires
        date.wf(),
    ensures
        r is Some <==> week_start_found(*date) && in_range(week_start(date.num()) - 7),
        r matches Some(p) ==> p.wf() && p.num() == week_start(date.num()) - 7,
        r matches Some(p) ==> days_from_sunday(p.num()) == 0 && -13 <= p.num() - date.num() <= -7,
{
    let b = beginning_of_week(date)?;
    proof {
        lemma_week_start(date.num());
    }
    add_days(&b, -7)
}

} // verus!
