use chrono::{Datelike, NaiveDate, Weekday};
use date_calculations::{
    beginning_of_month, beginning_of_quarter, beginning_of_week, beginning_of_year, end_of_month,
    end_of_quarter, end_of_week, end_of_year, month_length, next_month, next_quarter, next_week,
    next_year, previous_month, previous_quarter, previous_week, previous_year, Date, MAX_YEAR,
    MIN_YEAR,
};

fn ymd(year: i32, month: u32, day: u32) -> Date {
    Date::new(year, month, day).unwrap()
}

fn naive(d: Date) -> NaiveDate {
    NaiveDate::from_ymd_opt(d.year, d.month, d.day).unwrap()
}

fn days_between(from: Date, to: Date) -> i64 {
    naive(to).signed_duration_since(naive(from)).num_days()
}

fn sample_dates() -> Vec<Date> {
    let mut out = Vec::new();
    for year in [1584, 1600, 1900, 1999, 2000, 2020, 2021, 2100, 2800] {
        for month in 1..=12u32 {
            for day in 1..=month_length(year, month) {
                out.push(ymd(year, month, day));
            }
        }
    }
    out
}

#[test]
fn next_year_and_previous_quarter_of_january_31() {
    let d = ymd(2021, 1, 31);
    assert_eq!(next_year(&d), Some(ymd(2022, 1, 1)));
    assert_eq!(previous_quarter(&d), Some(ymd(2020, 10, 1)));
}

#[test]
fn next_month_in_december_rolls_over_the_year() {
    assert_eq!(next_month(&ymd(2021, 12, 15)), Some(ymd(2022, 1, 1)));
}

#[test]
fn previous_quarter_in_first_quarter() {
    assert_eq!(previous_quarter(&ymd(2021, 1, 5)), Some(ymd(2020, 10, 1)));
}

#[test]
fn next_quarter_in_october() {
    assert_eq!(next_quarter(&ymd(2021, 10, 1)), Some(ymd(2022, 1, 1)));
}

#[test]
fn week_of_a_wednesday() {
    let wed = ymd(2021, 1, 6);
    assert_eq!(naive(wed).weekday(), Weekday::Wed);
    assert_eq!(beginning_of_week(&wed), Some(ymd(2021, 1, 3)));
    assert_eq!(end_of_week(&wed), Some(ymd(2021, 1, 9)));
    assert_eq!(next_week(&wed), Some(ymd(2021, 1, 10)));
    assert_eq!(previous_week(&wed), Some(ymd(2020, 12, 27)));
}

#[test]
fn week_of_a_sunday_starts_on_it() {
    let sun = ymd(2021, 1, 3);
    assert_eq!(beginning_of_week(&sun), Some(sun));
    assert_eq!(next_week(&sun), Some(ymd(2021, 1, 10)));
    assert_eq!(previous_week(&sun), Some(ymd(2020, 12, 27)));
    assert_eq!(end_of_week(&sun), Some(ymd(2021, 1, 9)));
}

#[test]
fn week_of_a_saturday_crossing_a_year() {
    let sat = ymd(2022, 1, 1);
    assert_eq!(beginning_of_week(&sat), Some(ymd(2021, 12, 26)));
    assert_eq!(end_of_week(&sat), Some(sat));
}

#[test]
fn week_laws_on_sample_dates() {
    for d in sample_dates() {
        let b = beginning_of_week(&d).unwrap();
        assert_eq!(naive(b).weekday(), Weekday::Sun);
        assert!((0..=6).contains(&days_between(b, d)));
        let e = end_of_week(&d).unwrap();
        assert_eq!(naive(e).weekday(), Weekday::Sat);
        assert_eq!(days_between(b, e), 6);
        let n = next_week(&d).unwrap();
        assert_eq!(naive(n).weekday(), Weekday::Sun);
        assert!((1..=7).contains(&days_between(d, n)));
        let p = previous_week(&d).unwrap();
        assert_eq!(naive(p).weekday(), Weekday::Sun);
        assert!((-13..=-7).contains(&days_between(d, p)));
    }
}

#[test]
fn month_laws_on_sample_dates() {
    for d in sample_dates() {
        let b = beginning_of_month(&d).unwrap();
        assert_eq!((b.year, b.month, b.day), (d.year, d.month, 1));
        let e = end_of_month(&d).unwrap();
        assert_eq!((e.year, e.month), (d.year, d.month));
        assert_eq!(days_between(e, next_month(&d).unwrap()), 1);
        assert_eq!(beginning_of_month(&e), beginning_of_month(&d));
        let p = previous_month(&d).unwrap();
        assert_eq!(p.day, 1);
        assert_eq!(next_month(&p), beginning_of_month(&d));
    }
}

#[test]
fn quarter_laws_on_sample_dates() {
    for d in sample_dates() {
        let b = beginning_of_quarter(&d).unwrap();
        assert!([1, 4, 7, 10].contains(&b.month));
        assert_eq!((b.year, b.day), (d.year, 1));
        let e = end_of_quarter(&d).unwrap();
        assert!([3, 6, 9, 12].contains(&e.month));
        assert_eq!(e.year, d.year);
        assert_eq!(days_between(e, next_quarter(&d).unwrap()), 1);
        let n = next_quarter(&d).unwrap();
        assert!([1, 4, 7, 10].contains(&n.month));
        assert_eq!(n.day, 1);
        assert_eq!(n.year, if d.month >= 10 { d.year + 1 } else { d.year });
        let p = previous_quarter(&d).unwrap();
        assert!([1, 4, 7, 10].contains(&p.month));
        assert_eq!(p.day, 1);
        assert_eq!(p.year, if d.month <= 3 { d.year - 1 } else { d.year });
    }
}

#[test]
fn year_laws_on_sample_dates() {
    for d in sample_dates() {
        assert_eq!(beginning_of_year(&d), Some(ymd(d.year, 1, 1)));
        assert_eq!(end_of_year(&d), Some(ymd(d.year, 12, 31)));
        assert_eq!(next_year(&d), Some(ymd(d.year + 1, 1, 1)));
        assert_eq!(previous_year(&d), Some(ymd(d.year - 1, 1, 1)));
    }
}

#[test]
fn end_of_month_of_february() {
    assert_eq!(end_of_month(&ymd(2024, 2, 10)), Some(ymd(2024, 2, 29)));
    assert_eq!(end_of_month(&ymd(2023, 2, 10)), Some(ymd(2023, 2, 28)));
    assert_eq!(end_of_month(&ymd(1900, 2, 1)), Some(ymd(1900, 2, 28)));
    assert_eq!(end_of_month(&ymd(2000, 2, 29)), Some(ymd(2000, 2, 29)));
}

#[test]
fn end_of_quarter_values() {
    assert_eq!(end_of_quarter(&ymd(2021, 5, 17)), Some(ymd(2021, 6, 30)));
    assert_eq!(end_of_quarter(&ymd(2021, 11, 2)), Some(ymd(2021, 12, 31)));
    assert_eq!(end_of_quarter(&ymd(2021, 1, 1)), Some(ymd(2021, 3, 31)));
}

#[test]
fn quarter_values() {
    assert_eq!(beginning_of_quarter(&ymd(2021, 8, 31)), Some(ymd(2021, 7, 1)));
    assert_eq!(next_quarter(&ymd(2021, 8, 31)), Some(ymd(2021, 10, 1)));
    assert_eq!(previous_quarter(&ymd(2021, 8, 31)), Some(ymd(2021, 4, 1)));
}

#[test]
fn previous_month_values() {
    assert_eq!(previous_month(&ymd(2021, 1, 31)), Some(ymd(2020, 12, 1)));
    assert_eq!(previous_month(&ymd(2021, 3, 31)), Some(ymd(2021, 2, 1)));
}

#[test]
fn last_representable_year_has_no_next() {
    let d = ymd(MAX_YEAR, 12, 31);
    assert_eq!(next_year(&d), None);
    assert_eq!(next_month(&d), None);
    assert_eq!(end_of_month(&d), None);
    assert_eq!(next_quarter(&d), None);
    assert_eq!(end_of_quarter(&d), None);
    assert_eq!(end_of_year(&d), Some(d));
    assert_eq!(beginning_of_year(&d), Some(ymd(MAX_YEAR, 1, 1)));
    assert_eq!(next_month(&ymd(MAX_YEAR, 11, 30)), Some(ymd(MAX_YEAR, 12, 1)));
}

#[test]
fn first_representable_year_has_no_previous() {
    let d = ymd(MIN_YEAR, 1, 1);
    assert_eq!(previous_year(&d), None);
    assert_eq!(previous_month(&d), None);
    assert_eq!(previous_quarter(&d), None);
    assert_eq!(beginning_of_month(&d), Some(d));
    assert_eq!(previous_month(&ymd(MIN_YEAR, 2, 1)), Some(d));
}

#[test]
fn weeks_at_the_ends_of_the_range() {
    let first = ymd(MIN_YEAR, 1, 1);
    let last = ymd(MAX_YEAR, 12, 31);
    for d in [first, last] {
        let expected_start = naive(d)
            .checked_sub_signed(chrono::TimeDelta::days(i64::from(
                naive(d).weekday().num_days_from_sunday(),
            )));
        match beginning_of_week(&d) {
            Some(b) => assert_eq!(Some(naive(b)), expected_start),
            None => assert!(d.year == MIN_YEAR || d.year == MAX_YEAR),
        }
    }
    assert_eq!(previous_week(&first), None);
    assert_eq!(next_week(&last), None);
}

#[test]
fn constructor_rejects_invalid_dates() {
    assert_eq!(Date::new(2023, 2, 29), None);
    assert_eq!(Date::new(2021, 4, 31), None);
    assert_eq!(Date::new(2021, 13, 1), None);
    assert_eq!(Date::new(2021, 0, 1), None);
    assert_eq!(Date::new(2021, 1, 0), None);
    assert_eq!(Date::new(MAX_YEAR + 1, 1, 1), None);
    assert_eq!(Date::new(MIN_YEAR - 1, 12, 31), None);
    assert_eq!(Date::new(2024, 2, 29), Some(Date { year: 2024, month: 2, day: 29 }));
    assert!(Date::new(MIN_YEAR, 1, 1).is_some());
    assert!(Date::new(MAX_YEAR, 12, 31).is_some());
}

#[test]
fn month_lengths() {
    assert_eq!(month_length(2024, 2), 29);
    assert_eq!(month_length(2023, 2), 28);
    assert_eq!(month_length(1900, 2), 28);
    assert_eq!(month_length(2000, 2), 29);
    assert_eq!(month_length(2021, 4), 30);
    assert_eq!(month_length(2021, 12), 31);
    assert_eq!(month_length(-4, 2), 29);
}

#[test]
fn calendar_matches_chrono_on_sample_dates() {
    for d in sample_dates() {
        assert!(NaiveDate::from_ymd_opt(d.year, d.month, d.day).is_some());
    }
    assert_eq!(NaiveDate::from_ymd_opt(MAX_YEAR + 1, 1, 1), None);
    assert_eq!(NaiveDate::from_ymd_opt(MIN_YEAR - 1, 12, 31), None);
}
