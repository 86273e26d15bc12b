use chrono::{Datelike, Local, NaiveDate};
use snapshot_manager::date::{leap_year, month_length, CalendarDate, MAX_YEAR, MIN_YEAR};

fn tag(year: i32, month: u32, day: u32) -> String {
    CalendarDate::new(year, month, day).expect("a day that exists").tag()
}

#[test]
fn leap_years_follow_the_gregorian_rule() {
    assert!(leap_year(2024));
    assert!(!leap_year(2023));
    assert!(!leap_year(1900));
    assert!(leap_year(2000));
    assert!(leap_year(0));
    assert!(leap_year(-4));
    assert!(!leap_year(-1));
    assert!(!leap_year(-100));
    assert!(leap_year(-400));
}

#[test]
fn months_have_their_lengths() {
    let lengths = [31, 28, 31, 30, 31, 30, 31, 31, 30, 31, 30, 31];
    for month in 1..=12u32 {
        assert_eq!(month_length(2023, month), lengths[(month - 1) as usize]);
    }
    assert_eq!(month_length(2024, 2), 29);
    assert_eq!(month_length(1900, 2), 28);
    assert_eq!(month_length(2000, 2), 29);
}

#[test]
fn new_accepts_days_that_exist() {
    let date = CalendarDate::new(2024, 3, 5).expect("5 March 2024 exists");
    assert_eq!(date.year(), 2024);
    assert_eq!(date.month(), 3);
    assert_eq!(date.day(), 5);
    assert!(CalendarDate::new(2024, 2, 29).is_some());
    assert!(CalendarDate::new(2024, 12, 31).is_some());
    assert!(CalendarDate::new(MIN_YEAR, 1, 1).is_some());
    assert!(CalendarDate::new(MAX_YEAR, 12, 31).is_some());
}

#[test]
fn new_refuses_days_that_do_not_exist() {
    assert!(CalendarDate::new(2023, 2, 29).is_none());
    assert!(CalendarDate::new(2023, 4, 31).is_none());
    assert!(CalendarDate::new(2024, 0, 1).is_none());
    assert!(CalendarDate::new(2024, 13, 1).is_none());
    assert!(CalendarDate::new(2024, 1, 0).is_none());
    assert!(CalendarDate::new(2024, 1, 32).is_none());
    assert!(CalendarDate::new(MIN_YEAR - 1, 12, 31).is_none());
    assert!(CalendarDate::new(MAX_YEAR + 1, 1, 1).is_none());
    assert!(CalendarDate::new(i32::MAX, 1, 1).is_none());
    assert!(CalendarDate::new(i32::MIN, 1, 1).is_none());
    assert!(CalendarDate::new(2024, u32::MAX, 1).is_none());
    assert!(CalendarDate::new(2024, 1, u32::MAX).is_none());
}

#[test]
fn the_days_that_exist_are_those_of_the_date_library() {
    let years = [
        MIN_YEAR - 1,
        MIN_YEAR,
        -401,
        -400,
        -100,
        -4,
        -1,
        0,
        1,
        4,
        100,
        400,
        1582,
        1900,
        1999,
        2000,
        2023,
        2024,
        2100,
        9999,
        10000,
        MAX_YEAR,
        MAX_YEAR + 1,
    ];
    for year in years {
        for month in 0..=13u32 {
            for day in 0..=32u32 {
                assert_eq!(
                    CalendarDate::new(year, month, day).is_some(),
                    NaiveDate::from_ymd_opt(year, month, day).is_some(),
                    "{} {} {}",
                    year,
                    month,
                    day
                );
            }
        }
    }
}

#[test]
fn the_tag_is_year_month_day_with_hyphens() {
    assert_eq!(tag(2024, 3, 5), "2024-03-05");
    assert_eq!(tag(2016, 12, 31), "2016-12-31");
    assert_eq!(tag(1999, 1, 1), "1999-01-01");
    assert_eq!(tag(2000, 2, 29), "2000-02-29");
    assert_eq!(tag(9999, 12, 31), "9999-12-31");
    assert_eq!(tag(1000, 10, 10), "1000-10-10");
}

#[test]
fn years_below_one_thousand_are_written_with_four_digits() {
    assert_eq!(tag(999, 9, 9), "0999-09-09");
    assert_eq!(tag(5, 1, 1), "0005-01-01");
    assert_eq!(tag(0, 2, 29), "0000-02-29");
}

#[test]
fn years_outside_four_digits_are_written_with_a_sign() {
    assert_eq!(tag(10000, 10, 10), "+10000-10-10");
    assert_eq!(tag(12345, 6, 7), "+12345-06-07");
    assert_eq!(tag(MAX_YEAR, 12, 31), "+262142-12-31");
    assert_eq!(tag(-1, 12, 31), "-0001-12-31");
    assert_eq!(tag(-12345, 6, 7), "-12345-06-07");
    assert_eq!(tag(MIN_YEAR, 1, 1), "-262143-01-01");
}

#[test]
fn the_tag_of_a_day_is_always_the_same() {
    let date = CalendarDate::new(2024, 3, 5).expect("5 March 2024 exists");
    assert_eq!(date.tag(), date.tag());
    let again = CalendarDate::new(2024, 3, 5).expect("5 March 2024 exists");
    assert_eq!(date, again);
    assert_eq!(date.tag(), again.tag());
}

#[test]
fn different_days_have_different_tags() {
    assert_ne!(tag(2024, 1, 11), tag(2024, 11, 1));
    assert_ne!(tag(2024, 3, 5), tag(2024, 3, 6));
    assert_ne!(tag(2024, 3, 5), tag(2023, 3, 5));
}

#[test]
fn today_is_the_local_day_of_the_clock() {
    let before = Local::now().date_naive();
    let today = CalendarDate::today();
    let after = Local::now().date_naive();
    let seen = (today.year(), today.month(), today.day());
    assert!(
        seen == (before.year(), before.month(), before.day())
            || seen == (after.year(), after.month(), after.day())
    );
    assert!(CalendarDate::new(today.year(), today.month(), today.day()) == Some(today));
    let tag = today.tag();
    assert!(
        tag == before.format("%Y-%m-%d").to_string() || tag == after.format("%Y-%m-%d").to_string()
    );
}
