use chrono::{DateTime, Datelike, Utc};
use std::str::FromStr;
use std::time::SystemTime;
use validator_metrics::calendar::CalendarDate;
use validator_metrics::latitude::Latitude;

fn date_of(moment: &DateTime<Utc>) -> CalendarDate {
    CalendarDate::from_ymd_opt(moment.year(), moment.month(), moment.day())
        .expect("chrono dates are calendar days")
}

#[test]
fn test_date_range() {
    let reference = DateTime::<Utc>::from_str("2024-08-12T00:00:00+00:00")
        .expect("Failed to create reference date");
    let (start, end) =
        Latitude::get_date_range(5, &date_of(&reference)).expect("Failed to compute dates");
    assert_eq!(start, "2024-08-05T00:00:00");
    assert_eq!(end, "2024-09-05T00:00:00");

    let reference = DateTime::<Utc>::from_str("2024-08-12T00:00:00+00:00")
        .expect("Failed to create reference date");
    let (start, end) =
        Latitude::get_date_range(25, &date_of(&reference)).expect("Failed to compute dates");
    assert_eq!(start, "2024-07-25T00:00:00");
    assert_eq!(end, "2024-08-25T00:00:00");

    let reference = DateTime::<Utc>::from_str("2024-12-12T00:00:00+00:00")
        .expect("Failed to create reference date");
    let (start, end) =
        Latitude::get_date_range(5, &date_of(&reference)).expect("Failed to compute dates");
    assert_eq!(start, "2024-12-05T00:00:00");
    assert_eq!(end, "2025-01-05T00:00:00");

    let reference = DateTime::<Utc>::from_str("2024-01-12T00:00:00+00:00")
        .expect("Failed to create reference date");
    let (start, end) =
        Latitude::get_date_range(25, &date_of(&reference)).expect("Failed to compute dates");
    assert_eq!(start, "2023-12-25T00:00:00");
    assert_eq!(end, "2024-01-25T00:00:00");

    let now: DateTime<Utc> = SystemTime::now().into();
    let (start, end) =
        Latitude::get_date_range(5, &date_of(&now)).expect("Failed to compute dates");
    println!("For current time, start {}, end {}", start, end);
}

fn range(start_day: u32, year: i32, month: u32, day: u32) -> Option<(String, String)> {
    let reference = CalendarDate::from_ymd_opt(year, month, day).expect("reference date");
    Latitude::get_date_range(start_day, &reference)
}

fn pair(start: &str, end: &str) -> Option<(String, String)> {
    Some((start.to_string(), end.to_string()))
}

#[test]
fn reference_on_the_start_day_opens_a_cycle() {
    assert_eq!(range(12, 2024, 8, 12), pair("2024-08-12T00:00:00", "2024-09-12T00:00:00"));
    assert_eq!(range(1, 2024, 8, 1), pair("2024-08-01T00:00:00", "2024-09-01T00:00:00"));
}

#[test]
fn reference_before_the_start_day_is_in_last_months_cycle() {
    assert_eq!(range(13, 2024, 8, 12), pair("2024-07-13T00:00:00", "2024-08-13T00:00:00"));
    assert_eq!(range(2, 2024, 1, 1), pair("2023-12-02T00:00:00", "2024-01-02T00:00:00"));
}

#[test]
fn start_day_missing_in_the_reference_month_fails() {
    assert_eq!(range(30, 2024, 2, 12), None);
    assert_eq!(range(31, 2024, 4, 12), None);
    assert_eq!(range(29, 2023, 2, 12), None);
    assert_eq!(range(0, 2024, 8, 12), None);
    assert_eq!(range(32, 2024, 8, 12), None);
}

#[test]
fn bound_in_a_shorter_month_falls_on_its_last_day() {
    assert_eq!(range(30, 2024, 3, 12), pair("2024-02-29T00:00:00", "2024-03-30T00:00:00"));
    assert_eq!(range(30, 2023, 3, 12), pair("2023-02-28T00:00:00", "2023-03-30T00:00:00"));
    assert_eq!(range(31, 2024, 1, 31), pair("2024-01-31T00:00:00", "2024-02-29T00:00:00"));
    assert_eq!(range(31, 2024, 5, 12), pair("2024-04-30T00:00:00", "2024-05-31T00:00:00"));
}

#[test]
fn cycle_at_the_edge_of_the_calendar_fails() {
    assert_eq!(range(5, 262142, 12, 12), None);
    assert_eq!(
        range(25, 262142, 12, 12),
        pair("+262142-11-25T00:00:00", "+262142-12-25T00:00:00")
    );
    assert_eq!(range(25, -262143, 1, 12), None);
    assert_eq!(
        range(5, -262143, 1, 12),
        pair("-262143-01-05T00:00:00", "-262143-02-05T00:00:00")
    );
}

#[test]
fn billing_window_uses_the_fifth() {
    let today = CalendarDate::from_ymd_opt(2024, 8, 12).unwrap();
    assert_eq!(
        Latitude::billing_window(&today),
        pair("2024-08-05T00:00:00", "2024-09-05T00:00:00")
    );
    let early = CalendarDate::from_ymd_opt(2024, 8, 4).unwrap();
    assert_eq!(
        Latitude::billing_window(&early),
        pair("2024-07-05T00:00:00", "2024-08-05T00:00:00")
    );
}
