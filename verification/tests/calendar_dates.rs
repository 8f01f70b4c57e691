use validator_metrics::calendar::CalendarDate;

#[test]
fn existing_day_is_accepted() {
    let date = CalendarDate::from_ymd_opt(2024, 2, 29).expect("leap day");
    assert_eq!((date.year(), date.month(), date.day()), (2024, 2, 29));
}

#[test]
fn missing_day_is_rejected() {
    assert!(CalendarDate::from_ymd_opt(2023, 2, 29).is_none());
    assert!(CalendarDate::from_ymd_opt(2024, 4, 31).is_none());
    assert!(CalendarDate::from_ymd_opt(2024, 0, 1).is_none());
    assert!(CalendarDate::from_ymd_opt(2024, 13, 1).is_none());
    assert!(CalendarDate::from_ymd_opt(2024, 1, 0).is_none());
    assert!(CalendarDate::from_ymd_opt(1900, 2, 29).is_none());
    assert!(CalendarDate::from_ymd_opt(2000, 2, 29).is_some());
}

#[test]
fn year_range_is_enforced() {
    assert!(CalendarDate::from_ymd_opt(262142, 12, 31).is_some());
    assert!(CalendarDate::from_ymd_opt(262143, 1, 1).is_none());
    assert!(CalendarDate::from_ymd_opt(-262143, 1, 1).is_some());
    assert!(CalendarDate::from_ymd_opt(-262144, 12, 31).is_none());
}

#[test]
fn month_shift_keeps_day_or_clamps() {
    let jan31 = CalendarDate::from_ymd_opt(2024, 1, 31).unwrap();
    let later = jan31.checked_add_months(1).unwrap();
    assert_eq!((later.year(), later.month(), later.day()), (2024, 2, 29));
    let mar30 = CalendarDate::from_ymd_opt(2023, 3, 30).unwrap();
    let earlier = mar30.checked_sub_months(1).unwrap();
    assert_eq!((earlier.year(), earlier.month(), earlier.day()), (2023, 2, 28));
    let dec = CalendarDate::from_ymd_opt(2024, 12, 5).unwrap();
    let next = dec.checked_add_months(1).unwrap();
    assert_eq!((next.year(), next.month(), next.day()), (2025, 1, 5));
    let jan = CalendarDate::from_ymd_opt(2024, 1, 25).unwrap();
    let prev = jan.checked_sub_months(1).unwrap();
    assert_eq!((prev.year(), prev.month(), prev.day()), (2023, 12, 25));
    let same = jan.checked_add_months(0).unwrap();
    assert_eq!((same.year(), same.month(), same.day()), (2024, 1, 25));
    let far = jan.checked_add_months(25).unwrap();
    assert_eq!((far.year(), far.month(), far.day()), (2026, 2, 25));
    let back = jan.checked_sub_months(13).unwrap();
    assert_eq!((back.year(), back.month(), back.day()), (2022, 12, 25));
}

#[test]
fn month_shift_fails_outside_the_calendar() {
    let last = CalendarDate::from_ymd_opt(262142, 12, 5).unwrap();
    assert!(last.checked_add_months(1).is_none());
    assert!(last.checked_add_months(u32::MAX).is_none());
    let first = CalendarDate::from_ymd_opt(-262143, 1, 5).unwrap();
    assert!(first.checked_sub_months(1).is_none());
    assert!(first.checked_sub_months(u32::MAX).is_none());
    assert!(first.checked_add_months(1).is_some());
}

#[test]
fn midnight_stamp_formats() {
    let stamp =
        |y: i32, m: u32, d: u32| CalendarDate::from_ymd_opt(y, m, d).unwrap().midnight_stamp();
    assert_eq!(stamp(2024, 8, 5), "2024-08-05T00:00:00");
    assert_eq!(stamp(999, 12, 31), "0999-12-31T00:00:00");
    assert_eq!(stamp(0, 1, 1), "0000-01-01T00:00:00");
    assert_eq!(stamp(9999, 1, 1), "9999-01-01T00:00:00");
    assert_eq!(stamp(10000, 1, 1), "+10000-01-01T00:00:00");
    assert_eq!(stamp(-1, 1, 1), "-0001-01-01T00:00:00");
    assert_eq!(stamp(-262143, 1, 1), "-262143-01-01T00:00:00");
    assert_eq!(stamp(262142, 12, 31), "+262142-12-31T00:00:00");
}

#[test]
fn leap_years_before_the_common_era() {
    assert!(CalendarDate::from_ymd_opt(-4, 2, 29).is_some());
    assert!(CalendarDate::from_ymd_opt(-100, 2, 29).is_none());
    assert!(CalendarDate::from_ymd_opt(0, 2, 29).is_some());
    assert!(CalendarDate::from_ymd_opt(-400, 2, 29).is_some());
    let date = CalendarDate::from_ymd_opt(-1, 1, 31).unwrap().checked_sub_months(1).unwrap();
    assert_eq!((date.year(), date.month(), date.day()), (-2, 12, 31));
    let date = CalendarDate::from_ymd_opt(-1, 3, 31).unwrap().checked_sub_months(1).unwrap();
    assert_eq!((date.year(), date.month(), date.day()), (-1, 2, 28));
    let date = CalendarDate::from_ymd_opt(0, 3, 31).unwrap().checked_sub_months(1).unwrap();
    assert_eq!((date.year(), date.month(), date.day()), (0, 2, 29));
}
