use daylog::date::{DaylogDate, parse_ymd};

#[test]
fn test_succ_and_pred() {
    assert_eq!(DaylogDate::new(2020, 2, 28).succ(), DaylogDate::new(2020, 2, 29));
    assert_eq!(DaylogDate::new(2020, 2, 29).succ(), DaylogDate::new(2020, 3, 1));
    assert_eq!(DaylogDate::new(2021, 2, 28).succ(), DaylogDate::new(2021, 3, 1));
    assert_eq!(DaylogDate::new(2019, 12, 31).succ(), DaylogDate::new(2020, 1, 1));
    assert_eq!(DaylogDate::new(1900, 2, 28).succ(), DaylogDate::new(1900, 3, 1));
    assert_eq!(DaylogDate::new(2000, 2, 28).succ(), DaylogDate::new(2000, 2, 29));
    assert_eq!(DaylogDate::new(2020, 3, 1).pred(), DaylogDate::new(2020, 2, 29));
    assert_eq!(DaylogDate::new(2020, 1, 1).pred(), DaylogDate::new(2019, 12, 31));
}

#[test]
fn test_day_number() {
    assert_eq!(DaylogDate::new(1970, 1, 1).day_number(), 0);
    assert_eq!(DaylogDate::new(1970, 1, 2).day_number(), 1);
    assert_eq!(DaylogDate::new(1969, 12, 31).day_number(), -1);
    assert_eq!(DaylogDate::new(2000, 1, 1).day_number(), 10957);
}

#[test]
fn test_weekday() {
    // 2020-03-08 was a Sunday; 1970-01-01 a Thursday.
    assert_eq!(DaylogDate::new(2020, 3, 8).weekday(), 0);
    assert_eq!(DaylogDate::new(1970, 1, 1).weekday(), 4);
    assert_eq!(DaylogDate::new(2001, 7, 8).weekday(), 0);
}

#[test]
fn test_format_and_parse_ymd() {
    let d = DaylogDate::new(2020, 3, 8);
    assert_eq!(d.format_ymd(), "2020-03-08");
    assert_eq!(parse_ymd("2020-03-08"), Some(d));
    assert_eq!(parse_ymd("2020-3-8"), None);
    assert_eq!(parse_ymd("2020-13-08"), None);
    assert_eq!(parse_ymd("2021-02-29"), None);
    assert_eq!(parse_ymd("not-a-date!"), None);
    assert_eq!(parse_ymd(""), None);
}

#[test]
fn test_from_ymd_validity() {
    assert!(DaylogDate::from_ymd(2020, 2, 29).is_some());
    assert!(DaylogDate::from_ymd(2021, 2, 29).is_none());
    assert!(DaylogDate::from_ymd(2020, 0, 1).is_none());
    assert!(DaylogDate::from_ymd(0, 1, 1).is_none());
    assert!(DaylogDate::from_ymd(10000, 1, 1).is_none());
}

#[test]
fn test_shifts() {
    let d = DaylogDate::new(2020, 3, 8);
    assert_eq!(d.days_ago(7), DaylogDate::new(2020, 3, 1));
    assert_eq!(d.days_ago(14), DaylogDate::new(2020, 2, 23));
    assert_eq!(d.months_ago(1), Some(DaylogDate::new(2020, 2, 8)));
    assert_eq!(DaylogDate::new(2020, 3, 31).months_ago(1), None);
    assert_eq!(DaylogDate::new(2020, 1, 15).months_ago(2), Some(DaylogDate::new(2019, 11, 15)));
    assert_eq!(d.years_ago(1), Some(DaylogDate::new(2019, 3, 8)));
    assert_eq!(DaylogDate::new(2020, 2, 29).years_ago(1), None);
}
