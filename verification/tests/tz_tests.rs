use daylog::date::DaylogDate;
use daylog::time::{DaylogTime, SleepTime};
use daylog::tz::{tz_exists, todays_date};

#[test]
fn test_timezone() {
    // 2020-03-08 is the day that PST becomes PDT at 2:00 AM local time
    // (10:00 AM UTC).
    let tz = "America/Los_Angeles";
    let email_time = DaylogTime::new(18, 0); // 6:00 PM in America/Los_Angeles

    // Let's say it's 2020-03-07, before the time change.
    // Assert that the 6PM email will be sent at 2AM UTC.
    let x1 = email_time.apply_timezone(DaylogDate::new(2020, 3, 7), DaylogTime::new(0, 0), tz);
    assert_eq!(x1, Some(SleepTime::Today(DaylogTime::new(2, 0))));

    // Let's advance just past that time.
    // Assert that the email gets sent tomorrow, since it's too late today,
    // and that the time changes because then it'll be after the time change
    // to PDT.
    let x2 = email_time.apply_timezone(DaylogDate::new(2020, 3, 7), DaylogTime::new(2, 1), tz);
    assert_eq!(x2, Some(SleepTime::Tomorrow(DaylogTime::new(1, 0))));

    // Now it's 10:01 AM UTC, right after PST turns to PDT.
    // Assert that the PDT time tomorrow is still picked.
    let x3 = email_time.apply_timezone(DaylogDate::new(2020, 3, 7), DaylogTime::new(10, 1), tz);
    assert_eq!(x3, Some(SleepTime::Tomorrow(DaylogTime::new(1, 0))));

    // Now it's the next day. Assert that it's sent today, at the right time.
    let x4 = email_time.apply_timezone(DaylogDate::new(2020, 3, 8), DaylogTime::new(0, 0), tz);
    assert_eq!(x4, Some(SleepTime::Today(DaylogTime::new(1, 0))));
}

#[test]
fn test_unknown_zone() {
    let t = DaylogTime::new(9, 0);
    let r = t.apply_timezone(DaylogDate::new(2020, 3, 7), DaylogTime::new(0, 0), "Not/AZone");
    assert_eq!(r, None);
    assert!(!tz_exists("Not/AZone"));
    assert!(tz_exists("America/Los_Angeles"));
    assert!(tz_exists("UTC"));
}

#[test]
fn test_utc_is_identity() {
    let t = DaylogTime::new(12, 0);
    let r = t.apply_timezone(DaylogDate::new(2021, 6, 1), DaylogTime::new(1, 0), "UTC");
    assert_eq!(r, Some(SleepTime::Today(DaylogTime::new(12, 0))));
    let late = t.apply_timezone(DaylogDate::new(2021, 6, 1), DaylogTime::new(12, 1), "UTC");
    assert_eq!(late, Some(SleepTime::Tomorrow(DaylogTime::new(12, 0))));
    // due exactly now means due today
    let exact = t.apply_timezone(DaylogDate::new(2021, 6, 1), DaylogTime::new(12, 0), "UTC");
    assert_eq!(exact, Some(SleepTime::Today(DaylogTime::new(12, 0))));
}

#[test]
fn test_todays_date_runs() {
    assert!(todays_date("UTC").is_some());
    assert!(todays_date("Not/AZone").is_none());
}
