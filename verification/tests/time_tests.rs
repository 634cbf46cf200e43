use daylog::time::{DaylogTime, SecondsTime, SleepTime, FormatError};

#[test]
fn test_duration() {
    assert_eq!(
        47 * 3600 + 59 * 60,
        SleepTime::Tomorrow(DaylogTime::new(23, 59)).duration_from(SecondsTime::from_hms(0, 0, 0))
    );
    assert_eq!(
        -56,
        SleepTime::Today(DaylogTime::new(12, 34)).duration_from(SecondsTime::from_hms(12, 34, 56))
    );
    assert_eq!(
        1,
        SleepTime::Tomorrow(DaylogTime::zero()).duration_from(SecondsTime::from_hms(23, 59, 59))
    );
}

#[test]
fn test_format() {
    assert_eq!("23:59", DaylogTime::new(23, 59).format());
    assert_eq!("00:00", DaylogTime::new(0, 0).format());
}

#[test]
fn test_parse() {
    assert_eq!(DaylogTime::new(23, 59), DaylogTime::parse("23:59").unwrap());
    assert_eq!(DaylogTime::new(0, 0), DaylogTime::parse("00:00").unwrap());
    assert!(DaylogTime::parse("99:99").is_err());
}

#[test]
fn test_parse_round_trips() {
    for (h, m) in [(0u8, 0u8), (7, 5), (12, 34), (23, 59)] {
        let t = DaylogTime::new(h, m);
        assert_eq!(DaylogTime::parse(&t.format()), Ok(t));
    }
}

#[test]
fn test_parse_errors() {
    assert_eq!(DaylogTime::parse("aa:10"), Err(FormatError::BadHour));
    assert_eq!(DaylogTime::parse("24:00"), Err(FormatError::HourOutOfRange));
    assert_eq!(DaylogTime::parse("12"), Err(FormatError::MissingMinute));
    assert_eq!(DaylogTime::parse("12:xx"), Err(FormatError::BadMinute));
    assert_eq!(DaylogTime::parse("12:60"), Err(FormatError::MinuteOutOfRange));
    assert_eq!(DaylogTime::parse(""), Err(FormatError::BadHour));
    assert_eq!(DaylogTime::parse("1:2:3"), Err(FormatError::BadMinute));
    // str::parse semantics: a leading plus sign is accepted
    assert_eq!(DaylogTime::parse("+9:+5"), Ok(DaylogTime::new(9, 5)));
}

#[test]
fn test_succ_wraps() {
    assert_eq!(DaylogTime::new(10, 59).succ(), DaylogTime::new(11, 0));
    assert_eq!(DaylogTime::new(23, 59).succ(), DaylogTime::zero());
    assert_eq!(DaylogTime::new(0, 0).succ(), DaylogTime::new(0, 1));
}

#[test]
fn test_sleep_time_order() {
    let a = DaylogTime::new(5, 0);
    let b = DaylogTime::new(23, 59);
    assert!(SleepTime::Today(b) < SleepTime::Tomorrow(a));
    assert!(SleepTime::Today(a) < SleepTime::Today(b));
    assert!(SleepTime::Tomorrow(a) < SleepTime::Tomorrow(b));
    assert!(!(SleepTime::Today(a) < SleepTime::Today(a)));
    assert!(a < b);
}

#[test]
fn test_naivetime_conversions() {
    let t = DaylogTime::new(12, 34);
    let s = t.as_naivetime();
    assert_eq!(s.secs, 12 * 3600 + 34 * 60);
    assert_eq!(DaylogTime::from_naivetime(SecondsTime::from_hms(12, 34, 56)), t);
    assert_eq!(t.duration_since_start_of_day(), (12 * 3600 + 34 * 60) as i64);
}
