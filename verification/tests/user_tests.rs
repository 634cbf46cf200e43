use daylog::date::DaylogDate;
use daylog::time::{DaylogTime, FormatError, SleepTime};
use daylog::user::{User, UserError, UserRaw, Users};

fn raw(name: &str, tz: &str, hhmm: &str) -> UserRaw {
    UserRaw {
        id: None,
        username: name.to_owned(),
        email: format!("{}@example.com", name),
        timezone: tz.to_owned(),
        email_time_local: hhmm.to_owned(),
    }
}

#[test]
fn test_user_try_from() {
    let u = User::try_from(raw("alice", "America/Los_Angeles", "18:00")).unwrap();
    assert_eq!(u.username, "alice");
    assert_eq!(u.email, "alice@example.com");
    assert_eq!(u.timezone, "America/Los_Angeles");
    assert_eq!(u.email_time_local, DaylogTime::new(18, 0));

    assert!(matches!(
        User::try_from(raw("bob", "Not/AZone", "18:00")),
        Err(UserError::UnknownTimezone)
    ));
    assert!(matches!(
        User::try_from(raw("carol", "UTC", "25:00")),
        Err(UserError::BadSendTime(FormatError::HourOutOfRange))
    ));
}

#[test]
fn test_next_cohort_empty() {
    let users = Users::new(vec![]);
    assert!(users.next_from_time(DaylogDate::new(2020, 1, 1), DaylogTime::new(0, 0)).is_none());
}

#[test]
fn test_next_cohort_single() {
    let u = User::try_from(raw("alice", "UTC", "12:00")).unwrap();
    let users = Users::new(vec![u]);
    let (target, cohort) =
        users.next_from_time(DaylogDate::new(2020, 1, 1), DaylogTime::new(0, 0)).unwrap();
    assert_eq!(target, SleepTime::Today(DaylogTime::new(12, 0)));
    assert_eq!(cohort.len(), 1);
    assert_eq!(cohort[0].username, "alice");
}

#[test]
fn test_next_cohort_minimum_and_ties() {
    let a = User::try_from(raw("a", "UTC", "13:00")).unwrap();
    let b = User::try_from(raw("b", "UTC", "12:00")).unwrap();
    let c = User::try_from(raw("c", "UTC", "12:00")).unwrap();
    let users = Users::new(vec![a, b, c]);
    let (target, cohort) =
        users.next_from_time(DaylogDate::new(2020, 1, 1), DaylogTime::new(0, 0)).unwrap();
    assert_eq!(target, SleepTime::Today(DaylogTime::new(12, 0)));
    assert_eq!(cohort.len(), 2);
    assert_eq!(cohort[0].username, "b");
    assert_eq!(cohort[1].username, "c");
}

#[test]
fn test_next_cohort_never_past() {
    // a target already past today resolves to tomorrow
    let u = User::try_from(raw("alice", "UTC", "08:00")).unwrap();
    let users = Users::new(vec![u]);
    let (target, _) =
        users.next_from_time(DaylogDate::new(2020, 1, 1), DaylogTime::new(9, 0)).unwrap();
    assert_eq!(target, SleepTime::Tomorrow(DaylogTime::new(8, 0)));
}
