use daylog::date::DaylogDate;
use daylog::send::{
    compose_email, month_name, past_dates, resolve_send_request, weekday_name, Mode, SendArgs,
    SendError,
};
use daylog::user::User;
use daylog::time::DaylogTime;

fn test_user() -> User {
    User {
        username: "alice".to_owned(),
        email: "alice@example.com".to_owned(),
        timezone: "UTC".to_owned(),
        email_time_local: DaylogTime::new(18, 0),
    }
}

#[test]
fn test_resolve_for_scheduler() {
    let today = DaylogDate::new(2020, 3, 8);
    let req = resolve_send_request(Mode::User(test_user()), None, today).unwrap();
    assert_eq!(req.username, "alice");
    assert_eq!(req.email, "alice@example.com");
    assert_eq!(req.date, today);
    assert!(!req.dry_run);
}

#[test]
fn test_resolve_from_args() {
    let today = DaylogDate::new(2020, 3, 8);
    let args = SendArgs {
        username: "alice".to_owned(),
        email_override: Some("other@example.net".to_owned()),
        date_override: Some("2019-12-31".to_owned()),
        dry_run: true,
    };
    let req = resolve_send_request(Mode::Args(args), Some(test_user()), today).unwrap();
    assert_eq!(req.email, "other@example.net");
    assert_eq!(req.date, DaylogDate::new(2019, 12, 31));
    assert!(req.dry_run);

    let args2 = SendArgs {
        username: "alice".to_owned(),
        email_override: None,
        date_override: None,
        dry_run: false,
    };
    let req2 = resolve_send_request(Mode::Args(args2), Some(test_user()), today).unwrap();
    assert_eq!(req2.email, "alice@example.com");
    assert_eq!(req2.date, today);

    let args3 = SendArgs {
        username: "nobody".to_owned(),
        email_override: None,
        date_override: None,
        dry_run: false,
    };
    assert!(matches!(
        resolve_send_request(Mode::Args(args3), None, today),
        Err(SendError::NoSuchUser)
    ));

    let args4 = SendArgs {
        username: "alice".to_owned(),
        email_override: None,
        date_override: Some("yesterday".to_owned()),
        dry_run: false,
    };
    assert!(matches!(
        resolve_send_request(Mode::Args(args4), Some(test_user()), today),
        Err(SendError::BadDateOverride)
    ));
}

#[test]
fn test_names() {
    assert_eq!(weekday_name(0), "Sunday");
    assert_eq!(weekday_name(4), "Thursday");
    assert_eq!(month_name(1), "January");
    assert_eq!(month_name(7), "July");
    assert_eq!(month_name(12), "December");
}

#[test]
fn test_compose_email_no_entries() {
    let text = compose_email(
        "a@b",
        "daylog@example.com",
        DaylogDate::new(2001, 7, 8),
        "mid@host",
        "Sun, 08 Jul 2001 10:00:00 +0000",
        &vec![],
    );
    let expected = "Date: Sun, 08 Jul 2001 10:00:00 +0000\r\n\
                    Subject: Daylog for 2001-07-08\r\n\
                    From: Daylog <daylog@example.com>\r\n\
                    To: <a@b>\r\n\
                    Message-ID: <mid@host>\r\n\
                    \r\n\
                    What'd you do today, Sunday, July  8, 2001?\r\n\
                    \r\n\
                    -- \r\n\
                    sent by daylog\r\n";
    assert_eq!(text, expected);
}

#[test]
fn test_compose_email_with_entries() {
    let events = vec![
        ("one week ago".to_owned(), "walked".to_owned()),
        ("two weeks ago".to_owned(), "ate\nslept".to_owned()),
    ];
    let text = compose_email(
        "a@b",
        "r@s",
        DaylogDate::new(2020, 3, 18),
        "m",
        "DH",
        &events,
    );
    assert!(text.contains("Here's what you were doing\r\n"));
    assert!(text.contains("\tone week ago:\twalked\r\n"));
    assert!(text.contains("\ttwo weeks ago:\r\n\t\tate\r\n\t\tslept\r\n"));
    assert!(text.contains("What'd you do today, Wednesday, March 18, 2020?\r\n"));
}

#[test]
fn test_past_dates() {
    let list = past_dates(DaylogDate::new(2020, 3, 8));
    assert_eq!(list.len(), 19);
    assert_eq!(list[0].0, "one week ago");
    assert_eq!(list[0].1.as_deref(), Some("2020-03-01"));
    assert_eq!(list[2].1.as_deref(), Some("2020-02-16"));
    assert_eq!(list[3].0, "one month ago");
    assert_eq!(list[3].1.as_deref(), Some("2020-02-08"));
    assert_eq!(list[18].0, "ten years ago");
    assert_eq!(list[18].1.as_deref(), Some("2010-03-08"));
    // a look-back that lands on a nonexistent day carries no date
    let feb29 = past_dates(DaylogDate::new(2020, 2, 29));
    assert_eq!(feb29[9].0, "one year ago");
    assert_eq!(feb29[9].1, None);
}
