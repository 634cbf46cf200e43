use daylog::mail::{Mail, MailParseError, MailPart, ParsedMessage, MailProcessAction, RunStats};
use daylog::text::trim_msgid;

fn simple(msgid: Option<&str>, refs: Option<&str>, body: Option<&str>) -> ParsedMessage {
    ParsedMessage {
        msgid_header: msgid.map(|s| s.to_owned()),
        references_header: refs.map(|s| s.to_owned()),
        body: body.map(|s| s.to_owned()),
        subparts: vec![],
    }
}

#[test]
fn test_mail_parse_simple() {
    let m = Mail::parse(simple(Some(" <a@x> "), Some(" <r1@x>\t<r2@y> "), Some("hi"))).unwrap();
    assert_eq!(m.msgid, "a@x");
    assert_eq!(m.reply_to, vec!["r1@x".to_owned(), "r2@y".to_owned()]);
    assert_eq!(m.body, "hi");
}

#[test]
fn test_mail_parse_missing_msgid() {
    assert!(matches!(
        Mail::parse(simple(None, None, Some("hi"))),
        Err(MailParseError::MissingMessageId)
    ));
}

#[test]
fn test_mail_parse_no_references() {
    let m = Mail::parse(simple(Some("a@x"), None, Some("hi"))).unwrap();
    assert!(m.reply_to.is_empty());
}

#[test]
fn test_mail_parse_multipart() {
    let part = |inline: bool, mt: &str, body: Option<&str>| MailPart {
        inline_disposition: inline,
        mimetype: mt.to_owned(),
        body: body.map(|s| s.to_owned()),
    };
    let msg = ParsedMessage {
        msgid_header: Some("a@x".to_owned()),
        references_header: None,
        body: None,
        subparts: vec![
            part(true, "text/html", Some("<b>no</b>")),
            part(true, "text/plain", Some("one")),
            part(false, "text/plain", Some("skipped")),
            part(true, "text/plain", Some("two")),
        ],
    };
    let m = Mail::parse(msg).unwrap();
    assert_eq!(m.body, "one\n\ntwo\n\n");

    let none = ParsedMessage {
        msgid_header: Some("a@x".to_owned()),
        references_header: None,
        body: None,
        subparts: vec![part(true, "text/html", Some("<b>no</b>"))],
    };
    assert!(matches!(Mail::parse(none), Err(MailParseError::NoSuitablePart)));

    let bad = ParsedMessage {
        msgid_header: Some("a@x".to_owned()),
        references_header: None,
        body: None,
        subparts: vec![part(true, "text/plain", None)],
    };
    assert!(matches!(Mail::parse(bad), Err(MailParseError::BadBodyText)));
}

#[test]
fn test_trim_msgid() {
    assert_eq!(trim_msgid(" <abc@x> "), "abc@x");
    assert_eq!(trim_msgid("<<y>>"), "y");
    assert_eq!(trim_msgid("plain"), "plain");
    assert_eq!(trim_msgid("  "), "");
}

#[test]
fn test_run_stats() {
    let mut stats = RunStats::default();
    stats.record_processed();
    stats.record_action(MailProcessAction::Remove);
    stats.record_action(MailProcessAction::Keep);
    stats.record_action(MailProcessAction::LeaveUnread);
    stats.record_action(MailProcessAction::Keep);
    assert_eq!(stats.num_processed, 1);
    assert_eq!(stats.num_removed, 1);
    assert_eq!(stats.num_kept, 2);
    assert_eq!(stats.num_left_unread, 1);
}
