use daylog::date::DaylogDate;
use daylog::db::merged_entry_body;
use daylog::ingest::{plan_mail, process_body, mail_transform_body, IngestPlan};
use daylog::mail::{Mail, MailProcessAction};
use daylog::message_id::{gen_message_id_with, TimeNonce};

fn mail_with(refs: Vec<String>) -> Mail {
    Mail { msgid: "m1@x".to_owned(), reply_to: refs, body: "did things".to_owned() }
}

#[test]
fn test_process_body_signature_and_quotes() {
    let body = "keep\n> quoted\n-- \nsignature";
    assert_eq!(process_body(body).unwrap(), "keep");
}

#[test]
fn test_process_body_quote_intro() {
    let body = "hi\nOn Mon, Jan 6 someone wrote:\n\n> old";
    assert_eq!(process_body(body).unwrap(), "hi");
}

#[test]
fn test_process_body_plain() {
    assert_eq!(process_body("  just text  ").unwrap(), "just text");
    assert_eq!(process_body("a\nb").unwrap(), "a\nb");
}

#[test]
fn test_mail_transform_body() {
    let m = mail_with(vec![]);
    assert_eq!(mail_transform_body(&m, true).unwrap(), "did things");
    assert_eq!(mail_transform_body(&m, false).unwrap(), "did things");
}

#[test]
fn test_plan_not_ours() {
    let key = [7u8; 32];
    let m = mail_with(vec!["someone-else@x".to_owned()]);
    match plan_mail(&m, &key, false) {
        IngestPlan::NotOurs { action } => assert_eq!(action, MailProcessAction::Keep),
        _ => panic!("expected NotOurs"),
    }
    match plan_mail(&m, &key, true) {
        IngestPlan::NotOurs { action } => assert_eq!(action, MailProcessAction::LeaveUnread),
        _ => panic!("expected NotOurs"),
    }
}

#[test]
fn test_plan_record() {
    let key = [7u8; 32];
    let id = gen_message_id_with(
        "alice",
        DaylogDate::new(2020, 1, 2),
        &key,
        TimeNonce { nanos: 5 },
    );
    let m = mail_with(vec![id, "unrelated@x".to_owned()]);
    match plan_mail(&m, &key, false) {
        IngestPlan::Record { entries, action } => {
            assert_eq!(action, MailProcessAction::Remove);
            assert_eq!(entries.len(), 1);
            assert_eq!(entries[0].0, "alice");
            assert_eq!(entries[0].1, "2020-01-02");
        }
        _ => panic!("expected Record"),
    }
}

#[test]
fn test_plan_bad_reference() {
    let key = [7u8; 32];
    let m = mail_with(vec!["daylog.1.AA.AAAA".to_owned()]);
    match plan_mail(&m, &key, false) {
        IngestPlan::BadReference { msgid, action } => {
            assert_eq!(msgid, "daylog.1.AA.AAAA");
            assert_eq!(action, MailProcessAction::Keep);
        }
        _ => panic!("expected BadReference"),
    }
}

#[test]
fn test_merged_entry_body() {
    assert_eq!(merged_entry_body("old", "new"), "old\nnew");
}
