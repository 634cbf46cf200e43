use daylog::date::DaylogDate;
use daylog::message_id::{
    gen_message_id, gen_message_id_with, is_our_message_id, verify_message_id, MsgIdError,
    TimeNonce,
};

#[test]
fn test_is_our_message_id() {
    assert!(is_our_message_id("daylog.1.abc.def"));
    assert!(!is_our_message_id("daylog.2"));
    assert!(!is_our_message_id("something-else"));
    assert!(!is_our_message_id(""));
}

#[test]
fn test_nonce_base64() {
    let n = TimeNonce { nanos: 0x01020304 };
    assert_eq!(n.base64(), "BAMCAQ==");
    let zero = TimeNonce { nanos: 0 };
    assert_eq!(zero.base64(), "");
}

#[test]
fn test_nonce_parse_round_trip() {
    for nanos in [0u128, 1, 0x01020304, 1_600_000_000_000_000_000] {
        let n = TimeNonce { nanos };
        let parsed = TimeNonce::parse(&n.base64()).unwrap();
        assert_eq!(parsed.nanos, nanos);
    }
    assert!(TimeNonce::parse("!!!").is_none());
}

#[test]
fn test_gen_verify_round_trip() {
    let key = [7u8; 32];
    let date = DaylogDate::new(2020, 1, 2);
    let id = gen_message_id("alice", date, &key);
    assert!(is_our_message_id(&id));
    let (user, d) = verify_message_id(&id, &key).unwrap();
    assert_eq!(user, "alice");
    assert_eq!(d, "2020-01-02");
    // a message id survives the customary @host suffix
    let with_host = format!("{}@example.com", id);
    let (user2, d2) = verify_message_id(&with_host, &key).unwrap();
    assert_eq!(user2, "alice");
    assert_eq!(d2, "2020-01-02");
    // usernames containing a dot split at the last dot of the payload
    let id3 = gen_message_id("a.b", date, &key);
    let (user3, d3) = verify_message_id(&id3, &key).unwrap();
    assert_eq!(user3, "a.b");
    assert_eq!(d3, "2020-01-02");
}

#[test]
fn test_gen_with_nonce_is_deterministic() {
    let key = [9u8; 32];
    let date = DaylogDate::new(2021, 12, 31);
    let nonce = TimeNonce { nanos: 123456789 };
    let a = gen_message_id_with("bob", date, &key, nonce);
    let b = gen_message_id_with("bob", date, &key, nonce);
    assert_eq!(a, b);
    let (user, d) = verify_message_id(&a, &key).unwrap();
    assert_eq!(user, "bob");
    assert_eq!(d, "2021-12-31");
}

#[test]
fn test_verify_wrong_key_fails() {
    let key = [7u8; 32];
    let other = [8u8; 32];
    let id = gen_message_id("alice", DaylogDate::new(2020, 1, 2), &key);
    assert!(matches!(verify_message_id(&id, &other), Err(MsgIdError::ValidationFailed)));
}

#[test]
fn test_verify_errors() {
    let key = [7u8; 32];
    assert!(matches!(verify_message_id("nope", &key), Err(MsgIdError::NotEnoughParts)));
    assert!(matches!(verify_message_id("daylog.1.a", &key), Err(MsgIdError::NotEnoughParts)));
    assert!(matches!(
        verify_message_id("daylog.1.a.b.c", &key),
        Err(MsgIdError::TooManyParts)
    ));
    assert!(matches!(
        verify_message_id("daylog.2.AA.AAAA", &key),
        Err(MsgIdError::UnrecognizedPrefix)
    ));
    assert!(matches!(
        verify_message_id("daylog.1.!!.AAAA", &key),
        Err(MsgIdError::InvalidNonce)
    ));
    assert!(matches!(
        verify_message_id("daylog.1.AA==.!!", &key),
        Err(MsgIdError::InvalidEncrypted)
    ));
    assert!(matches!(
        verify_message_id("daylog.1.AA==.AAAA", &key),
        Err(MsgIdError::ValidationFailed)
    ));
}
