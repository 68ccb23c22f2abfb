//! The errors of the engine layer, and the order of keys.
use std::time::Duration;
use storage_engine::engine::{local_cf_configs, settle, CbContext, CfConfig, TEMP_DIR};
use storage_engine::error::{Error, ErrorHeader};
use storage_engine::key::{compare, same_name, Key, KeyOrder};

#[test]
fn errors_are_copied_but_for_other() {
    let header = ErrorHeader { encoded: vec![1, 2, 3] };
    match Error::Request(header).maybe_clone() {
        Some(Error::Request(copy)) => assert_eq!(copy.encoded, vec![1, 2, 3]),
        other => panic!("{:?}", other),
    }
    match Error::RocksDb("corrupt".to_owned()).maybe_clone() {
        Some(Error::RocksDb(msg)) => assert_eq!(msg, "corrupt"),
        other => panic!("{:?}", other),
    }
    match Error::Timeout(Duration::from_millis(1500)).maybe_clone() {
        Some(Error::Timeout(d)) => assert_eq!(d, Duration::from_millis(1500)),
        other => panic!("{:?}", other),
    }
    assert!(matches!(Error::EmptyRequest.maybe_clone(), Some(Error::EmptyRequest)));
    assert!(Error::Other("odd".to_owned()).maybe_clone().is_none());
}

#[test]
fn errors_are_made_from_what_they_hold() {
    assert!(matches!(Error::from("m".to_owned()), Error::RocksDb(m) if m == "m"));
    let header = ErrorHeader { encoded: vec![9] };
    assert!(matches!(Error::from(header), Error::Request(h) if h.encoded == vec![9]));
}

#[test]
fn an_answer_is_settled() {
    let timeout = Duration::from_secs(9);
    assert_eq!(settle(Some((CbContext::new(), Ok(4))), timeout).unwrap(), 4);
    let refused: Option<(CbContext, Result<u8, Error>)> =
        Some((CbContext { term: Some(1) }, Err(Error::EmptyRequest)));
    assert!(matches!(settle(refused, timeout), Err(Error::EmptyRequest)));
    assert!(matches!(settle::<u8>(None, timeout), Err(Error::Timeout(d)) if d == timeout));
}

#[test]
fn a_new_context_has_no_term() {
    assert_eq!(CbContext::new().term, None);
    assert_eq!(TEMP_DIR, "");
}

#[test]
fn keys_are_ordered_by_bytes() {
    assert_eq!(compare(b"", b""), KeyOrder::Equal);
    assert_eq!(compare(b"", b"a"), KeyOrder::Less);
    assert_eq!(compare(b"a", b""), KeyOrder::Greater);
    assert_eq!(compare(b"ab", b"b"), KeyOrder::Less);
    assert_eq!(compare(b"ab", b"abc"), KeyOrder::Less);
    assert_eq!(compare(b"b", b"ab"), KeyOrder::Greater);
    assert_eq!(compare(b"\xff", b"\x00\xff"), KeyOrder::Greater);
    assert_eq!(compare(b"same", b"same"), KeyOrder::Equal);
    assert_eq!(Key::from_encoded(vec![3, 4]).encoded(), &vec![3, 4]);
    assert!(same_name("lock", "lock"));
    assert!(!same_name("lock", "locks"));
}

#[test]
fn column_families_are_set_up_by_name() {
    assert_eq!(
        local_cf_configs(&["default", "lock", "write", "raft", "cf", ""]),
        vec![
            ("default", CfConfig::Default),
            ("lock", CfConfig::Lock),
            ("write", CfConfig::Write),
            ("raft", CfConfig::Raft),
            ("cf", CfConfig::Plain),
            ("", CfConfig::Plain),
        ]
    );
    assert_eq!(local_cf_configs(&[]), vec![]);
}
