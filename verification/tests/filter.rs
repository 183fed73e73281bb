use dlt_sys::dlt_common::{
    dlt_set_id, DltExtendedHeader, DltMessage, DltStandardHeaderExtra, DltStorageHeader,
    DLT_FILTER_MAX,
};
use dlt_sys::dlt_filter::{DltFilter, DltFilterError};

fn id(text: &[u8]) -> [u8; 4] {
    dlt_set_id(text)
}

fn message(htyp: u8, apid: &[u8], ctid: &[u8]) -> DltMessage {
    DltMessage::compose(
        DltStorageHeader::empty(),
        htyp,
        0,
        DltStandardHeaderExtra::empty(),
        DltExtendedHeader { msin: 0, noar: 0, apid: id(apid), ctid: id(ctid) },
        vec![],
    )
    .unwrap()
}

#[test]
fn filter_or_semantics() {
    let mut filter = DltFilter::init(DLT_FILTER_MAX);
    assert_eq!(filter.add(&id(b"APP1"), &id(b"CTX1")), Ok(0));
    assert_eq!(filter.add(&id(b"APP2"), &id(b"")), Ok(1));
    assert!(filter.matches(&message(0x21, b"APP1", b"CTX1")));
    assert!(filter.matches(&message(0x21, b"APP2", b"ANY")));
    assert!(filter.matches(&message(0x21, b"APP2", b"CTX1")));
    assert!(filter.matches(&message(0x21, b"APP2", b"")));
    assert!(!filter.matches(&message(0x21, b"APP3", b"CTX1")));
    assert!(!filter.matches(&message(0x21, b"APP1", b"CTX2")));
    assert!(!filter.matches(&message(0x21, b"APP1", b"")));
    assert!(filter.matches_ids(&id(b"APP1"), &id(b"CTX1")));
    assert!(!filter.matches_ids(&id(b"APP3"), &id(b"CTX1")));
}

#[test]
fn message_without_extended_header_matches_nothing() {
    let mut filter = DltFilter::init(4);
    filter.add(&id(b""), &id(b"")).unwrap();
    assert!(filter.matches(&message(0x21, b"ANY", b"ANY")));
    assert!(!filter.matches(&message(0x20, b"ANY", b"ANY")));
    assert!(filter.matches_ids(&id(b""), &id(b"")));
}

#[test]
fn empty_filter_matches_nothing() {
    let filter = DltFilter::init(4);
    assert!(!filter.matches(&message(0x21, b"APP1", b"CTX1")));
    assert!(!filter.matches_ids(&id(b""), &id(b"")));
}

#[test]
fn wildcard_application() {
    let mut filter = DltFilter::init(4);
    filter.add(&id(b""), &id(b"CTX1")).unwrap();
    assert!(filter.matches_ids(&id(b"APP1"), &id(b"CTX1")));
    assert!(filter.matches_ids(&id(b"APP2"), &id(b"CTX1")));
    assert!(!filter.matches_ids(&id(b"APP1"), &id(b"CTX2")));
}

#[test]
fn add_rejects_duplicates_and_overflow() {
    let mut filter = DltFilter::init(2);
    assert_eq!(filter.capacity, 2);
    assert_eq!(filter.add(&id(b"A"), &id(b"B")), Ok(0));
    assert_eq!(filter.add(&id(b"A"), &id(b"B")), Err(DltFilterError::AlreadyExists));
    assert_eq!(filter.add(&id(b"A"), &id(b"")), Ok(1));
    assert_eq!(filter.counter, 2);
    let before = filter.clone();
    assert_eq!(filter.add(&id(b"C"), &id(b"D")), Err(DltFilterError::CapacityExceeded));
    assert_eq!(filter.add(&id(b"A"), &id(b"B")), Err(DltFilterError::AlreadyExists));
    assert_eq!(filter, before);
    let mut none = DltFilter::init(0);
    assert_eq!(none.add(&id(b"A"), &id(b"B")), Err(DltFilterError::CapacityExceeded));
}

#[test]
fn thirty_entries_fit() {
    let mut filter = DltFilter::init(DLT_FILTER_MAX);
    for i in 0..30u8 {
        assert_eq!(filter.add(&[b'A', i + 1, 0, 0], &id(b"")), Ok(i as usize));
    }
    assert_eq!(filter.add(&id(b"ZZZZ"), &id(b"")), Err(DltFilterError::CapacityExceeded));
    assert_eq!(filter.find(&[b'A', 17, 0, 0], &id(b"")), Ok(16));
}

#[test]
fn find_is_exact() {
    let mut filter = DltFilter::init(4);
    filter.add(&id(b"APP1"), &id(b"")).unwrap();
    filter.add(&id(b"APP1"), &id(b"CTX1")).unwrap();
    assert_eq!(filter.find(&id(b"APP1"), &id(b"CTX1")), Ok(1));
    assert_eq!(filter.find(&id(b"APP1"), &id(b"")), Ok(0));
    assert_eq!(filter.find(&id(b"APP1"), &id(b"CTX2")), Err(DltFilterError::NotFound));
    assert_eq!(filter.find(&id(b""), &id(b"CTX1")), Err(DltFilterError::NotFound));
}

#[test]
fn delete_moves_later_entries_up() {
    let mut filter = DltFilter::init(4);
    filter.add(&id(b"A"), &id(b"1")).unwrap();
    filter.add(&id(b"B"), &id(b"2")).unwrap();
    filter.add(&id(b"C"), &id(b"3")).unwrap();
    assert_eq!(filter.delete(&id(b"X"), &id(b"1")), Err(DltFilterError::NotFound));
    assert_eq!(filter.counter, 3);
    assert_eq!(filter.delete(&id(b"A"), &id(b"1")), Ok(()));
    assert_eq!(filter.counter, 2);
    assert_eq!(filter.apid, vec![id(b"B"), id(b"C")]);
    assert_eq!(filter.ctid, vec![id(b"2"), id(b"3")]);
    assert_eq!(filter.find(&id(b"C"), &id(b"3")), Ok(1));
    assert_eq!(filter.delete(&id(b"A"), &id(b"1")), Err(DltFilterError::NotFound));
    assert_eq!(filter.add(&id(b"A"), &id(b"1")), Ok(2));
    filter.free();
    assert_eq!(filter.counter, 0);
    assert_eq!(filter.capacity, 4);
    assert_eq!(filter.find(&id(b"B"), &id(b"2")), Err(DltFilterError::NotFound));
}
