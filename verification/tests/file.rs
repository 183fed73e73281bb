use dlt_sys::dlt_common::{
    dlt_set_id, dlt_set_storageheader, DltExtendedHeader, DltMessage, DltStandardHeaderExtra,
};
use dlt_sys::dlt_file::{DltFile, DltFileRead, DltFileState};
use dlt_sys::dlt_filter::DltFilter;
use dlt_sys::dlt_message::dlt_htyp;
use dlt_sys::dlt_types::DltReturnValue;

fn message(apid: &[u8], ctid: &[u8], payload: &[u8]) -> DltMessage {
    DltMessage::compose(
        dlt_set_storageheader(b"ECU1", 1, 2),
        dlt_htyp(true, false, false, false, true),
        0,
        DltStandardHeaderExtra { ecu: [0; 4], seid: 0, tmsp: 77 },
        DltExtendedHeader { msin: 0x41, noar: 0, apid: dlt_set_id(apid), ctid: dlt_set_id(ctid) },
        payload.to_vec(),
    )
    .unwrap()
}

fn ten_messages() -> Vec<DltMessage> {
    (0..10u8)
        .map(|i| {
            let apid: &[u8] = if i % 4 == 1 { b"APP1" } else { b"OTHR" };
            message(apid, b"CTX1", &vec![i; i as usize])
        })
        .collect()
}

fn filter_app1() -> DltFilter {
    let mut filter = DltFilter::init(30);
    filter.add(&dlt_set_id(b"APP1"), &dlt_set_id(b"")).unwrap();
    filter
}

fn concat(messages: &[DltMessage]) -> Vec<u8> {
    let mut data = Vec::new();
    for m in messages {
        data.extend_from_slice(&m.encode_stored().unwrap());
    }
    data
}

fn scan(file: &mut DltFile) -> Vec<DltFileRead> {
    let mut results = Vec::new();
    loop {
        let r = file.read_next();
        results.push(r);
        if r == DltFileRead::EndOfInput || r == DltFileRead::Error {
            return results;
        }
    }
}

#[test]
fn states_follow_the_session() {
    let mut file = DltFile::init();
    assert_eq!(file.state, DltFileState::Unopened);
    let before = file.clone();
    assert_eq!(file.read_next(), DltFileRead::Error);
    assert_eq!(file.message(0), DltReturnValue::DLT_RETURN_ERROR);
    assert_eq!(file.close(), DltReturnValue::DLT_RETURN_ERROR);
    assert_eq!(file, before);
    assert_eq!(file.open(concat(&ten_messages()[..2])), DltReturnValue::DLT_RETURN_OK);
    assert_eq!(file.state, DltFileState::Opened);
    assert_eq!(file.read_next(), DltFileRead::Matched);
    assert_eq!(file.state, DltFileState::Reading);
    assert_eq!(file.read_next(), DltFileRead::Matched);
    assert_eq!(file.state, DltFileState::Reading);
    assert_eq!(file.read_next(), DltFileRead::EndOfInput);
    assert_eq!(file.state, DltFileState::Idle);
    assert_eq!(file.read_next(), DltFileRead::EndOfInput);
    assert_eq!(file.state, DltFileState::Idle);
    assert_eq!(file.error_messages, 0);
    assert_eq!(file.close(), DltReturnValue::DLT_RETURN_OK);
    assert_eq!(file.state, DltFileState::Closed);
    assert_eq!(file.read_next(), DltFileRead::Error);
    assert_eq!(file.close(), DltReturnValue::DLT_RETURN_ERROR);
    assert_eq!(file.counter_total, 2);
}

#[test]
fn counters_ten_messages_three_match() {
    let messages = ten_messages();
    let mut file = DltFile::init();
    assert_eq!(file.set_filter(Some(filter_app1())), DltReturnValue::DLT_RETURN_OK);
    file.open(concat(&messages));
    let results = scan(&mut file);
    assert_eq!(results.len(), 11);
    for (i, r) in results.iter().take(10).enumerate() {
        let expected = if i % 4 == 1 { DltFileRead::Matched } else { DltFileRead::Filtered };
        assert_eq!(*r, expected);
    }
    assert_eq!(results[10], DltFileRead::EndOfInput);
    assert_eq!(file.counter_total, 10);
    assert_eq!(file.counter, 3);
    assert_eq!(file.error_messages, 0);
    assert_eq!(file.index.len(), 3);
    assert_eq!(file.file_position, file.file_length);
    assert_eq!(file.msg, messages[9]);
}

#[test]
fn corrupted_message_is_counted_once_and_left_out() {
    let messages = ten_messages();
    let mut data = concat(&messages[..4]);
    let mut corrupted = message(b"APP1", b"CTX1", b"broken").encode_stored().unwrap();
    corrupted[1] = b'l';
    data.extend_from_slice(&corrupted);
    data.extend_from_slice(&concat(&messages[4..]));
    let mut file = DltFile::init();
    file.set_filter(Some(filter_app1()));
    file.open(data);
    let results = scan(&mut file);
    assert_eq!(results.len(), 11);
    assert_eq!(file.counter_total, 10);
    assert_eq!(file.counter, 3);
    assert_eq!(file.error_messages, 1);
}

#[test]
fn truncated_tail_is_counted_as_malformed() {
    let messages = ten_messages();
    let mut data = concat(&messages[..3]);
    let last = messages[5].encode_stored().unwrap();
    data.extend_from_slice(&last[..last.len() - 1]);
    let mut file = DltFile::init();
    file.open(data);
    assert_eq!(
        scan(&mut file),
        vec![
            DltFileRead::Matched,
            DltFileRead::Matched,
            DltFileRead::Matched,
            DltFileRead::EndOfInput
        ]
    );
    assert_eq!(file.counter_total, 3);
    assert_eq!(file.counter, 3);
    assert_eq!(file.error_messages, 1);
    assert_eq!(file.file_position, file.file_length);
}

#[test]
fn garbage_between_messages() {
    let messages = ten_messages();
    let mut data = b"junk".to_vec();
    data.extend_from_slice(&concat(&messages[..1]));
    data.extend_from_slice(b"DLT");
    data.extend_from_slice(&concat(&messages[1..2]));
    let mut file = DltFile::init();
    file.open(data);
    assert_eq!(file.read_next(), DltFileRead::Matched);
    assert_eq!(file.error_messages, 1);
    assert_eq!(file.index, vec![4]);
    assert_eq!(file.msg, messages[0]);
    assert_eq!(file.read_next(), DltFileRead::Matched);
    assert_eq!(file.error_messages, 2);
    assert_eq!(file.msg, messages[1]);
    assert_eq!(file.position, 1);
    assert_eq!(file.read_next(), DltFileRead::EndOfInput);
    assert_eq!(file.error_messages, 2);
    assert_eq!(file.counter_total, 2);
}

#[test]
fn empty_source_and_empty_filter() {
    let mut file = DltFile::init();
    file.open(vec![]);
    assert_eq!(file.read_next(), DltFileRead::EndOfInput);
    assert_eq!(file.error_messages, 0);
    let mut file = DltFile::init();
    file.set_filter(Some(DltFilter::init(30)));
    file.open(concat(&ten_messages()));
    scan(&mut file);
    assert_eq!(file.counter_total, 10);
    assert_eq!(file.counter, 0);
}

#[test]
fn message_by_index_builds_index_lazily() {
    let messages = ten_messages();
    let mut file = DltFile::init();
    file.set_filter(Some(filter_app1()));
    file.open(concat(&messages));
    assert_eq!(file.message(1), DltReturnValue::DLT_RETURN_OK);
    assert_eq!(file.msg, messages[5]);
    assert_eq!(file.position, 1);
    assert_eq!(file.index.len(), 2);
    assert_eq!(file.counter_total, 6);
    assert_eq!(file.message(0), DltReturnValue::DLT_RETURN_OK);
    assert_eq!(file.msg, messages[1]);
    assert_eq!(file.position, 0);
    assert_eq!(file.index.len(), 2);
    assert_eq!(file.counter_total, 6);
    assert_eq!(file.message(2), DltReturnValue::DLT_RETURN_OK);
    assert_eq!(file.msg, messages[9]);
    assert_eq!(file.message(3), DltReturnValue::DLT_RETURN_WRONG_PARAMETER);
    assert_eq!(file.index.len(), 3);
    assert_eq!(file.file_position, file.file_length);
    assert_eq!(file.counter_total, 10);
}

#[test]
fn reopen_clears_counters_and_index() {
    let messages = ten_messages();
    let mut file = DltFile::init();
    file.open(concat(&messages));
    scan(&mut file);
    assert_eq!(file.counter, 10);
    file.open(concat(&messages[..1]));
    assert_eq!(file.counter, 0);
    assert_eq!(file.counter_total, 0);
    assert_eq!(file.index.len(), 0);
    assert_eq!(file.file_position, 0);
    assert_eq!(file.state, DltFileState::Opened);
    assert_eq!(file.message(0), DltReturnValue::DLT_RETURN_OK);
    assert_eq!(file.message(1), DltReturnValue::DLT_RETURN_WRONG_PARAMETER);
}
