use dlt_sys::dlt_buffer::DltBuffer;
use dlt_sys::dlt_common::{dlt_set_id, dlt_set_storageheader, DltExtendedHeader, DltMessage, DltStandardHeaderExtra};
use dlt_sys::dlt_file::DltFile;
use dlt_sys::dlt_filter::DltFilter;
use dlt_sys::dlt_receiver::DltReceiver;
use dlt_sys::dlt_types::DltLogLevelType;
use dlt_sys::dlt_user::{dlt_env_ll_set, dlt_user_log_write_start, DltContext, DltUser};

#[test]
fn filter_validity() {
    let mut filter = DltFilter::init(2);
    assert!(filter.is_wf());
    filter.add(&dlt_set_id(b"A"), &dlt_set_id(b"B")).unwrap();
    filter.add(&dlt_set_id(b"A"), &dlt_set_id(b"C")).unwrap();
    assert!(filter.is_wf());
    let mut twice = filter.clone();
    twice.ctid[1] = twice.ctid[0];
    assert!(!twice.is_wf());
    let mut miscounted = filter.clone();
    miscounted.counter = 1;
    assert!(!miscounted.is_wf());
    let mut crowded = filter.clone();
    crowded.capacity = 1;
    assert!(!crowded.is_wf());
}

#[test]
fn receiver_validity() {
    let mut receiver = DltReceiver::init(0, 8);
    assert!(receiver.is_wf());
    receiver.receive(b"abc");
    assert!(receiver.is_wf());
    let mut beyond = receiver.clone();
    beyond.bytesRcvd = 9;
    assert!(!beyond.is_wf());
    let mut shifted = receiver.clone();
    shifted.buf = 6;
    assert!(!shifted.is_wf());
    let mut resized = receiver.clone();
    resized.buffersize = 7;
    assert!(!resized.is_wf());
}

#[test]
fn file_validity() {
    let msg = DltMessage::compose(
        dlt_set_storageheader(b"ECU1", 0, 0),
        0x20,
        0,
        DltStandardHeaderExtra::empty(),
        DltExtendedHeader::empty(),
        b"data".to_vec(),
    )
    .unwrap();
    let mut file = DltFile::init();
    assert!(file.is_wf());
    let mut data = b"xx".to_vec();
    data.extend_from_slice(&msg.encode_stored().unwrap());
    file.open(data);
    file.read_next();
    assert!(file.is_wf());
    assert_eq!(file.index, vec![2]);
    let mut wrong_index = file.clone();
    wrong_index.index[0] = 1;
    assert!(!wrong_index.is_wf());
    let mut outside = file.clone();
    outside.index[0] = 1000;
    assert!(!outside.is_wf());
    let mut miscounted = file.clone();
    miscounted.counter_total = 0;
    assert!(!miscounted.is_wf());
    let mut too_many_errors = file.clone();
    too_many_errors.error_messages = file.file_position;
    assert!(!too_many_errors.is_wf());
    let mut shorter = file.clone();
    shorter.file_length -= 1;
    assert!(!shorter.is_wf());
    let mut bad_filter = file.clone();
    let mut filter = DltFilter::init(1);
    filter.counter = 1;
    bad_filter.filter = Some(filter);
    assert!(!bad_filter.is_wf());
}

#[test]
fn session_and_message_data_validity() {
    let mut user = DltUser::init(
        b"ECU",
        5,
        DltBuffer::init_static_server(vec![0; 40]).unwrap(),
        DltReceiver::init(0, 4),
        dlt_env_ll_set { item: vec![] },
    );
    assert!(user.is_wf());
    assert_eq!(user.ecuID, [b'E', b'C', b'U', 0]);
    assert_eq!(user.dlt_ll_ts_max_num_entries, 5);
    user.dlt_ll_ts_num_entries = 1;
    assert!(!user.is_wf());
    user.dlt_ll_ts_num_entries = 0;
    user.receiver.buf = 5;
    assert!(!user.is_wf());
    let capped = DltUser::init(
        b"ECU",
        u32::MAX,
        DltBuffer::init_static_server(vec![0; 40]).unwrap(),
        DltReceiver::init(0, 4),
        dlt_env_ll_set { item: vec![] },
    );
    assert_eq!(capped.dlt_ll_ts_max_num_entries, 0x7fff_ffff);
    let ctx = DltContext {
        contextID: dlt_set_id(b"C"),
        log_level_pos: 0,
        log_level_ptr: Some(4),
        trace_status_ptr: None,
        mcnt: 0,
    };
    let mut log = dlt_user_log_write_start(Some(&ctx), DltLogLevelType::DLT_LOG_FATAL).unwrap();
    assert!(log.is_wf());
    log.size = 1;
    assert!(!log.is_wf());
    log.size = 0;
    log.args_num = -1;
    assert!(!log.is_wf());
}
