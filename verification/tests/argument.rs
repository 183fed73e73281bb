use dlt_sys::dlt_argument::{
    dlt_message_argument_read, DltArgument, DltArgumentError, DltArgumentValue,
};
use dlt_sys::dlt_common::{
    dlt_set_id, DltExtendedHeader, DltMessage, DltStandardHeaderExtra, DltStorageHeader,
};
use dlt_sys::dlt_print::{dlt_message_payload, dlt_print_mixed_string, DltOutput};
use dlt_sys::dlt_protocol::DltArgumentKind;
use dlt_sys::dlt_types::DltLogLevelType;
use dlt_sys::dlt_user::{
    dlt_user_log_write_bool, dlt_user_log_write_int16, dlt_user_log_write_int32,
    dlt_user_log_write_int64, dlt_user_log_write_int8, dlt_user_log_write_raw,
    dlt_user_log_write_start, dlt_user_log_write_string, dlt_user_log_write_uint16,
    dlt_user_log_write_uint32, dlt_user_log_write_uint64, dlt_user_log_write_uint8,
    dlt_user_log_write_utf8_string, DltContext,
};

fn read_all(payload: &[u8], msbf: bool) -> Vec<DltArgument> {
    let mut at = 0;
    let mut args = Vec::new();
    while at < payload.len() {
        let (arg, next) = dlt_message_argument_read(payload, at, msbf).unwrap();
        assert!(next > at);
        args.push(arg);
        at = next;
    }
    args
}

#[test]
fn written_arguments_read_back() {
    let ctx = DltContext {
        contextID: dlt_set_id(b"CTX1"),
        log_level_pos: 0,
        log_level_ptr: Some(6),
        trace_status_ptr: None,
        mcnt: 0,
    };
    let mut log = dlt_user_log_write_start(Some(&ctx), DltLogLevelType::DLT_LOG_INFO).unwrap();
    dlt_user_log_write_string(&mut log, b"Hello from Rust");
    dlt_user_log_write_utf8_string(&mut log, "gr\u{fc}n".as_bytes());
    dlt_user_log_write_raw(&mut log, &[1, 2, 3]);
    dlt_user_log_write_bool(&mut log, 1);
    dlt_user_log_write_bool(&mut log, 0);
    dlt_user_log_write_uint8(&mut log, 200);
    dlt_user_log_write_uint16(&mut log, 60000);
    dlt_user_log_write_uint32(&mut log, 4_000_000_000);
    dlt_user_log_write_uint64(&mut log, u64::MAX - 1);
    dlt_user_log_write_int8(&mut log, -128);
    dlt_user_log_write_int16(&mut log, -2);
    dlt_user_log_write_int32(&mut log, i32::MIN);
    dlt_user_log_write_int64(&mut log, i64::MIN);
    dlt_user_log_write_int64(&mut log, 77);
    let args = read_all(&log.buffer, false);
    assert_eq!(args.len() as i32, log.args_num);
    let values: Vec<DltArgumentValue> = args.iter().map(|a| a.value.clone()).collect();
    assert_eq!(
        values,
        vec![
            DltArgumentValue::Text(b"Hello from Rust\0".to_vec()),
            DltArgumentValue::Text(b"gr\xc3\xbcn\0".to_vec()),
            DltArgumentValue::Raw(vec![1, 2, 3]),
            DltArgumentValue::Bool(true),
            DltArgumentValue::Bool(false),
            DltArgumentValue::Uint(200),
            DltArgumentValue::Uint(60000),
            DltArgumentValue::Uint(4_000_000_000),
            DltArgumentValue::Uint(u64::MAX - 1),
            DltArgumentValue::Sint(-128),
            DltArgumentValue::Sint(-2),
            DltArgumentValue::Sint(i32::MIN as i64),
            DltArgumentValue::Sint(i64::MIN),
            DltArgumentValue::Sint(77),
        ]
    );
    assert_eq!(args[0].info.kind, DltArgumentKind::String);
    assert_eq!(args[0].info.scod, 0);
    assert_eq!(args[1].info.scod, 1);
    assert_eq!(args[2].info.kind, DltArgumentKind::Raw);
    assert_eq!(args[7].info.width, 32);
    assert_eq!(args[12].info.width, 64);
}

#[test]
fn most_significant_byte_first_arguments() {
    let payload = [
        0, 0, 0, 0x42, 0x12, 0x34, // unsigned 16 bit
        0, 0, 0, 0x24, 0xff, 0xff, 0xff, 0xff, 0xff, 0xff, 0xff, 0xfe, // signed 64 bit
        0, 0, 2, 0, 0, 2, b'o', b'k', // string
        0, 0, 0, 0x83, 0x3f, 0x80, 0, 0, // float 32 bit
    ];
    let values: Vec<DltArgumentValue> =
        read_all(&payload, true).into_iter().map(|a| a.value).collect();
    assert_eq!(
        values,
        vec![
            DltArgumentValue::Uint(0x1234),
            DltArgumentValue::Sint(-2),
            DltArgumentValue::Text(b"ok".to_vec()),
            DltArgumentValue::Float(0x3f80_0000),
        ]
    );
    assert_eq!(
        dlt_message_argument_read(&payload, 0, false),
        Err(DltArgumentError::Malformed)
    );
}

#[test]
fn argument_errors() {
    assert_eq!(dlt_message_argument_read(&[], 0, false), Err(DltArgumentError::Incomplete));
    assert_eq!(dlt_message_argument_read(&[0x43, 0, 0], 0, false), Err(DltArgumentError::Incomplete));
    assert_eq!(
        dlt_message_argument_read(&[0x43, 0, 0, 0, 1, 2, 3], 0, false),
        Err(DltArgumentError::Incomplete)
    );
    assert_eq!(
        dlt_message_argument_read(&[0x00, 0x02, 0, 0, 3], 0, false),
        Err(DltArgumentError::Incomplete)
    );
    assert_eq!(
        dlt_message_argument_read(&[0x00, 0x02, 0, 0, 3, 0, b'a', b'b'], 0, false),
        Err(DltArgumentError::Incomplete)
    );
    assert_eq!(
        dlt_message_argument_read(&[0x60, 0, 0, 0, 1], 0, false),
        Err(DltArgumentError::Malformed)
    );
    assert_eq!(
        dlt_message_argument_read(&[0x00, 0, 0, 0, 1], 0, false),
        Err(DltArgumentError::Malformed)
    );
    assert_eq!(
        dlt_message_argument_read(&[0x40, 0, 0, 0, 1], 0, false),
        Err(DltArgumentError::Malformed)
    );
    assert_eq!(
        dlt_message_argument_read(&[0x45, 0, 0, 0, 1], 0, false),
        Err(DltArgumentError::Unsupported)
    );
    assert_eq!(
        dlt_message_argument_read(&[0x43, 0x01, 0, 0, 1], 0, false),
        Err(DltArgumentError::Unsupported)
    );
    assert_eq!(
        dlt_message_argument_read(&[0x00, 0x40, 0, 0, 1], 0, false),
        Err(DltArgumentError::Unsupported)
    );
    assert_eq!(
        dlt_message_argument_read(&[0x43, 0x08, 0, 0, 1], 0, false),
        Err(DltArgumentError::Unsupported)
    );
    let (arg, next) = dlt_message_argument_read(&[9, 9, 0x41, 0, 0, 0, 5, 9], 2, false).unwrap();
    assert_eq!(arg.value, DltArgumentValue::Uint(5));
    assert_eq!(next, 7);
}

#[test]
fn mixed_text_lines() {
    let data: Vec<u8> = (0x40..0x52).collect();
    let (text, cut) = dlt_print_mixed_string(&data, 1000, false);
    assert!(!cut);
    let expected = "000000: 40 41 42 43 44 45 46 47 48 49 4a 4b 4c 4d 4e 4f @ABCDEFGHIJKLMNO\n\
                    000010: 50 51                                           PQ";
    assert_eq!(String::from_utf8(text).unwrap(), expected);
    let (html, cut) = dlt_print_mixed_string(&data[..16], 1000, true);
    assert!(!cut);
    assert_eq!(
        String::from_utf8(html).unwrap(),
        "000000: 40 41 42 43 44 45 46 47 48 49 4a 4b 4c 4d 4e 4f @ABCDEFGHIJKLMNO<BR>"
    );
    assert_eq!(dlt_print_mixed_string(&[], 10, false), (vec![], false));
    let (one, cut) = dlt_print_mixed_string(&[0x3c], 1000, true);
    assert!(!cut);
    assert_eq!(one.len(), 8 + 2 + 45 + 1 + 1);
    assert_eq!(&one[..10], b"000000: 3c");
    assert_eq!(one[one.len() - 1], b'.');
}

#[test]
fn mixed_text_is_cut_to_size() {
    let data: Vec<u8> = (0..40).collect();
    let (full, cut) = dlt_print_mixed_string(&data, 10_000, false);
    assert!(!cut);
    assert_eq!(full.len(), 2 * (8 + 47 + 1 + 16 + 1) + 8 + 47 + 1 + 8);
    for size in [0, 1, 7, 8, 72, 73, 74, 145, 146, 147, full.len() - 1] {
        let (text, cut) = dlt_print_mixed_string(&data, size, false);
        assert!(cut);
        assert_eq!(text, full[..size].to_vec());
    }
    assert_eq!(dlt_print_mixed_string(&data, full.len(), false), (full.clone(), false));
    let (line3, _) = dlt_print_mixed_string(&data, 146 + 8, false);
    assert_eq!(&line3[146..], b"000020: ");
}

#[test]
fn payload_text_leaves_message_alone() {
    let msg = DltMessage::compose(
        DltStorageHeader::empty(),
        0x20,
        0,
        DltStandardHeaderExtra::empty(),
        DltExtendedHeader::empty(),
        b"A<\x01".to_vec(),
    )
    .unwrap();
    let before = msg.clone();
    assert_eq!(dlt_message_payload(&msg, 100, DltOutput::Hex), (b"41 3c 01".to_vec(), false));
    assert_eq!(dlt_message_payload(&msg, 4, DltOutput::Hex), (b"41 3".to_vec(), true));
    assert_eq!(dlt_message_payload(&msg, 100, DltOutput::Ascii), (b"A.-".to_vec(), false));
    assert_eq!(dlt_message_payload(&msg, 2, DltOutput::Ascii), (b"A.".to_vec(), true));
    let (plain, _) = dlt_message_payload(&msg, 100, DltOutput::MixedPlain);
    let (html, _) = dlt_message_payload(&msg, 100, DltOutput::MixedHtml);
    assert_eq!(plain, html);
    assert_eq!(&plain[..16], b"000000: 41 3c 01");
    assert_eq!(&plain[plain.len() - 4..], b" A.-");
    assert_eq!(msg, before);
}
