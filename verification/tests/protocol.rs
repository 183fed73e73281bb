use dlt_sys::dlt_protocol::{
    dlt_tyle_width, dlt_type_info_decode, DltArgumentKind, DltTypeInfo, DLT_GET_MSIN_MSTP,
    DLT_GET_MSIN_MTIN, DLT_HTYP_PROTOCOL_VERSION1, DLT_HTYP_VERS, DLT_IS_HTYP_MSBF,
    DLT_IS_HTYP_UEH, DLT_IS_HTYP_WEID, DLT_IS_HTYP_WSID, DLT_IS_HTYP_WTMS, DLT_IS_MSIN_VERB,
    DLT_MSIN_CONTROL_REQUEST, DLT_MSIN_CONTROL_RESPONSE, DLT_MSIN_CONTROL_TIME, DLT_SCOD_UTF8,
    DLT_TYPE_CONTROL, DLT_TYPE_INFO_STRG, DLT_TYPE_INFO_UINT, DLT_TYLE_32BIT,
};
use dlt_sys::dlt_print::{dlt_print_char_string, dlt_print_hex_string};
use dlt_sys::dlt_types::{
    DltFormatType, DltLogLevelType, DltNetworkTraceType, DltReturnValue, DltTraceStatusType,
    DltUserLogMode, UINT16_MAX,
};
use dlt_sys::dlt_bytes::{
    i16_to_bits, i32_from_bits, i32_to_bits, i64_to_bits, i8_to_bits, push_u16_be, push_u16_le,
    push_u32, push_u64_le, read_u16_be, read_u32,
};

#[test]
fn header_type_bits() {
    assert_eq!(DLT_IS_HTYP_UEH(0x35), 0x01);
    assert_eq!(DLT_IS_HTYP_UEH(0x34), 0);
    assert_eq!(DLT_IS_HTYP_MSBF(0x22), 0x02);
    assert_eq!(DLT_IS_HTYP_MSBF(0x21), 0);
    assert_eq!(DLT_IS_HTYP_WEID(0x24), 0x04);
    assert_eq!(DLT_IS_HTYP_WEID(0x3b), 0);
    assert_eq!(DLT_IS_HTYP_WSID(0x28), 0x08);
    assert_eq!(DLT_IS_HTYP_WSID(0x37), 0);
    assert_eq!(DLT_IS_HTYP_WTMS(0x30), 0x10);
    assert_eq!(DLT_IS_HTYP_WTMS(0x2f), 0);
    assert_eq!(DLT_IS_HTYP_UEH(-1), 1);
    assert_eq!(0x35 & DLT_HTYP_VERS, DLT_HTYP_PROTOCOL_VERSION1);
}

#[test]
fn message_info_fields() {
    assert_eq!(DLT_IS_MSIN_VERB(0x41), 1);
    assert_eq!(DLT_IS_MSIN_VERB(0x40), 0);
    assert_eq!(DLT_GET_MSIN_MSTP(0x41), 0);
    assert_eq!(DLT_GET_MSIN_MSTP(0x26), DLT_TYPE_CONTROL);
    assert_eq!(DLT_GET_MSIN_MSTP(0xff), 7);
    assert_eq!(DLT_GET_MSIN_MTIN(0x41), 4);
    assert_eq!(DLT_GET_MSIN_MTIN(0xff), 15);
    assert_eq!(DLT_GET_MSIN_MTIN(DLT_MSIN_CONTROL_REQUEST), 1);
    assert_eq!(DLT_GET_MSIN_MTIN(DLT_MSIN_CONTROL_RESPONSE), 2);
    assert_eq!(DLT_GET_MSIN_MTIN(DLT_MSIN_CONTROL_TIME), 3);
    assert_eq!(DLT_GET_MSIN_MSTP(DLT_MSIN_CONTROL_TIME), 3);
}

#[test]
fn return_value_codes() {
    let all = [
        (DltReturnValue::DLT_RETURN_LOGGING_DISABLED, -7),
        (DltReturnValue::DLT_RETURN_USER_BUFFER_FULL, -6),
        (DltReturnValue::DLT_RETURN_WRONG_PARAMETER, -5),
        (DltReturnValue::DLT_RETURN_BUFFER_FULL, -4),
        (DltReturnValue::DLT_RETURN_PIPE_FULL, -3),
        (DltReturnValue::DLT_RETURN_PIPE_ERROR, -2),
        (DltReturnValue::DLT_RETURN_ERROR, -1),
        (DltReturnValue::DLT_RETURN_OK, 0),
        (DltReturnValue::DLT_RETURN_TRUE, 1),
    ];
    for (value, code) in all {
        assert_eq!(i32::from(value), code);
    }
    assert_eq!(UINT16_MAX, 65535);
}

#[test]
fn enum_codes() {
    assert_eq!(i32::from(DltLogLevelType::DLT_LOG_DEFAULT), -1);
    assert_eq!(i32::from(DltLogLevelType::DLT_LOG_OFF), 0);
    assert_eq!(i32::from(DltLogLevelType::DLT_LOG_FATAL), 1);
    assert_eq!(i32::from(DltLogLevelType::DLT_LOG_ERROR), 2);
    assert_eq!(i32::from(DltLogLevelType::DLT_LOG_WARN), 3);
    assert_eq!(i32::from(DltLogLevelType::DLT_LOG_INFO), 4);
    assert_eq!(i32::from(DltLogLevelType::DLT_LOG_DEBUG), 5);
    assert_eq!(i32::from(DltLogLevelType::DLT_LOG_VERBOSE), 6);
    assert_eq!(i32::from(DltLogLevelType::DLT_LOG_MAX), 7);
    assert_eq!(i32::from(DltFormatType::DLT_FORMAT_DEFAULT), 0);
    assert_eq!(i32::from(DltFormatType::DLT_FORMAT_HEX8), 1);
    assert_eq!(i32::from(DltFormatType::DLT_FORMAT_HEX16), 2);
    assert_eq!(i32::from(DltFormatType::DLT_FORMAT_HEX32), 3);
    assert_eq!(i32::from(DltFormatType::DLT_FORMAT_HEX64), 4);
    assert_eq!(i32::from(DltFormatType::DLT_FORMAT_BIN8), 5);
    assert_eq!(i32::from(DltFormatType::DLT_FORMAT_BIN16), 6);
    assert_eq!(i32::from(DltFormatType::DLT_FORMAT_MAX), 7);
    assert_eq!(i32::from(DltTraceStatusType::DLT_TRACE_STATUS_DEFAULT), -1);
    assert_eq!(i32::from(DltTraceStatusType::DLT_TRACE_STATUS_OFF), 0);
    assert_eq!(i32::from(DltTraceStatusType::DLT_TRACE_STATUS_ON), 1);
    assert_eq!(i32::from(DltTraceStatusType::DLT_TRACE_STATUS_MAX), 2);
    assert_eq!(i32::from(DltNetworkTraceType::DLT_NW_TRACE_IPC), 1);
    assert_eq!(i32::from(DltNetworkTraceType::DLT_NW_TRACE_CAN), 2);
    assert_eq!(i32::from(DltNetworkTraceType::DLT_NW_TRACE_FLEXRAY), 3);
    assert_eq!(i32::from(DltNetworkTraceType::DLT_NW_TRACE_MOST), 4);
    assert_eq!(i32::from(DltNetworkTraceType::DLT_NW_TRACE_RESERVED0), 5);
    assert_eq!(i32::from(DltNetworkTraceType::DLT_NW_TRACE_RESERVED2), 7);
    assert_eq!(i32::from(DltNetworkTraceType::DLT_NW_TRACE_USER_DEFINED0), 8);
    assert_eq!(i32::from(DltNetworkTraceType::DLT_NW_TRACE_USER_DEFINED7), 15);
    assert_eq!(i32::from(DltNetworkTraceType::DLT_NW_TRACE_MAX), 16);
    assert_eq!(i32::from(DltUserLogMode::DLT_USER_MODE_UNDEFINED), -1);
    assert_eq!(i32::from(DltUserLogMode::DLT_USER_MODE_OFF), 0);
    assert_eq!(i32::from(DltUserLogMode::DLT_USER_MODE_EXTERNAL), 1);
    assert_eq!(i32::from(DltUserLogMode::DLT_USER_MODE_INTERNAL), 2);
    assert_eq!(i32::from(DltUserLogMode::DLT_USER_MODE_BOTH), 3);
    assert_eq!(i32::from(DltUserLogMode::DLT_USER_MODE_MAX), 4);
}

#[test]
fn type_info_widths() {
    assert_eq!(dlt_tyle_width(0), 0);
    assert_eq!(dlt_tyle_width(1), 8);
    assert_eq!(dlt_tyle_width(2), 16);
    assert_eq!(dlt_tyle_width(3), 32);
    assert_eq!(dlt_tyle_width(4), 64);
    assert_eq!(dlt_tyle_width(5), 128);
    assert_eq!(dlt_tyle_width(6), 0);
    for (tyle, width) in [(1u32, 8u8), (2, 16), (3, 32), (4, 64), (5, 128)] {
        let info = dlt_type_info_decode(0x40 | tyle).unwrap();
        assert_eq!(info.kind, DltArgumentKind::Uint);
        assert_eq!(info.width, width);
    }
}

#[test]
fn type_info_kinds() {
    let plain = |kind, width| DltTypeInfo {
        kind,
        width,
        array: false,
        vari: false,
        fixp: false,
        trai: false,
        scod: 0,
    };
    assert_eq!(dlt_type_info_decode(0x11), Ok(plain(DltArgumentKind::Bool, 8)));
    assert_eq!(dlt_type_info_decode(0x23), Ok(plain(DltArgumentKind::Sint, 32)));
    assert_eq!(
        dlt_type_info_decode((DLT_TYPE_INFO_UINT | DLT_TYLE_32BIT) as u32),
        Ok(plain(DltArgumentKind::Uint, 32))
    );
    assert_eq!(dlt_type_info_decode(0x84), Ok(plain(DltArgumentKind::Float, 64)));
    assert_eq!(dlt_type_info_decode(0x200), Ok(plain(DltArgumentKind::String, 0)));
    assert_eq!(dlt_type_info_decode(0x203), Ok(plain(DltArgumentKind::String, 0)));
    assert_eq!(dlt_type_info_decode(0x400), Ok(plain(DltArgumentKind::Raw, 0)));
    assert_eq!(dlt_type_info_decode(0x4000), Ok(plain(DltArgumentKind::Struct, 0)));
    let utf8 = dlt_type_info_decode((DLT_TYPE_INFO_STRG | DLT_SCOD_UTF8) as u32).unwrap();
    assert_eq!(utf8.scod, 1);
    assert_eq!(dlt_type_info_decode(0x18200).unwrap().scod, 3);
    let flags = dlt_type_info_decode(0x43 | 0x100 | 0x800 | 0x1000 | 0x2000).unwrap();
    assert!(flags.array && flags.vari && flags.fixp && flags.trai);
    assert_eq!(flags.width, 32);
}

#[test]
fn type_info_malformed() {
    let error = Err(DltReturnValue::DLT_RETURN_ERROR);
    assert_eq!(dlt_type_info_decode(0), error);
    assert_eq!(dlt_type_info_decode(0x03), error);
    assert_eq!(dlt_type_info_decode(0x100), error);
    assert_eq!(dlt_type_info_decode(0x10 | 0x20 | 1), error);
    assert_eq!(dlt_type_info_decode(0x40 | 0x200 | 1), error);
    assert_eq!(dlt_type_info_decode(0x200 | 0x400), error);
    assert_eq!(dlt_type_info_decode(0x4000 | 0x80 | 3), error);
    assert_eq!(dlt_type_info_decode(0x40), error);
    assert_eq!(dlt_type_info_decode(0x46), error);
    assert_eq!(dlt_type_info_decode(0x4f), error);
    assert_eq!(dlt_type_info_decode(0xffff_ffff), error);
}

#[test]
fn hex_text() {
    assert_eq!(dlt_print_hex_string(&[], 10), (vec![], false));
    assert_eq!(dlt_print_hex_string(&[0x00, 0xab, 0x9f], 8), (b"00 ab 9f".to_vec(), false));
    assert_eq!(dlt_print_hex_string(&[0x00, 0xab, 0x9f], 100), (b"00 ab 9f".to_vec(), false));
    assert_eq!(dlt_print_hex_string(&[0x00, 0xab, 0x9f], 7), (b"00 ab 9".to_vec(), true));
    assert_eq!(dlt_print_hex_string(&[0x00, 0xab, 0x9f], 6), (b"00 ab ".to_vec(), true));
    assert_eq!(dlt_print_hex_string(&[0x00, 0xab, 0x9f], 5), (b"00 ab".to_vec(), true));
    assert_eq!(dlt_print_hex_string(&[0x00, 0xab, 0x9f], 1), (b"0".to_vec(), true));
    assert_eq!(dlt_print_hex_string(&[0x00, 0xab, 0x9f], 0), (vec![], true));
    assert_eq!(dlt_print_hex_string(&[0xff], 2), (b"ff".to_vec(), false));
}

#[test]
fn char_text() {
    assert_eq!(dlt_print_char_string(b"", 0), (vec![], false));
    assert_eq!(dlt_print_char_string(b"a<b>\x00\x1f ~\x7f\xff", 100), (b"a.b>-- ~--".to_vec(), false));
    assert_eq!(dlt_print_char_string(b"abcdef", 6), (b"abcdef".to_vec(), false));
    assert_eq!(dlt_print_char_string(b"abcdef", 5), (b"abcde".to_vec(), true));
    assert_eq!(dlt_print_char_string(b"abcdef", 0), (vec![], true));
}

#[test]
fn byte_orders() {
    let mut out = Vec::new();
    push_u16_be(&mut out, 0x1234);
    push_u16_le(&mut out, 0x1234);
    push_u32(&mut out, 0x0102_0304, true);
    push_u32(&mut out, 0x0102_0304, false);
    push_u64_le(&mut out, 0x1122_3344_5566_7788);
    assert_eq!(
        out,
        vec![
            0x12, 0x34, 0x34, 0x12, 1, 2, 3, 4, 4, 3, 2, 1, 0x88, 0x77, 0x66, 0x55, 0x44, 0x33,
            0x22, 0x11
        ]
    );
    assert_eq!(read_u16_be(&out, 0), 0x1234);
    assert_eq!(read_u16_be(&out, 2), 0x3412);
    assert_eq!(read_u32(&out, 4, true), 0x0102_0304);
    assert_eq!(read_u32(&out, 4, false), 0x0403_0201);
    assert_eq!(read_u32(&out, 8, false), 0x0102_0304);
    assert_eq!(i32_to_bits(-1), 0xffff_ffff);
    assert_eq!(i32_to_bits(i32::MIN), 0x8000_0000);
    assert_eq!(i32_to_bits(5), 5);
    assert_eq!(i32_from_bits(0xffff_fffb), -5);
    assert_eq!(i32_from_bits(0x7fff_ffff), i32::MAX);
    assert_eq!(i32_from_bits(0x8000_0000), i32::MIN);
    assert_eq!(i8_to_bits(-128), 0x80);
    assert_eq!(i16_to_bits(-1), 0xffff);
    assert_eq!(i64_to_bits(i64::MIN), 0x8000_0000_0000_0000);
}

#[test]
fn items_at_the_crate_root() {
    let filter = dlt_sys::DltFilter::init(1);
    assert_eq!(filter.counter, 0);
    assert_eq!(dlt_sys::DLT_IS_HTYP_UEH(1), 1);
    assert_eq!(
        dlt_sys::dlt_user_is_logLevel_enabled(None, dlt_sys::DltLogLevelType::DLT_LOG_INFO),
        dlt_sys::DltReturnValue::DLT_RETURN_WRONG_PARAMETER
    );
    assert_eq!(dlt_sys::DltStandardHeader { htyp: 0x20, mcnt: 0, len: 4 }.len, 4);
}
