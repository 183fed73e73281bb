use dlt_sys::dlt_buffer::DltBuffer;
use dlt_sys::dlt_common::{dlt_set_id, DltExtendedHeader, DltStorageHeader};
use dlt_sys::dlt_message::dlt_message_read;
use dlt_sys::dlt_receiver::DltReceiver;
use dlt_sys::dlt_types::{DltFormatType, DltLogLevelType, DltReturnValue, DltTraceStatusType};
use dlt_sys::dlt_user::{
    dlt_env_adjust_ll_from_env, dlt_env_ll_item, dlt_env_ll_item_get_matching_prio, dlt_env_ll_set,
    dlt_user_is_logLevel_enabled, dlt_user_log_write_bool, dlt_user_log_write_constant_string,
    dlt_user_log_write_finish, dlt_user_log_write_int16, dlt_user_log_write_int32,
    dlt_user_log_write_int64, dlt_user_log_write_int8, dlt_user_log_write_raw,
    dlt_user_log_write_start, dlt_user_log_write_string, dlt_user_log_write_uint16,
    dlt_user_log_write_uint32, dlt_user_log_write_uint64, dlt_user_log_write_uint8,
    dlt_format_bits, dlt_user_log_write_raw_formatted, dlt_user_log_write_uint16_formatted,
    dlt_user_log_write_uint32_formatted, dlt_user_log_write_uint64_formatted,
    dlt_user_log_write_uint8_formatted, dlt_user_log_write_utf8_string, DltContext, DltUser, DltUserInjectionCallback,
    DltUserLogLevelChangedCallback, DLT_USER_BUF_MAX_SIZE, DLT_USER_INJECTION_MIN,
};

fn session(max_contexts: u32, items: Vec<dlt_env_ll_item>) -> DltUser {
    DltUser::init(
        b"ECU1",
        max_contexts,
        DltBuffer::init_static_server(vec![0; 12 + 64]).unwrap(),
        DltReceiver::init(0, 16),
        dlt_env_ll_set { item: items },
    )
}

fn context(level: Option<i8>) -> DltContext {
    DltContext {
        contextID: dlt_set_id(b"TEST"),
        log_level_pos: 0,
        log_level_ptr: level,
        trace_status_ptr: Some(0),
        mcnt: 0,
    }
}

#[test]
fn log_level_enabled_is_tri_state() {
    assert_eq!(dlt_user_is_logLevel_enabled(None, DltLogLevelType::DLT_LOG_INFO), DltReturnValue::DLT_RETURN_WRONG_PARAMETER);
    assert_eq!(
        dlt_user_is_logLevel_enabled(Some(&context(None)), DltLogLevelType::DLT_LOG_INFO),
        DltReturnValue::DLT_RETURN_WRONG_PARAMETER
    );
    let info = context(Some(4));
    for (level, expected) in [
        (DltLogLevelType::DLT_LOG_DEFAULT, DltReturnValue::DLT_RETURN_TRUE),
        (DltLogLevelType::DLT_LOG_OFF, DltReturnValue::DLT_RETURN_LOGGING_DISABLED),
        (DltLogLevelType::DLT_LOG_FATAL, DltReturnValue::DLT_RETURN_TRUE),
        (DltLogLevelType::DLT_LOG_ERROR, DltReturnValue::DLT_RETURN_TRUE),
        (DltLogLevelType::DLT_LOG_WARN, DltReturnValue::DLT_RETURN_TRUE),
        (DltLogLevelType::DLT_LOG_INFO, DltReturnValue::DLT_RETURN_TRUE),
        (DltLogLevelType::DLT_LOG_DEBUG, DltReturnValue::DLT_RETURN_LOGGING_DISABLED),
        (DltLogLevelType::DLT_LOG_VERBOSE, DltReturnValue::DLT_RETURN_LOGGING_DISABLED),
        (DltLogLevelType::DLT_LOG_MAX, DltReturnValue::DLT_RETURN_LOGGING_DISABLED),
    ] {
        assert_eq!(dlt_user_is_logLevel_enabled(Some(&info), level), expected);
    }
    let off = context(Some(0));
    assert_eq!(
        dlt_user_is_logLevel_enabled(Some(&off), DltLogLevelType::DLT_LOG_FATAL),
        DltReturnValue::DLT_RETURN_LOGGING_DISABLED
    );
    assert_eq!(
        dlt_user_is_logLevel_enabled(Some(&off), DltLogLevelType::DLT_LOG_OFF),
        DltReturnValue::DLT_RETURN_LOGGING_DISABLED
    );
}

#[test]
fn hello_from_rust() {
    let mut user = session(10, vec![]);
    assert_eq!(user.register_app(b"RLOG", b"Rust logging"), DltReturnValue::DLT_RETURN_OK);
    let testing = user
        .register_context(
            b"TEST",
            b"Rusty test",
            DltLogLevelType::DLT_LOG_DEFAULT,
            DltTraceStatusType::DLT_TRACE_STATUS_DEFAULT,
        )
        .unwrap();
    assert_eq!(
        dlt_user_is_logLevel_enabled(Some(&testing), DltLogLevelType::DLT_LOG_INFO),
        DltReturnValue::DLT_RETURN_TRUE
    );
    let mut log_local =
        dlt_user_log_write_start(Some(&testing), DltLogLevelType::DLT_LOG_INFO).unwrap();
    assert_eq!(
        dlt_user_log_write_constant_string(&mut log_local, b"Hello from Rust"),
        DltReturnValue::DLT_RETURN_OK
    );
    let msg = dlt_user_log_write_finish(&user, &log_local, 0, 1234).unwrap();
    assert_eq!(msg.standardheader.htyp, 0x35);
    assert_eq!(msg.headerextra.ecu, *b"ECU1");
    assert_eq!(msg.headerextra.tmsp, 1234);
    assert_eq!(
        msg.extendedheader,
        DltExtendedHeader {
            msin: 0x41,
            noar: 1,
            apid: *b"RLOG",
            ctid: *b"TEST"
        }
    );
    assert_eq!(msg.databuffer.len(), 22);
    assert_eq!(msg.standardheader.len, 4 + 8 + 10 + 22);
    assert_eq!(msg.storageheader, DltStorageHeader::empty());
    let frame = msg.encode_frame().unwrap();
    assert_eq!(dlt_message_read(&frame, false).unwrap(), (msg, 44));
    assert_eq!(user.unregister_context(&testing), DltReturnValue::DLT_RETURN_OK);
    assert_eq!(user.unregister_app(), DltReturnValue::DLT_RETURN_OK);
}

#[test]
fn register_app_rules() {
    let mut user = session(10, vec![]);
    let before = user.clone();
    assert_eq!(user.register_app(b"", b"x"), DltReturnValue::DLT_RETURN_WRONG_PARAMETER);
    assert_eq!(user.register_app(b"\0ABC", b"x"), DltReturnValue::DLT_RETURN_WRONG_PARAMETER);
    assert_eq!(user.unregister_app(), DltReturnValue::DLT_RETURN_ERROR);
    assert_eq!(user, before);
    assert_eq!(user.register_app(b"APPL", b"first"), DltReturnValue::DLT_RETURN_OK);
    assert_eq!(user.appID, *b"APPL");
    assert_eq!(user.application_description, b"first");
    assert_eq!(user.register_app(b"APPL", b"again"), DltReturnValue::DLT_RETURN_OK);
    assert_eq!(user.application_description, b"first");
    assert_eq!(user.register_app(b"NEWAPP", b"second"), DltReturnValue::DLT_RETURN_OK);
    assert_eq!(user.appID, *b"NEWA");
    assert_eq!(user.application_description, b"second");
    assert_eq!(user.unregister_app(), DltReturnValue::DLT_RETURN_OK);
    assert_eq!(user.appID, [0; 4]);
    assert!(user.application_description.is_empty());
}

#[test]
fn register_context_rules() {
    let mut user = session(2, vec![]);
    assert_eq!(
        user.register_context(b"CTX1", b"", DltLogLevelType::DLT_LOG_INFO, DltTraceStatusType::DLT_TRACE_STATUS_OFF),
        Err(DltReturnValue::DLT_RETURN_ERROR)
    );
    user.register_app(b"APP1", b"");
    let before = user.clone();
    assert_eq!(
        user.register_context(b"", b"", DltLogLevelType::DLT_LOG_INFO, DltTraceStatusType::DLT_TRACE_STATUS_OFF),
        Err(DltReturnValue::DLT_RETURN_WRONG_PARAMETER)
    );
    assert_eq!(
        user.register_context(b"CTX1", b"", DltLogLevelType::DLT_LOG_MAX, DltTraceStatusType::DLT_TRACE_STATUS_OFF),
        Err(DltReturnValue::DLT_RETURN_WRONG_PARAMETER)
    );
    assert_eq!(
        user.register_context(b"CTX1", b"", DltLogLevelType::DLT_LOG_INFO, DltTraceStatusType::DLT_TRACE_STATUS_MAX),
        Err(DltReturnValue::DLT_RETURN_WRONG_PARAMETER)
    );
    assert_eq!(user, before);
    let first = user.register_context(b"CTX1", b"one", DltLogLevelType::DLT_LOG_WARN, DltTraceStatusType::DLT_TRACE_STATUS_ON).unwrap();
    assert_eq!(
        first,
        DltContext {
            contextID: *b"CTX1",
            log_level_pos: 0,
            log_level_ptr: Some(3),
            trace_status_ptr: Some(1),
            mcnt: 0
        }
    );
    assert_eq!(user.dlt_ll_ts[0].context_description, b"one");
    let second = user.register_context(b"CTX2", b"two", DltLogLevelType::DLT_LOG_DEFAULT, DltTraceStatusType::DLT_TRACE_STATUS_DEFAULT).unwrap();
    assert_eq!(second.log_level_pos, 1);
    assert_eq!(second.log_level_ptr, Some(4));
    assert_eq!(second.trace_status_ptr, Some(0));
    let again = user.register_context(b"CTX1", b"other", DltLogLevelType::DLT_LOG_DEBUG, DltTraceStatusType::DLT_TRACE_STATUS_OFF).unwrap();
    assert_eq!(again, first);
    assert_eq!(user.dlt_ll_ts_num_entries, 2);
    assert_eq!(
        user.register_context(b"CTX3", b"", DltLogLevelType::DLT_LOG_INFO, DltTraceStatusType::DLT_TRACE_STATUS_OFF),
        Err(DltReturnValue::DLT_RETURN_ERROR)
    );
    assert_eq!(user.dlt_ll_ts_num_entries, 2);
}

#[test]
fn level_follows_the_table() {
    let mut user = session(4, vec![]);
    user.register_app(b"APP1", b"");
    let ctx = user
        .register_context(b"CTX1", b"", DltLogLevelType::DLT_LOG_WARN, DltTraceStatusType::DLT_TRACE_STATUS_OFF)
        .unwrap();
    assert_eq!(user.is_log_level_enabled(Some(&ctx), DltLogLevelType::DLT_LOG_INFO), DltReturnValue::DLT_RETURN_LOGGING_DISABLED);
    assert_eq!(user.is_log_level_enabled(Some(&ctx), DltLogLevelType::DLT_LOG_WARN), DltReturnValue::DLT_RETURN_TRUE);
    assert_eq!(user.is_log_level_enabled(None, DltLogLevelType::DLT_LOG_WARN), DltReturnValue::DLT_RETURN_WRONG_PARAMETER);
    assert_eq!(
        user.update_log_level(0, 6, 1),
        Ok(DltUserLogLevelChangedCallback {
            contextID: *b"CTX1",
            log_level: 6,
            trace_status: 1,
            log_level_changed_callback: None
        })
    );
    assert_eq!(user.is_log_level_enabled(Some(&ctx), DltLogLevelType::DLT_LOG_INFO), DltReturnValue::DLT_RETURN_TRUE);
    assert_eq!(user.is_log_level_enabled(Some(&ctx), DltLogLevelType::DLT_LOG_OFF), DltReturnValue::DLT_RETURN_LOGGING_DISABLED);
    assert_eq!(user.context_handle(0).unwrap().log_level_ptr, Some(6));
    assert_eq!(user.context_handle(0).unwrap().trace_status_ptr, Some(1));
    assert_eq!(user.context_handle(1), None);
    assert_eq!(user.context_handle(-1), None);
    assert_eq!(user.update_log_level(1, 6, 1), Err(DltReturnValue::DLT_RETURN_WRONG_PARAMETER));
    assert_eq!(user.update_log_level(-1, 6, 1), Err(DltReturnValue::DLT_RETURN_WRONG_PARAMETER));
    assert_eq!(user.register_log_level_changed_callback(&ctx, 42), DltReturnValue::DLT_RETURN_OK);
    assert_eq!(user.update_log_level(0, 1, 0).unwrap().log_level_changed_callback, Some(42));
    assert_eq!(user.find_context(b"CTX1"), 0);
    assert_eq!(user.find_context(b"NONE"), 1);
    assert_eq!(user.unregister_context(&ctx), DltReturnValue::DLT_RETURN_OK);
    assert_eq!(user.is_log_level_enabled(Some(&ctx), DltLogLevelType::DLT_LOG_FATAL), DltReturnValue::DLT_RETURN_WRONG_PARAMETER);
    assert_eq!(user.unregister_context(&ctx), DltReturnValue::DLT_RETURN_WRONG_PARAMETER);
    assert_eq!(user.dlt_ll_ts_num_entries, 1);
    assert_eq!(user.dlt_ll_ts[0].contextID, [0; 4]);
    let mut stranger = ctx;
    stranger.log_level_pos = 5;
    assert_eq!(user.unregister_context(&stranger), DltReturnValue::DLT_RETURN_WRONG_PARAMETER);
}

#[test]
fn initial_levels_by_best_match() {
    let item = |a: &[u8], c: &[u8], ll: i8| dlt_env_ll_item { appId: dlt_set_id(a), ctxId: dlt_set_id(c), ll };
    let apid = dlt_set_id(b"APP1");
    let ctid = dlt_set_id(b"CTX1");
    assert_eq!(dlt_env_ll_item_get_matching_prio(&item(b"", b"", 1), &apid, &ctid), 1);
    assert_eq!(dlt_env_ll_item_get_matching_prio(&item(b"", b"CTX1", 1), &apid, &ctid), 2);
    assert_eq!(dlt_env_ll_item_get_matching_prio(&item(b"", b"CTX2", 1), &apid, &ctid), 0);
    assert_eq!(dlt_env_ll_item_get_matching_prio(&item(b"APP1", b"", 1), &apid, &ctid), 3);
    assert_eq!(dlt_env_ll_item_get_matching_prio(&item(b"APP1", b"CTX1", 1), &apid, &ctid), 4);
    assert_eq!(dlt_env_ll_item_get_matching_prio(&item(b"APP1", b"CTX2", 1), &apid, &ctid), 0);
    assert_eq!(dlt_env_ll_item_get_matching_prio(&item(b"APP2", b"CTX1", 1), &apid, &ctid), 0);
    let set = dlt_env_ll_set {
        item: vec![
            item(b"", b"", 1),
            item(b"APP1", b"", 2),
            item(b"", b"CTX1", 3),
            item(b"APP1", b"", 5),
            item(b"APP2", b"CTX1", 6),
        ],
    };
    assert_eq!(dlt_env_adjust_ll_from_env(&set, &apid, &ctid, 4), 2);
    assert_eq!(dlt_env_adjust_ll_from_env(&set, &dlt_set_id(b"APP2"), &ctid, 4), 6);
    assert_eq!(dlt_env_adjust_ll_from_env(&set, &dlt_set_id(b"APP3"), &ctid, 4), 3);
    assert_eq!(dlt_env_adjust_ll_from_env(&set, &dlt_set_id(b"APP3"), &dlt_set_id(b"X"), 4), 1);
    assert_eq!(dlt_env_adjust_ll_from_env(&dlt_env_ll_set { item: vec![] }, &apid, &ctid, 4), 4);
    let mut user = session(4, set.item.clone());
    user.register_app(b"APP1", b"");
    let ctx = user
        .register_context(
            b"CTX1",
            b"",
            DltLogLevelType::DLT_LOG_DEFAULT,
            DltTraceStatusType::DLT_TRACE_STATUS_DEFAULT,
        )
        .unwrap();
    assert_eq!(ctx.log_level_ptr, Some(2));
    let explicit = user
        .register_context(
            b"CTX2",
            b"",
            DltLogLevelType::DLT_LOG_VERBOSE,
            DltTraceStatusType::DLT_TRACE_STATUS_DEFAULT,
        )
        .unwrap();
    assert_eq!(explicit.log_level_ptr, Some(6));
}

#[test]
fn overflow_is_counted_not_fatal() {
    let mut user = session(4, vec![]);
    assert_eq!(user.buffer_message(b"0123456789", b"0123456789", b"0123456789"), DltReturnValue::DLT_RETURN_OK);
    assert_eq!(user.overflow_counter, 0);
    let buffer = user.startup_buffer.clone();
    assert_eq!(user.buffer_message(b"0123456789", b"0123456789", b"0123456789"), DltReturnValue::DLT_RETURN_BUFFER_FULL);
    assert_eq!(user.buffer_message(b"0123456789", b"0123456789", b"0123456789"), DltReturnValue::DLT_RETURN_BUFFER_FULL);
    assert_eq!(user.overflow, 1);
    assert_eq!(user.overflow_counter, 2);
    assert_eq!(user.startup_buffer, buffer);
    assert_eq!(user.buffer_message(b"", b"ab", b""), DltReturnValue::DLT_RETURN_OK);
    assert_eq!(user.overflow_counter, 2);
    assert_eq!(user.take_overflow_counter(), 2);
    assert_eq!(user.overflow, 0);
    assert_eq!(user.overflow_counter, 0);
    user.overflow_counter = u32::MAX;
    user.count_overflow();
    assert_eq!(user.overflow_counter, u32::MAX);
    assert_eq!(user.startup_buffer.pull(64), Ok(Some(b"012345678901234567890123456789".to_vec())));
    assert_eq!(user.startup_buffer.pull(64), Ok(Some(b"ab".to_vec())));
}

#[test]
fn write_start_respects_level() {
    let ctx = context(Some(3));
    assert_eq!(
        dlt_user_log_write_start(Some(&ctx), DltLogLevelType::DLT_LOG_INFO),
        Err(DltReturnValue::DLT_RETURN_LOGGING_DISABLED)
    );
    assert_eq!(
        dlt_user_log_write_start(None, DltLogLevelType::DLT_LOG_INFO),
        Err(DltReturnValue::DLT_RETURN_WRONG_PARAMETER)
    );
    let log = dlt_user_log_write_start(Some(&ctx), DltLogLevelType::DLT_LOG_ERROR).unwrap();
    assert_eq!(log.handle, Some(ctx));
    assert_eq!(log.log_level, 2);
    assert_eq!(log.args_num, 0);
    assert_eq!(log.size, 0);
    assert!(log.buffer.is_empty());
}

#[test]
fn argument_bytes() {
    let ctx = context(Some(6));
    let mut log = dlt_user_log_write_start(Some(&ctx), DltLogLevelType::DLT_LOG_INFO).unwrap();
    let mut expected: Vec<u8> = Vec::new();
    assert_eq!(dlt_user_log_write_string(&mut log, b"Hi"), DltReturnValue::DLT_RETURN_OK);
    expected.extend_from_slice(&[0x00, 0x02, 0, 0, 3, 0, b'H', b'i', 0]);
    assert_eq!(log.buffer, expected);
    assert_eq!(dlt_user_log_write_utf8_string(&mut log, b""), DltReturnValue::DLT_RETURN_OK);
    expected.extend_from_slice(&[0x00, 0x82, 0, 0, 1, 0, 0]);
    assert_eq!(log.buffer, expected);
    assert_eq!(dlt_user_log_write_raw(&mut log, &[9, 8, 7]), DltReturnValue::DLT_RETURN_OK);
    expected.extend_from_slice(&[0x00, 0x04, 0, 0, 3, 0, 9, 8, 7]);
    assert_eq!(log.buffer, expected);
    assert_eq!(dlt_user_log_write_bool(&mut log, 1), DltReturnValue::DLT_RETURN_OK);
    expected.extend_from_slice(&[0x11, 0, 0, 0, 1]);
    assert_eq!(dlt_user_log_write_uint8(&mut log, 0xfe), DltReturnValue::DLT_RETURN_OK);
    expected.extend_from_slice(&[0x41, 0, 0, 0, 0xfe]);
    assert_eq!(dlt_user_log_write_uint16(&mut log, 0x1234), DltReturnValue::DLT_RETURN_OK);
    expected.extend_from_slice(&[0x42, 0, 0, 0, 0x34, 0x12]);
    assert_eq!(dlt_user_log_write_uint32(&mut log, 0x1234_5678), DltReturnValue::DLT_RETURN_OK);
    expected.extend_from_slice(&[0x43, 0, 0, 0, 0x78, 0x56, 0x34, 0x12]);
    assert_eq!(dlt_user_log_write_uint64(&mut log, 0x0102_0304_0506_0708), DltReturnValue::DLT_RETURN_OK);
    expected.extend_from_slice(&[0x44, 0, 0, 0, 8, 7, 6, 5, 4, 3, 2, 1]);
    assert_eq!(dlt_user_log_write_int8(&mut log, -2), DltReturnValue::DLT_RETURN_OK);
    expected.extend_from_slice(&[0x21, 0, 0, 0, 0xfe]);
    assert_eq!(dlt_user_log_write_int16(&mut log, -2), DltReturnValue::DLT_RETURN_OK);
    expected.extend_from_slice(&[0x22, 0, 0, 0, 0xfe, 0xff]);
    assert_eq!(dlt_user_log_write_int32(&mut log, i32::MIN), DltReturnValue::DLT_RETURN_OK);
    expected.extend_from_slice(&[0x23, 0, 0, 0, 0, 0, 0, 0x80]);
    assert_eq!(dlt_user_log_write_int64(&mut log, -1), DltReturnValue::DLT_RETURN_OK);
    expected.extend_from_slice(&[0x24, 0, 0, 0, 0xff, 0xff, 0xff, 0xff, 0xff, 0xff, 0xff, 0xff]);
    assert_eq!(dlt_user_log_write_int64(&mut log, i64::MAX), DltReturnValue::DLT_RETURN_OK);
    expected.extend_from_slice(&[0x24, 0, 0, 0, 0xff, 0xff, 0xff, 0xff, 0xff, 0xff, 0xff, 0x7f]);
    assert_eq!(log.buffer, expected);
    assert_eq!(log.args_num, 13);
    assert_eq!(log.size, expected.len());
}

#[test]
fn user_buffer_full_changes_nothing() {
    let ctx = context(Some(6));
    let mut log = dlt_user_log_write_start(Some(&ctx), DltLogLevelType::DLT_LOG_INFO).unwrap();
    let big = vec![b'x'; DLT_USER_BUF_MAX_SIZE - 7];
    assert_eq!(dlt_user_log_write_string(&mut log, &big), DltReturnValue::DLT_RETURN_OK);
    assert_eq!(log.size, DLT_USER_BUF_MAX_SIZE);
    let before = log.clone();
    assert_eq!(dlt_user_log_write_uint8(&mut log, 1), DltReturnValue::DLT_RETURN_USER_BUFFER_FULL);
    assert_eq!(dlt_user_log_write_raw(&mut log, &[]), DltReturnValue::DLT_RETURN_USER_BUFFER_FULL);
    assert_eq!(log, before);
    let mut log = dlt_user_log_write_start(Some(&ctx), DltLogLevelType::DLT_LOG_INFO).unwrap();
    assert_eq!(
        dlt_user_log_write_string(&mut log, &vec![b'x'; DLT_USER_BUF_MAX_SIZE - 6]),
        DltReturnValue::DLT_RETURN_USER_BUFFER_FULL
    );
    assert_eq!(
        dlt_user_log_write_raw(&mut log, &vec![0; 70000]),
        DltReturnValue::DLT_RETURN_USER_BUFFER_FULL
    );
    assert!(log.buffer.is_empty());
}

#[test]
fn finish_follows_session_settings() {
    let mut user = session(4, vec![]);
    let mut ctx = context(Some(6));
    ctx.mcnt = 255;
    let log = dlt_user_log_write_start(Some(&ctx), DltLogLevelType::DLT_LOG_VERBOSE).unwrap();
    assert_eq!(
        dlt_user_log_write_finish(&user, &log, 1, 2),
        Err(DltReturnValue::DLT_RETURN_ERROR)
    );
    user.register_app(b"APP1", b"");
    let mut orphan = log.clone();
    orphan.handle = None;
    assert_eq!(
        dlt_user_log_write_finish(&user, &orphan, 1, 2),
        Err(DltReturnValue::DLT_RETURN_WRONG_PARAMETER)
    );
    user.with_session_id = 1;
    user.with_ecu_id = 0;
    user.with_timestamp = 0;
    user.verbose_mode = 0;
    let msg = dlt_user_log_write_finish(&user, &log, 0xdead, 2).unwrap();
    assert_eq!(msg.standardheader.htyp, 0x29);
    assert_eq!(msg.standardheader.mcnt, 255);
    assert_eq!(msg.headerextra.seid, 0xdead);
    assert_eq!(msg.headerextra.tmsp, 0);
    assert_eq!(msg.headerextra.ecu, [0; 4]);
    assert_eq!(msg.extendedheader.msin, 0x60);
    user.use_extende_header_for_non_verbose = 0;
    let msg = dlt_user_log_write_finish(&user, &log, 0xdead, 2).unwrap();
    assert_eq!(msg.standardheader.htyp, 0x28);
    assert_eq!(msg.extendedheader, DltExtendedHeader::empty());
    ctx.count_message();
    assert_eq!(ctx.mcnt, 0);
    ctx.count_message();
    assert_eq!(ctx.mcnt, 1);
}

#[test]
fn injection_callbacks_by_service() {
    let mut user = session(4, vec![]);
    user.register_app(b"APP1", b"");
    let ctx = user
        .register_context(
            b"CTX1",
            b"",
            DltLogLevelType::DLT_LOG_INFO,
            DltTraceStatusType::DLT_TRACE_STATUS_OFF,
        )
        .unwrap();
    let before = user.clone();
    assert_eq!(
        user.register_injection_callback(&ctx, DLT_USER_INJECTION_MIN - 1, 1),
        DltReturnValue::DLT_RETURN_WRONG_PARAMETER
    );
    let mut stranger = ctx;
    stranger.contextID = *b"NONE";
    assert_eq!(
        user.register_injection_callback(&stranger, 0x1000, 1),
        DltReturnValue::DLT_RETURN_WRONG_PARAMETER
    );
    assert_eq!(
        user.register_log_level_changed_callback(&stranger, 1),
        DltReturnValue::DLT_RETURN_WRONG_PARAMETER
    );
    assert_eq!(user, before);
    assert_eq!(user.register_injection_callback(&ctx, 0xFFF, 10), DltReturnValue::DLT_RETURN_OK);
    assert_eq!(user.register_injection_callback(&ctx, 0x1000, 11), DltReturnValue::DLT_RETURN_OK);
    assert_eq!(user.register_injection_callback(&ctx, 0xFFF, 12), DltReturnValue::DLT_RETURN_OK);
    assert_eq!(
        user.dlt_ll_ts[0].injection_table,
        vec![
            DltUserInjectionCallback { service_id: 0xFFF, injection_callback: Some(12) },
            DltUserInjectionCallback { service_id: 0x1000, injection_callback: Some(11) },
        ]
    );
    assert_eq!(user.injection_callback(0, 0xFFF), Some(12));
    assert_eq!(user.injection_callback(0, 0x1000), Some(11));
    assert_eq!(user.injection_callback(0, 0x1001), None);
    assert_eq!(user.injection_callback(1, 0xFFF), None);
    assert_eq!(user.injection_callback(-1, 0xFFF), None);
    assert!(user.handle_valid(&ctx));
    assert!(!user.handle_valid(&stranger));
    assert!(user.is_wf());
}

#[test]
fn formatted_arguments() {
    assert_eq!(dlt_format_bits(DltFormatType::DLT_FORMAT_DEFAULT), Some(0));
    assert_eq!(dlt_format_bits(DltFormatType::DLT_FORMAT_HEX8), Some(0x10000));
    assert_eq!(dlt_format_bits(DltFormatType::DLT_FORMAT_HEX64), Some(0x10000));
    assert_eq!(dlt_format_bits(DltFormatType::DLT_FORMAT_BIN8), Some(0x18000));
    assert_eq!(dlt_format_bits(DltFormatType::DLT_FORMAT_BIN16), Some(0x18000));
    assert_eq!(dlt_format_bits(DltFormatType::DLT_FORMAT_MAX), None);
    let ctx = context(Some(6));
    let mut log = dlt_user_log_write_start(Some(&ctx), DltLogLevelType::DLT_LOG_INFO).unwrap();
    let mut expected: Vec<u8> = Vec::new();
    assert_eq!(
        dlt_user_log_write_uint8_formatted(&mut log, 0xab, DltFormatType::DLT_FORMAT_HEX8),
        DltReturnValue::DLT_RETURN_OK
    );
    expected.extend_from_slice(&[0x41, 0, 1, 0, 0xab]);
    assert_eq!(
        dlt_user_log_write_uint16_formatted(&mut log, 0x0102, DltFormatType::DLT_FORMAT_BIN16),
        DltReturnValue::DLT_RETURN_OK
    );
    expected.extend_from_slice(&[0x42, 0x80, 1, 0, 2, 1]);
    assert_eq!(
        dlt_user_log_write_uint32_formatted(&mut log, 7, DltFormatType::DLT_FORMAT_DEFAULT),
        DltReturnValue::DLT_RETURN_OK
    );
    expected.extend_from_slice(&[0x43, 0, 0, 0, 7, 0, 0, 0]);
    assert_eq!(
        dlt_user_log_write_uint64_formatted(&mut log, 1 << 40, DltFormatType::DLT_FORMAT_HEX64),
        DltReturnValue::DLT_RETURN_OK
    );
    expected.extend_from_slice(&[0x44, 0, 1, 0, 0, 0, 0, 0, 0, 1, 0, 0]);
    assert_eq!(
        dlt_user_log_write_raw_formatted(&mut log, b"xy", DltFormatType::DLT_FORMAT_HEX8),
        DltReturnValue::DLT_RETURN_OK
    );
    expected.extend_from_slice(&[0x00, 0x04, 1, 0, 2, 0, b'x', b'y']);
    assert_eq!(log.buffer, expected);
    let before = log.clone();
    assert_eq!(
        dlt_user_log_write_uint8_formatted(&mut log, 1, DltFormatType::DLT_FORMAT_MAX),
        DltReturnValue::DLT_RETURN_WRONG_PARAMETER
    );
    assert_eq!(
        dlt_user_log_write_raw_formatted(&mut log, b"", DltFormatType::DLT_FORMAT_MAX),
        DltReturnValue::DLT_RETURN_WRONG_PARAMETER
    );
    assert_eq!(log, before);
}
