use dlt_sys::dlt_receiver::{DltReceiver, DLT_USER_HEADER_SIZE};
use dlt_sys::dlt_types::DltReturnValue;

#[test]
fn receive_appends_up_to_capacity() {
    let mut r = DltReceiver::init(3, 10);
    assert_eq!(r.fd, 3);
    assert_eq!(r.free_space(), 10);
    assert_eq!(r.receive(b"abcd"), 4);
    assert_eq!(r.lastBytesRcvd, 4);
    assert_eq!(r.bytesRcvd, 4);
    assert_eq!(r.totalBytesRcvd, 4);
    assert_eq!(r.receive(b"efghijkl"), 6);
    assert_eq!(r.lastBytesRcvd, 6);
    assert_eq!(r.bytesRcvd, 10);
    assert_eq!(r.totalBytesRcvd, 10);
    assert_eq!(r.check_and_get(10, false), Some(b"abcdefghij".to_vec()));
    assert_eq!(r.receive(b"x"), 0);
    assert_eq!(r.lastBytesRcvd, 0);
    assert_eq!(r.totalBytesRcvd, 10);
}

#[test]
fn check_and_get_does_not_consume() {
    let mut r = DltReceiver::init(0, 32);
    r.receive(b"HEADER__payload");
    let before = r.clone();
    assert_eq!(DLT_USER_HEADER_SIZE, 8);
    assert_eq!(r.check_and_get(4, false), Some(b"HEAD".to_vec()));
    assert_eq!(r.check_and_get(7, true), Some(b"payload".to_vec()));
    assert_eq!(r.check_and_get(8, true), None);
    assert_eq!(r.check_and_get(15, false), Some(b"HEADER__payload".to_vec()));
    assert_eq!(r.check_and_get(16, false), None);
    assert_eq!(r.check_and_get(0, true), Some(vec![]));
    assert_eq!(r, before);
    let short = DltReceiver::init(0, 4);
    assert_eq!(short.check_and_get(0, true), None);
    assert_eq!(short.check_and_get(0, false), Some(vec![]));
}

#[test]
fn remove_then_move_to_begin() {
    let mut r = DltReceiver::init(0, 8);
    r.receive(b"abcdefgh");
    assert_eq!(r.remove(3), DltReturnValue::DLT_RETURN_OK);
    assert_eq!(r.buf, 3);
    assert_eq!(r.free_space(), 0);
    assert_eq!(r.check_and_get(5, false), Some(b"defgh".to_vec()));
    assert_eq!(r.move_to_begin(), DltReturnValue::DLT_RETURN_OK);
    assert_eq!(r.buf, 0);
    assert_eq!(r.free_space(), 3);
    assert_eq!(r.check_and_get(5, false), Some(b"defgh".to_vec()));
    assert_eq!(r.receive(b"XYZ!"), 3);
    assert_eq!(r.check_and_get(8, false), Some(b"defghXYZ".to_vec()));
    assert_eq!(r.totalBytesRcvd, 11);
}

#[test]
fn remove_more_than_buffered_fails() {
    let mut r = DltReceiver::init(0, 8);
    r.receive(b"abc");
    let before = r.clone();
    assert_eq!(r.remove(4), DltReturnValue::DLT_RETURN_WRONG_PARAMETER);
    assert_eq!(r, before);
    assert_eq!(r.remove(3), DltReturnValue::DLT_RETURN_OK);
    assert_eq!(r.bytesRcvd, 0);
    assert_eq!(r.remove(0), DltReturnValue::DLT_RETURN_OK);
    assert_eq!(r.remove(1), DltReturnValue::DLT_RETURN_WRONG_PARAMETER);
}

#[test]
fn total_saturates() {
    let mut r = DltReceiver::init(0, 8);
    r.totalBytesRcvd = u64::MAX - 1;
    assert_eq!(r.receive(b"abc"), 3);
    assert_eq!(r.totalBytesRcvd, u64::MAX);
}

#[test]
fn free_hands_out_buffer() {
    let mut r = DltReceiver::init(0, 4);
    r.receive(b"ab");
    assert_eq!(r.free(), vec![b'a', b'b', 0, 0]);
}
