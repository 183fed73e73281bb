use dlt_sys::dlt_buffer::{DltBuffer, DLT_SHM_HEAD};
use dlt_sys::dlt_shm::{DltShm, DltShmBlockHead};
use dlt_sys::dlt_types::DltReturnValue;

fn server(total: usize) -> DltBuffer {
    DltBuffer::init_static_server(vec![0xEE; total]).unwrap()
}

#[test]
fn server_init_clears_region() {
    let buf = server(64);
    assert_eq!(buf.shm, vec![0u8; 64]);
    assert_eq!(buf.size, 52);
    assert_eq!(buf.get_total_size(), 64);
    assert_eq!(buf.get_used_size(), 0);
    assert_eq!(buf.get_message_count(), 0);
    assert!(buf.is_attached());
}

#[test]
fn init_rejects_regions_without_data_area() {
    assert_eq!(
        DltBuffer::init_static_server(vec![0; 12]),
        Err(DltReturnValue::DLT_RETURN_WRONG_PARAMETER)
    );
    assert_eq!(
        DltBuffer::init_static_client(vec![]),
        Err(DltReturnValue::DLT_RETURN_WRONG_PARAMETER)
    );
    assert!(DltBuffer::init_static_server(vec![0; 13]).is_ok());
}

#[test]
fn push_writes_head_and_data() {
    let mut buf = server(12 + 40);
    assert_eq!(buf.push(b"abc"), DltReturnValue::DLT_RETURN_OK);
    let mut expected = vec![15u8, 0, 0, 0, 0, 0, 0, 0, 1, 0, 0, 0];
    expected.extend_from_slice(b"SHM\0");
    expected.extend_from_slice(&[2, 0, 0, 0, 3, 0, 0, 0]);
    expected.extend_from_slice(b"abc");
    expected.resize(52, 0);
    assert_eq!(buf.shm, expected);
    assert_eq!(buf.get_used_size(), 15);
    assert_eq!(buf.get_message_count(), 1);
    assert_eq!(buf.front_len(), Ok(Some(3)));
}

#[test]
fn fifo_order_and_content() {
    let mut buf = server(12 + 200);
    let entries: Vec<Vec<u8>> = vec![b"one".to_vec(), vec![], b"three!".to_vec(), vec![0xff; 50]];
    for e in &entries {
        assert_eq!(buf.push(e), DltReturnValue::DLT_RETURN_OK);
    }
    assert_eq!(buf.get_message_count(), 4);
    assert_eq!(buf.get_used_size(), 4 * 12 + 3 + 0 + 6 + 50);
    for e in &entries {
        assert_eq!(buf.copy(100), Ok(Some(e.clone())));
        assert_eq!(buf.pull(100), Ok(Some(e.clone())));
    }
    assert_eq!(buf.pull(100), Ok(None));
    assert_eq!(buf.get_used_size(), 0);
}

#[test]
fn push3_joins_pieces() {
    let mut buf = server(12 + 64);
    assert_eq!(buf.push3(b"head", b"", b"payload"), DltReturnValue::DLT_RETURN_OK);
    assert_eq!(buf.push3(b"", b"x", b""), DltReturnValue::DLT_RETURN_OK);
    assert_eq!(buf.pull(64), Ok(Some(b"headpayload".to_vec())));
    assert_eq!(buf.pull(64), Ok(Some(b"x".to_vec())));
}

#[test]
fn full_buffer_reports_and_keeps_state() {
    let mut buf = server(12 + 40);
    assert_eq!(buf.push(&[1u8; 20]), DltReturnValue::DLT_RETURN_OK);
    let before = buf.clone();
    assert_eq!(buf.push(&[2u8; 1]), DltReturnValue::DLT_RETURN_BUFFER_FULL);
    assert_eq!(buf, before);
    assert_eq!(buf.push(&[]), DltReturnValue::DLT_RETURN_BUFFER_FULL);
    assert_eq!(buf, before);
    assert_eq!(buf.pull(64), Ok(Some(vec![1u8; 20])));
    assert_eq!(buf.push(&[3u8; 28]), DltReturnValue::DLT_RETURN_OK);
    assert_eq!(buf.get_used_size(), 40);
    assert_eq!(buf.push(&[]), DltReturnValue::DLT_RETURN_BUFFER_FULL);
    assert_eq!(buf.pull(64), Ok(Some(vec![3u8; 28])));
    assert_eq!(buf.pull(64), Ok(None));
}

#[test]
fn entries_wrap_around_the_end() {
    let mut buf = server(12 + 50);
    let mut next: u8 = 0;
    let mut queue: std::collections::VecDeque<Vec<u8>> = std::collections::VecDeque::new();
    for round in 0..200usize {
        let len = (round * 7) % 23;
        let entry: Vec<u8> = (0..len).map(|i| next.wrapping_add(i as u8)).collect();
        next = next.wrapping_add(31);
        let used: usize = queue.iter().map(|e| 12 + e.len()).sum();
        let r = buf.push(&entry);
        if used + 12 + len <= 50 {
            assert_eq!(r, DltReturnValue::DLT_RETURN_OK);
            queue.push_back(entry);
        } else {
            assert_eq!(r, DltReturnValue::DLT_RETURN_BUFFER_FULL);
            let oldest = queue.pop_front();
            assert_eq!(buf.pull(64), Ok(oldest));
        }
        assert_eq!(buf.get_message_count() as usize, queue.len());
        assert_eq!(buf.get_used_size(), queue.iter().map(|e| 12 + e.len()).sum::<usize>());
    }
    while let Some(e) = queue.pop_front() {
        assert_eq!(buf.pull(64), Ok(Some(e)));
    }
    assert_eq!(buf.pull(64), Ok(None));
}

#[test]
fn remove_twice_after_one_push() {
    let mut buf = server(12 + 40);
    assert_eq!(buf.push(b"only"), DltReturnValue::DLT_RETURN_OK);
    assert_eq!(buf.remove(), Ok(Some(4)));
    let after = buf.clone();
    assert_eq!(buf.remove(), Ok(None));
    assert_eq!(buf, after);
    assert_eq!(buf.get_message_count(), 0);
}

#[test]
fn copy_leaves_entry_and_small_destination_fails() {
    let mut buf = server(12 + 40);
    buf.push(b"abcdef");
    let before = buf.clone();
    assert_eq!(buf.copy(6), Ok(Some(b"abcdef".to_vec())));
    assert_eq!(buf, before);
    assert_eq!(buf.copy(5), Err(DltReturnValue::DLT_RETURN_USER_BUFFER_FULL));
    assert_eq!(buf.pull(5), Err(DltReturnValue::DLT_RETURN_USER_BUFFER_FULL));
    assert_eq!(buf, before);
    assert_eq!(buf.pull(6), Ok(Some(b"abcdef".to_vec())));
}

#[test]
fn client_keeps_counters_and_sees_entries() {
    let mut srv = server(12 + 60);
    srv.push(b"first");
    srv.push(b"second");
    let region = srv.free_static();
    let copy = region.clone();
    let mut client = DltBuffer::init_static_client(region).unwrap();
    assert_eq!(client.shm, copy);
    assert_eq!(client.get_message_count(), 2);
    assert_eq!(client.pull(60), Ok(Some(b"first".to_vec())));
    assert_eq!(client.push(b"third"), DltReturnValue::DLT_RETURN_OK);
    assert_eq!(client.pull(60), Ok(Some(b"second".to_vec())));
    assert_eq!(client.pull(60), Ok(Some(b"third".to_vec())));
}

#[test]
fn reset_discards_everything() {
    let mut buf = server(12 + 40);
    buf.push(b"abc");
    assert_eq!(buf.reset(), DltReturnValue::DLT_RETURN_OK);
    assert_eq!(buf.shm, vec![0u8; 52]);
    assert_eq!(buf.pull(10), Ok(None));
}

#[test]
fn detached_buffer_is_refused() {
    let mut buf = server(12 + 40);
    buf.size = 39;
    let before = buf.clone();
    assert!(!buf.is_attached());
    assert_eq!(buf.push(b"a"), DltReturnValue::DLT_RETURN_WRONG_PARAMETER);
    assert_eq!(buf.pull(10), Err(DltReturnValue::DLT_RETURN_WRONG_PARAMETER));
    assert_eq!(buf.copy(10), Err(DltReturnValue::DLT_RETURN_WRONG_PARAMETER));
    assert_eq!(buf.remove(), Err(DltReturnValue::DLT_RETURN_WRONG_PARAMETER));
    assert_eq!(buf.reset(), DltReturnValue::DLT_RETURN_WRONG_PARAMETER);
    assert_eq!(buf.recover(), Err(DltReturnValue::DLT_RETURN_WRONG_PARAMETER));
    assert_eq!(buf.get_used_size(), 0);
    assert_eq!(buf.get_message_count(), 0);
    assert_eq!(buf, before);
}

#[test]
fn corrupt_counters_and_heads_are_errors() {
    let mut buf = server(12 + 40);
    buf.push(b"abc");
    let good = buf.clone();
    buf.shm[4] = 200; // read position outside the data area
    assert_eq!(buf.pull(10), Err(DltReturnValue::DLT_RETURN_ERROR));
    assert_eq!(buf.push(b"x"), DltReturnValue::DLT_RETURN_ERROR);
    assert_eq!(buf.recover(), Err(DltReturnValue::DLT_RETURN_ERROR));
    assert_eq!(buf.get_used_size(), 0);
    let mut buf = good.clone();
    buf.shm[12] = b'X'; // marker damaged
    let before = buf.clone();
    assert_eq!(buf.pull(10), Err(DltReturnValue::DLT_RETURN_ERROR));
    assert_eq!(buf.front_len(), Err(DltReturnValue::DLT_RETURN_ERROR));
    assert_eq!(buf, before);
    let mut buf = good.clone();
    buf.shm[16] = 1; // status not ready
    assert_eq!(buf.copy(10), Err(DltReturnValue::DLT_RETURN_ERROR));
    let mut buf = good.clone();
    buf.shm[20] = 4; // declared length runs past the write position
    assert_eq!(buf.remove(), Err(DltReturnValue::DLT_RETURN_ERROR));
}

#[test]
fn recover_finds_next_entry() {
    let mut buf = server(12 + 80);
    buf.push(b"damaged");
    buf.push(b"second");
    buf.push(b"third");
    buf.shm[12] = b'X';
    assert_eq!(buf.pull(80), Err(DltReturnValue::DLT_RETURN_ERROR));
    assert_eq!(buf.recover(), Ok(12 + 7));
    assert_eq!(buf.get_message_count(), 2);
    assert_eq!(buf.pull(80), Ok(Some(b"second".to_vec())));
    assert_eq!(buf.pull(80), Ok(Some(b"third".to_vec())));
    assert_eq!(buf.pull(80), Ok(None));
}

#[test]
fn recover_on_sound_buffer_changes_nothing() {
    let mut buf = server(12 + 80);
    buf.push(b"a");
    buf.push(b"bc");
    let before = buf.clone();
    assert_eq!(buf.recover(), Ok(0));
    assert_eq!(buf, before);
}

#[test]
fn recover_with_nothing_to_save_empties() {
    let mut buf = server(12 + 80);
    buf.push(b"a");
    buf.shm[12 + 8] = 9;
    assert_eq!(buf.recover(), Ok(13));
    assert_eq!(buf.get_message_count(), 0);
    assert_eq!(buf.get_used_size(), 0);
    assert_eq!(buf.push(b"new"), DltReturnValue::DLT_RETURN_OK);
    assert_eq!(buf.pull(80), Ok(Some(b"new".to_vec())));
}

#[test]
fn recover_repairs_wrong_count() {
    let mut buf = server(12 + 80);
    buf.push(b"a");
    buf.push(b"b");
    buf.shm[8] = 5;
    assert_eq!(buf.recover(), Ok(0));
    assert_eq!(buf.get_message_count(), 2);
}

#[test]
fn dynamic_buffer_grows_in_steps() {
    let mut buf = DltBuffer::init_dynamic(12 + 20, 12 + 110, 30).unwrap();
    assert_eq!(buf.size, 20);
    assert_eq!(buf.get_total_size(), 122);
    assert_eq!(buf.push(&[1u8; 8]), DltReturnValue::DLT_RETURN_OK);
    assert_eq!(buf.size, 20);
    assert_eq!(buf.push(&[2u8; 8]), DltReturnValue::DLT_RETURN_OK);
    assert_eq!(buf.size, 50);
    assert_eq!(buf.shm.len(), 62);
    assert_eq!(buf.push(&[3u8; 30]), DltReturnValue::DLT_RETURN_OK);
    assert_eq!(buf.size, 110);
    let before = buf.clone();
    assert_eq!(buf.push(&[4u8; 30]), DltReturnValue::DLT_RETURN_BUFFER_FULL);
    assert_eq!(buf, before);
    assert_eq!(buf.pull(100), Ok(Some(vec![1u8; 8])));
    assert_eq!(buf.pull(100), Ok(Some(vec![2u8; 8])));
    assert_eq!(buf.pull(100), Ok(Some(vec![3u8; 30])));
    assert_eq!(buf.pull(100), Ok(None));
}

#[test]
fn dynamic_growth_after_wrap_keeps_order() {
    let mut buf = DltBuffer::init_dynamic(12 + 40, 12 + 400, 40).unwrap();
    buf.push(&[1u8; 10]);
    buf.push(&[2u8; 5]);
    assert_eq!(buf.pull(100), Ok(Some(vec![1u8; 10])));
    assert_eq!(buf.push(&[3u8; 9]), DltReturnValue::DLT_RETURN_OK); // wraps
    assert_eq!(buf.size, 40);
    assert_eq!(buf.push(&[4u8; 60]), DltReturnValue::DLT_RETURN_OK); // grows by two steps
    assert_eq!(buf.size, 120);
    assert_eq!(buf.pull(100), Ok(Some(vec![2u8; 5])));
    assert_eq!(buf.pull(100), Ok(Some(vec![3u8; 9])));
    assert_eq!(buf.pull(100), Ok(Some(vec![4u8; 60])));
}

#[test]
fn init_dynamic_rejects_bad_sizes() {
    for (min, max, step) in [(0, 100, 10), (12, 100, 10), (50, 40, 10), (50, 100, 0), (50, 100, 101)] {
        assert_eq!(
            DltBuffer::init_dynamic(min, max, step),
            Err(DltReturnValue::DLT_RETURN_WRONG_PARAMETER)
        );
    }
    assert!(DltBuffer::init_dynamic(13, 13, 13).is_ok());
}

#[test]
fn shm_server_and_client() {
    let mut server = DltShm::init_server(7, 9, vec![1u8; 12 + 30]).unwrap();
    assert_eq!(server.shmid, 7);
    assert_eq!(server.semid, 9);
    assert_eq!(server.buffer.push(b"shared"), DltReturnValue::DLT_RETURN_OK);
    let region = server.free();
    let mut client = DltShm::init_client(7, 9, region).unwrap();
    assert_eq!(client.buffer.pull(30), Ok(Some(b"shared".to_vec())));
    assert!(DltShm::init_client(7, 9, vec![0; 3]).is_err());
    assert!(DltShm::init_server(7, 9, vec![0; 3]).is_err());
}

#[test]
fn block_head_bytes() {
    let head = DltShmBlockHead::ready(0x0102);
    assert_eq!(head.head, DLT_SHM_HEAD);
    assert_eq!(head.status, 2);
    assert_eq!(head.size, 0x0102);
    assert!(head.is_ready());
    let read = DltShmBlockHead::from_bytes(b"SHM\0\x02\0\0\0\x02\x01\0\0rest").unwrap();
    assert_eq!(read, head);
    let negative = DltShmBlockHead::from_bytes(b"SHM\0\x02\0\0\0\xff\xff\xff\xff").unwrap();
    assert_eq!(negative.size, -1);
    assert!(!negative.is_ready());
    assert_eq!(DltShmBlockHead::from_bytes(b"SHM\0\x02\0\0\0\x02\x01\0"), None);
}
