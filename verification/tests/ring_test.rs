#![allow(non_camel_case_types)]
#![allow(non_snake_case)]
#![allow(non_upper_case_globals)]

use rust_rsm::common::errcode;
use rust_rsm::common::indexring::index_ring_t;
use rust_rsm::common::ringbuf::{ring_buffer_t, ts_ring_buffer_t};

#[test]
fn index_ring_window_slides_forward() {
    let mut ring: index_ring_t<u64> = index_ring_t::new(100, 1);
    assert_eq!(ring.get_ring_len(), 0);
    assert_eq!(ring.get_head_seq(), 1);

    assert_eq!(ring.add_item(1, 11), errcode::RESULT_SUCCESS);
    assert_eq!(ring.add_item(1, 11), errcode::ERROR_ALREADY_EXIST);
    assert_eq!(ring.get_ring_len(), 1);

    assert_eq!(ring.add_item(5, 55), errcode::RESULT_SUCCESS);
    assert_eq!(ring.get_ring_len(), 5);
    assert_eq!(ring.get_tail_seq(), 5);
    assert_eq!(*ring.get_item_by_seq(5).unwrap(), 55);
    assert!(ring.get_item_by_seq(3).is_none());

    assert_eq!(ring.add_item(0, 99), errcode::ERROR_INVALID_INDEX);
    assert_eq!(ring.add_item(105, 99), errcode::ERROR_INVALID_INDEX);

    assert_eq!(ring.remove_item_before_seq(3, true), errcode::RESULT_SUCCESS);
    assert_eq!(ring.get_head_seq(), 4);
    assert_eq!(ring.get_ring_len(), 2);
}

#[test]
fn index_ring_rolls_over_capacity() {
    let mut ring: index_ring_t<u64> = index_ring_t::new(1024, 1);
    for i in 1..2048u64 {
        let r = ring.add_item(i, i);
        assert_eq!(r, errcode::RESULT_SUCCESS);
    }
    assert_eq!(ring.get_ring_len(), 1024);
    assert_eq!(ring.get_head_seq(), 1024);
    assert_eq!(ring.get_tail_seq(), 2047);
    let r = ring.add_item(1048, 1048);
    assert_eq!(r, errcode::ERROR_ALREADY_EXIST);

    let seq = ring.get_head_seq();
    let item = *ring.get_head_item().unwrap();
    assert_eq!(item, seq);
    println!("ring info {}", ring.to_string());

    ring.clear();
    assert_eq!(ring.get_ring_len(), 0);
    assert_eq!(ring.get_head_seq(), 1);
    let (recv, expect) = ring.get_recv_item_stats();
    assert_eq!((recv, expect), (0, 0));
}

#[test]
fn index_ring_counts_losses() {
    let mut ring: index_ring_t<u64> = index_ring_t::new(64, 1);
    assert_eq!(ring.add_item(1, 1), errcode::RESULT_SUCCESS);
    // Jump ahead: sequences 2 and 3 were expected but never arrive.
    assert_eq!(ring.add_item(4, 4), errcode::RESULT_SUCCESS);
    let (recv, expect) = ring.get_recv_item_stats();
    assert_eq!(recv, 2);
    assert_eq!(expect, 4);
    assert_eq!(ring.get_loss_count(), 2);
    ring.clear_recv_stats();
    assert_eq!(ring.get_loss_count(), 0);
}

#[test]
fn byte_ring_appends_and_drains_in_order() {
    let mut rb = ring_buffer_t::new(8).unwrap();
    assert_eq!(rb.len(), 0);
    assert_eq!(rb.buffer_available(), 8);

    assert_eq!(rb.put_data(&[]), errcode::ERROR_NO_DATA);
    assert_eq!(rb.put_data(&[1, 2, 3, 4, 5]), errcode::RESULT_SUCCESS);
    assert_eq!(rb.put_data(&[6, 7, 8, 9]), errcode::ERROR_OUTOF_MEM);
    assert_eq!(rb.put_data(&[6, 7, 8]), errcode::RESULT_SUCCESS);
    assert_eq!(rb.len(), 8);

    let mut peeked = [0u8; 4];
    let n = rb.peek_data(2, 10, &mut peeked).unwrap();
    assert_eq!(n, 4);
    assert_eq!(peeked, [3, 4, 5, 6]);
    assert_eq!(rb.len(), 8);

    let mut out = [0u8; 6];
    let n = rb.pull_data(3, &mut out).unwrap();
    assert_eq!(n, 3);
    assert_eq!(&out[0..3], &[1, 2, 3]);
    assert_eq!(rb.len(), 5);

    let n = rb.pull_data(100, &mut out).unwrap();
    assert_eq!(n, 5);
    assert_eq!(&out[0..5], &[4, 5, 6, 7, 8]);
    assert_eq!(rb.pull_data(1, &mut out), Err(errcode::ERROR_NO_DATA));
}

#[test]
fn shared_byte_ring_behaves_like_the_plain_one() {
    let mut rb = ts_ring_buffer_t::new(4).unwrap();
    assert_eq!(rb.put_data(&[9, 8]), errcode::RESULT_SUCCESS);
    assert_eq!(rb.buffer_available(), 2);
    let mut out = [0u8; 2];
    assert_eq!(rb.peek_data(4, 2, &mut out), Err(errcode::ERROR_NO_DATA));
    assert_eq!(rb.pull_data(2, &mut out).unwrap(), 2);
    assert_eq!(out, [9, 8]);
    assert_eq!(rb.len(), 0);
}
