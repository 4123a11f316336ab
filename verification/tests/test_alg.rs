#![allow(non_camel_case_types)]
#![allow(non_snake_case)]
#![allow(non_upper_case_globals)]

use rust_rsm::alg;
use rust_rsm::alg::prio_queue::priority_queue_t;
use rust_rsm::common;

const MAX_TEST_LEN: usize = 510;
const MAX_TEST_ROUND: usize = 128 * 1024 + 1;
#[test]
fn test_xor_alg() {
    let slice1 = [0x41u8; MAX_TEST_LEN];
    let mut slice2 = [0x65u8; MAX_TEST_LEN];

    let mut cur = common::get_now_usec64();
    for _ in 0..MAX_TEST_ROUND {
        alg::slice_xor_simple(&slice1, &mut slice2);
    }
    println!(
        "\nslice xor simple {} round, spend {} us,v={}",
        MAX_TEST_ROUND,
        common::get_now_usec64() - cur,
        common::rawstring::slice_to_hex_string(&slice2)
    );

    cur = common::get_now_usec64();
    for _ in 0..MAX_TEST_ROUND {
        alg::slice_xor(&slice1, &mut slice2);
    }
    println!(
        "\nslice xor  {} round, spend {} us,v={}",
        MAX_TEST_ROUND,
        common::get_now_usec64() - cur,
        common::rawstring::slice_to_hex_string(&slice2)
    );
}

#[test]
fn test_merge_slice() {
    const MAX_TEST_LOOP: usize = 100;
    const addr1: u32 = 0x0a010101;
    const addr2: u32 = 0x0c010101;
    const addr_num: u32 = 500;
    let iv1 = generate_ip(addr1, addr_num);
    let iv2 = generate_ip(addr2, addr_num);

    let start = common::get_now_usec64();
    for _ in 0..MAX_TEST_LOOP {
        let mut out = iv1.clone();
        let inv = iv2.clone();
        alg::merge_slice(&mut out, &inv);
        if out.len() < (addr_num * 2) as usize {
            println!("{:?}", out);
        }
    }

    println!(
        "Merge slice {} round, addr_num={},spend {} us",
        MAX_TEST_LOOP,
        addr_num,
        common::get_now_usec64() - start
    );

    let start = common::get_now_usec64();
    for _ in 0..MAX_TEST_LOOP {
        let mut out = iv1.clone();
        let inv = iv2.clone();
        alg::merge_slice2(&mut out, &inv);
        if out.len() < (addr_num * 2) as usize {
            println!("{:?}", out);
        }
    }

    println!(
        "Merge slice2 {} round, addr_num={},spend {} us",
        MAX_TEST_LOOP,
        addr_num,
        common::get_now_usec64() - start
    );
}

fn generate_ip(start_addr: u32, num: u32) -> Vec<u32> {
    let mut dst: Vec<u32> = Vec::new();
    for j in start_addr..start_addr + num {
        dst.push(j);
    }

    dst
}

#[test]
fn test_log2_bounds() {
    assert_eq!(alg::log2(0), 0);
    assert_eq!(alg::log2(1), 0);
    assert_eq!(alg::log2(2), 1);
    assert_eq!(alg::log2(3), 1);
    assert_eq!(alg::log2(8), 3);
    assert_eq!(alg::log2(9), 3);
    assert_eq!(alg::log2(u64::MAX), 63);
}

#[test]
fn test_merge_slice_dedup() {
    let mut a: Vec<u32> = vec![1, 2, 3];
    let b: Vec<u32> = vec![2, 3, 4, 5];
    alg::merge_slice(&mut a, &b);
    assert_eq!(a, vec![1, 2, 3, 4, 5]);

    let mut c: Vec<u32> = vec![7, 7];
    let d: Vec<u32> = vec![7, 8];
    alg::merge_slice2(&mut c, &d);
    assert_eq!(c, vec![7, 7, 8]);

    // The snapshot merge tests only against the initial contents: an
    // element occurring twice and absent at the start is appended twice.
    let mut e: Vec<u32> = vec![1];
    let f: Vec<u32> = vec![9, 9];
    alg::merge_slice2(&mut e, &f);
    assert_eq!(e, vec![1, 9, 9]);
    let mut g: Vec<u32> = vec![1];
    alg::merge_slice(&mut g, &f);
    assert_eq!(g, vec![1, 9]);
}

#[test]
fn test_prio_queue_order() {
    let mut q = priority_queue_t::new();
    q.push(10, 5);
    q.push(11, 3);
    q.push(12, 9);
    q.push(13, 3);
    assert_eq!(q.len(), 4);
    let a = q.pop_min().unwrap();
    assert_eq!((a.node_idx, a.priority), (11, 3));
    let b = q.pop_min().unwrap();
    assert_eq!((b.node_idx, b.priority), (13, 3));
    let c = q.pop_min().unwrap();
    assert_eq!((c.node_idx, c.priority), (10, 5));
    let d = q.pop_min().unwrap();
    assert_eq!((d.node_idx, d.priority), (12, 9));
    assert!(q.pop_min().is_none());

    let mut q2 = priority_queue_t::new();
    q2.push_nosort(1, 4);
    q2.push_nosort(2, 1);
    q2.push_nosort(3, 2);
    q2.sort();
    assert_eq!(q2.pop_min().unwrap().priority, 1);
    assert_eq!(q2.pop_min().unwrap().priority, 2);
    assert_eq!(q2.pop_min().unwrap().priority, 4);

    let mut q3 = priority_queue_t::new();
    q3.push(1, 10);
    q3.push(2, 20);
    q3.decrease_priority(1, 5);
    let first = q3.pop_min().unwrap();
    assert_eq!((first.node_idx, first.priority), (2, 5));
}
