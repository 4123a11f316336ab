#![allow(non_camel_case_types)]
#![allow(non_snake_case)]
#![allow(non_upper_case_globals)]

use rust_rsm::common::errcode;
use rust_rsm::common::strfmt;
use rust_rsm::net_ext::mac_addr::mac_addr_t;
use rust_rsm::rsm::codec::{
    decode_socket_event, decode_value, encode_socket_event, encode_value, rsm_value_t,
};
use rust_rsm::rsm::socket::SOCKET_TYPE;
use rust_rsm::rsm::{rsm_component_t, rsm_message_t, rsm_socket_event_t, RSM_MSG_ID_TIMER};
use rust_rsm::common;
use rust_rsm::common::uuid::uuid_t;

fn round_trip(v: rsm_value_t) -> rsm_value_t {
    let bytes = encode_value(&v);
    decode_value(bytes.as_slice()).expect("an encoded value decodes")
}

#[test]
fn decode_of_encode_is_identity() {
    match round_trip(rsm_value_t::Bool(true)) {
        rsm_value_t::Bool(b) => assert!(b),
        _ => panic!("shape changed"),
    }
    match round_trip(rsm_value_t::Bool(false)) {
        rsm_value_t::Bool(b) => assert!(!b),
        _ => panic!("shape changed"),
    }
    match round_trip(rsm_value_t::U32(0xDEADBEEF)) {
        rsm_value_t::U32(x) => assert_eq!(x, 0xDEADBEEF),
        _ => panic!("shape changed"),
    }
    match round_trip(rsm_value_t::U64(u64::MAX - 5)) {
        rsm_value_t::U64(x) => assert_eq!(x, u64::MAX - 5),
        _ => panic!("shape changed"),
    }
    match round_trip(rsm_value_t::I64(-123456789)) {
        rsm_value_t::I64(x) => assert_eq!(x, -123456789),
        _ => panic!("shape changed"),
    }
    match round_trip(rsm_value_t::Bytes(vec![1, 2, 3, 0, 255])) {
        rsm_value_t::Bytes(b) => assert_eq!(b, vec![1, 2, 3, 0, 255]),
        _ => panic!("shape changed"),
    }
    match round_trip(rsm_value_t::Bytes(Vec::new())) {
        rsm_value_t::Bytes(b) => assert!(b.is_empty()),
        _ => panic!("shape changed"),
    }
}

#[test]
fn mismatched_bytes_decode_to_none() {
    assert!(decode_value(&[]).is_none());
    assert!(decode_value(&[1]).is_none());
    // A bool body whose payload is neither 0 nor 1.
    assert!(decode_value(&[1, 2]).is_none());
    // An unknown tag.
    assert!(decode_value(&[9, 0]).is_none());
    // Truncated fixed-width payloads.
    assert!(decode_value(&[2, 1, 2]).is_none());
    assert!(decode_value(&[3, 1, 2, 3, 4, 5, 6, 7]).is_none());
    // A byte body whose declared length disagrees with what follows.
    assert!(decode_value(&[5, 2, 0, 0, 0, 9]).is_none());
}

#[test]
fn envelope_round_trip_and_size_limit() {
    let sender = rsm_component_t::new(7, 1, 1);
    let msg = rsm_message_t::new(8192, sender, &rsm_value_t::U64(42)).unwrap();
    match msg.decode() {
        Some(rsm_value_t::U64(x)) => assert_eq!(x, 42),
        _ => panic!("envelope body did not round trip"),
    }

    let too_big = rsm_value_t::Bytes(vec![0u8; 64001]);
    assert!(rsm_message_t::new(8192, sender, &too_big).is_none());
    let fits = rsm_value_t::Bytes(vec![0u8; 63995]);
    assert!(rsm_message_t::new(8192, sender, &fits).is_some());

    let timer = rsm_message_t::new_timer_msg(12, 0xBEEF, sender);
    assert_eq!(timer.msg_id, RSM_MSG_ID_TIMER);
    assert_eq!(timer.timer_id, 12);
    assert_eq!(timer.timer_data, 0xBEEF);
}

#[test]
fn socket_event_body_round_trips() {
    let ev = rsm_socket_event_t {
        socket_id: 321,
        sock_type: SOCKET_TYPE::PROTO_STREAM,
        event: 1 | 16,
    };
    let bytes = encode_socket_event(&ev);
    let back = decode_socket_event(bytes.as_slice()).unwrap();
    assert_eq!(back.socket_id, 321);
    assert_eq!(back.sock_type, SOCKET_TYPE::PROTO_STREAM);
    assert_eq!(back.event, 17);

    assert!(decode_socket_event(&[3, 0, 0, 0, 0, 0, 0, 0, 0]).is_none());
    assert!(decode_socket_event(&[0, 0, 0]).is_none());
}

#[test]
fn errcode_names_are_stable() {
    assert_eq!(errcode::errcode_to_string(errcode::RESULT_SUCCESS), "Success");
    assert_eq!(
        errcode::errcode_to_string(errcode::ERROR_NOT_FOUND),
        "Not Found"
    );
    assert_eq!(
        errcode::errcode_to_string(errcode::ERROR_OUTOF_MEM),
        "Out of memory"
    );
    assert_eq!(
        errcode::errcode_to_string(errcode::ERROR_NO_PERMISSION),
        "No Permission"
    );
    assert_eq!(errcode::errcode_to_string(-1), "Unknown Error");
}

#[test]
fn decimal_and_hex_rendering() {
    assert_eq!(strfmt::u64_to_dec(0), "0");
    assert_eq!(strfmt::u64_to_dec(12345), "12345");
    assert_eq!(strfmt::u64_to_dec(u64::MAX), "18446744073709551615");
    assert_eq!(strfmt::u64_to_dec_pad(7, 4), "0007");
    assert_eq!(strfmt::u64_to_dec_pad(12345, 4), "12345");
    assert_eq!(strfmt::u8_to_hex2(0x0a), "0a");
    assert_eq!(strfmt::u8_to_hex2(0xf0), "f0");
    assert_eq!(strfmt::i64_to_dec(-45), "-45");
    assert_eq!(strfmt::i64_to_dec(45), "45");
}

#[test]
fn mac_addr_rendering_and_parsing() {
    let m = mac_addr_t::new(0x01, 0x02, 0x0a, 0xff, 0x00, 0x10);
    assert_eq!(m.to_string(), "01:02:0a:ff:00:10");
    assert_eq!(m.to_u64(), 0x01020aff0010);
    assert!(!m.is_zero());
    assert!(m.is_multicast());
    assert!(!m.is_broadcast());
    assert!(mac_addr_t::new_broadcast().is_broadcast());
    assert!(mac_addr_t::zero().is_zero());

    let parsed = mac_addr_t::from_string(&String::from("01:02:0a:ff:00:10")).unwrap();
    assert_eq!(parsed, m);
    assert!(mac_addr_t::from_string(&String::from("01:02")).is_none());

    let from_num = mac_addr_t::from_u64(0x01020aff0010);
    assert_eq!(from_num, m);
    assert_eq!(mac_addr_t::from_slice(&[1, 2, 10, 255, 0, 16, 9]), m);
    assert!(mac_addr_t::from_slice(&[1, 2]).is_zero());
}

#[test]
fn uuid_rendering() {
    let u = uuid_t::from_u128(1);
    assert_eq!(u.fromat(), "00000000-0000-0000-0000-000000000001");
    assert_eq!(u.as_u128(), 1);
    let v = uuid_t::from_u64(0xDEAD, 0xBEEF);
    assert_eq!(v.as_u128(), (0xDEADu128 << 64) | 0xBEEFu128);
    let w = uuid_t::default();
    assert_eq!(w.as_u128(), 0);
    let r1 = uuid_t::new();
    let r2 = uuid_t::new();
    println!("fresh ids {} {}", r1.fromat(), r2.fromat());
}

#[test]
fn datetime_fields_and_rendering() {
    let epoch = common::get_datetime_from_usec(0, 0);
    assert_eq!(epoch.get_year(), 1970);
    assert_eq!(epoch.get_mon_in_year(), 1);
    assert_eq!(epoch.get_day_in_mon(), 1);
    assert_eq!(common::format_datetime_parts(&epoch), "1970-01-01 00:00:00.000");

    // One day plus 01:02:03.004 past the epoch.
    let usec = (86400u64 + 3600 + 2 * 60 + 3) * 1_000_000 + 4000;
    let t = common::get_datetime_from_usec(usec, 0);
    assert_eq!(t.get_hour_in_day(), 1);
    assert_eq!(t.get_min_in_hour(), 2);
    assert_eq!(t.get_secs_in_min(), 3);
    assert_eq!(t.to_usecs(), usec);

    assert_eq!(common::get_month(0, false), (1, 1));
    assert_eq!(common::get_month(31, false), (2, 1));
    assert_eq!(common::get_month(59, false), (3, 1));
    assert_eq!(common::get_month(59, true), (2, 29));
    assert_eq!(common::get_month(365, false), (common::INVALID_MONTH, 0));
    assert!(common::is_leap_year(2000));
    assert!(!common::is_leap_year(1900));
    assert!(common::is_leap_year(2024));
    assert_eq!(common::ceiling(10, 3), 4);
    assert_eq!(common::ceiling(9, 3), 3);
}
