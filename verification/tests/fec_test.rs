#![allow(non_camel_case_types)]
#![allow(non_snake_case)]
#![allow(non_upper_case_globals)]

use rust_rsm::common::errcode;
use rust_rsm::net_ext::fec::{fec_decoder_stream_t, fec_packet_t, FEC_HDR_SIZE};

#[test]
fn parity_recovers_the_missing_packet() {
    let p1: Vec<u8> = vec![1, 2, 3, 4, 5];
    let p2: Vec<u8> = vec![9, 8, 7];
    let p3: Vec<u8> = vec![0xAA, 0x55, 0x11, 0x22];

    // Encoder: fold all three source packets into the parity packet.
    let mut enc = fec_packet_t::new();
    enc.start_encoder(1, 3);
    assert!(enc.is_first_packet());
    assert_eq!(enc.add_raw_packet(1, &p1), errcode::ERROR_NO_OP);
    assert_eq!(enc.add_raw_packet(2, &p2), errcode::ERROR_NO_OP);
    assert!(!enc.is_fec_finished());
    assert_eq!(enc.add_raw_packet(3, &p3), errcode::RESULT_SUCCESS);
    assert!(enc.is_fec_finished());
    assert_eq!(enc.get_recv_pkt_count(), 3);
    let parity = enc.to_packet_bytes();
    assert_eq!(parity.len(), FEC_HDR_SIZE + 5);

    // Decoder: two of the three source packets and the parity suffice.
    let mut dec = fec_packet_t::new();
    dec.start_decoder(1, 3);
    assert_eq!(dec.add_raw_packet(1, &p1), errcode::ERROR_NO_OP);
    assert_eq!(dec.add_raw_packet(3, &p3), errcode::ERROR_NO_OP);
    assert_eq!(dec.add_fec_packet(2, &parity), errcode::RESULT_SUCCESS);
    assert!(dec.is_fec_finished());
    assert!(dec.is_fec_pkt_recved());

    let (rebuilt, seq) = dec.get_raw_packet_slice().expect("one packet is missing");
    assert_eq!(seq, 2);
    assert_eq!(rebuilt, &p2[..]);
}

#[test]
fn duplicate_and_out_of_group_packets_are_refused() {
    let mut enc = fec_packet_t::new();
    enc.start_encoder(10, 5);
    assert_eq!(enc.get_start_seq(), 10);
    assert_eq!(enc.next_start_seq(), 15);
    assert_eq!(enc.add_raw_packet(9, &[1]), errcode::ERROR_INVALID_MSG);
    assert_eq!(enc.add_raw_packet(15, &[1]), errcode::ERROR_INVALID_MSG);
    assert_eq!(enc.add_raw_packet(11, &[1, 2]), errcode::ERROR_NO_OP);
    assert_eq!(enc.add_raw_packet(11, &[1, 2]), errcode::ERROR_ALREADY_EXIST);
    assert_eq!(enc.get_recv_pkt_count(), 1);
    assert_eq!(enc.get_payload_len(), 2);
    assert_eq!(enc.get_packet_len(), FEC_HDR_SIZE + 2);

    enc.next_session(4);
    assert_eq!(enc.get_start_seq(), 14);
    assert!(enc.is_first_packet());
    assert_eq!(enc.get_recv_pkt_count(), 0);
}

#[test]
fn stream_decoder_recovers_in_flight() {
    let p1: Vec<u8> = vec![1, 2, 3, 4, 5];
    let p2: Vec<u8> = vec![9, 8, 7];
    let p3: Vec<u8> = vec![0xAA, 0x55, 0x11, 0x22];

    let mut enc = fec_packet_t::new();
    enc.start_encoder(1, 3);
    enc.add_raw_packet(1, &p1);
    enc.add_raw_packet(2, &p2);
    enc.add_raw_packet(3, &p3);
    let parity = enc.to_packet_bytes();

    let mut stream = fec_decoder_stream_t::new(1, 3);
    assert_eq!(stream.get_start_seq(), 1);
    assert_eq!(stream.get_start_idx(), 0);
    assert_eq!(stream.seq_window_len(), 48);
    assert!(stream.add_raw_packet(1, &p1).is_err());
    assert!(stream.add_raw_packet(3, &p3).is_err());
    {
        let (rebuilt, seq) = stream
            .add_fec_packet(3, &parity)
            .expect("two packets and parity complete the group");
        assert_eq!(seq, 2);
        assert_eq!(rebuilt, &p2[..]);
    }
    // The finished group was retired and the window moved one group on.
    assert_eq!(stream.get_start_seq(), 4);
    assert_eq!(stream.get_start_idx(), 1);
}

#[test]
fn stream_decoder_resynchronizes_on_misaligned_parity() {
    let mut stream = fec_decoder_stream_t::new(1, 3);
    // A parity whose end sequence is not on a group boundary forces resync.
    let res = stream.add_fec_packet(4, &[0u8; 40]);
    assert_eq!(res, Err(rust_rsm::common::errcode::ERROR_NO_OP));
    assert_eq!(stream.get_start_seq(), 5);
}
