#![allow(non_camel_case_types)]
#![allow(non_snake_case)]
#![allow(non_upper_case_globals)]

use rust_rsm::common::atomicqueue::AtomicDequeue;
use rust_rsm::common::errcode;
use rust_rsm::rsm::oam::{get_cmd_by_name, oam_cmd_resp_t, E_RSM_OAM_OP};

#[test]
fn command_names_map_to_operations() {
    assert_eq!(get_cmd_by_name(&String::from("ADD")), E_RSM_OAM_OP::CLI_OP_ADD);
    assert_eq!(get_cmd_by_name(&String::from("DEL")), E_RSM_OAM_OP::CLI_OP_DEL);
    assert_eq!(get_cmd_by_name(&String::from("SET")), E_RSM_OAM_OP::CLI_OP_SET);
    assert_eq!(get_cmd_by_name(&String::from("SHOW")), E_RSM_OAM_OP::CLI_OP_SHOW);
    assert_eq!(
        get_cmd_by_name(&String::from("show")),
        E_RSM_OAM_OP::CLI_OP_INVALID
    );
}

#[test]
fn response_rows_pair_headers_with_values() {
    let mut resp = oam_cmd_resp_t::new(errcode::RESULT_SUCCESS, &String::from("ok"));
    assert_eq!(resp.RetCode, errcode::RESULT_SUCCESS);
    assert_eq!(resp.Description, "ok");

    resp.set_row_hdr(vec![String::from("cid"), String::from("inst")]);
    assert_eq!(
        resp.add_row(&vec![String::from("1024")]),
        errcode::ERROR_INVALID_PARAM
    );
    assert_eq!(
        resp.add_row(&vec![String::from("1024"), String::from("1")]),
        errcode::RESULT_SUCCESS
    );
    assert_eq!(resp.RespRows.len(), 1);
    assert_eq!(resp.RespRows[0].row[0].Name, "cid");
    assert_eq!(resp.RespRows[0].row[0].Value, "1024");
    assert_eq!(resp.RespRows[0].row[1].Name, "inst");
    assert_eq!(resp.RespRows[0].row[1].Value, "1");

    resp.clear();
    assert_eq!(resp.RespRows.len(), 0);
}

#[test]
fn queue_capacity_is_a_power_of_two_at_least_the_request() {
    let q1: AtomicDequeue<u32> = AtomicDequeue::new(1);
    assert_eq!(q1.capacity(), 1);
    let q3: AtomicDequeue<u32> = AtomicDequeue::new(3);
    assert_eq!(q3.capacity(), 4);
    let q8: AtomicDequeue<u32> = AtomicDequeue::new(8);
    assert_eq!(q8.capacity(), 8);
    let qbig: AtomicDequeue<u32> = AtomicDequeue::new(100000);
    assert_eq!(qbig.capacity(), 131072);
}

#[test]
fn deque_pops_both_ends() {
    let mut q: AtomicDequeue<u32> = AtomicDequeue::new(4);
    assert_eq!(q.push_back(1), errcode::RESULT_SUCCESS);
    assert_eq!(q.push_back(2), errcode::RESULT_SUCCESS);
    assert_eq!(q.push_front(0), errcode::RESULT_SUCCESS);
    assert_eq!(q.len(), 3);
    assert_eq!(q.pop_back(), Some(2));
    assert_eq!(q.pop_front(), Some(0));
    assert_eq!(q.pop_front(), Some(1));
    assert_eq!(q.pop_front(), None);
    assert_eq!(q.pop_back(), None);
}
