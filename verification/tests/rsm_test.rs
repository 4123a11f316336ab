#![allow(non_camel_case_types)]
#![allow(non_snake_case)]
#![allow(non_upper_case_globals)]

use rust_rsm::common::errcode;
use rust_rsm::rsm::codec::rsm_value_t;
use rust_rsm::rsm::rsm_sched::{self, scheduler_t};
use rust_rsm::rsm::rsm_timer::{self, TIMER_CAT_100MS, TIMER_CAT_1S};
use rust_rsm::rsm::socket::{
    SocketPool, SOCKET_ADDRESS_FAMILY, SOCKET_LB_POLICY, SOCKET_TYPE, get_lb_task_id, sock_addr_t,
};
use rust_rsm::rsm::task::{task_action_t, task_t};
use rust_rsm::rsm::{
    component_attrs_t, rsm_component_t, rsm_message_t, E_RSM_TASK_PRIORITY, RSM_MSG_ID_POWER_OFF,
};

fn sample_attrs(cid: u32, inst_num: usize, qlen: usize) -> component_attrs_t {
    component_attrs_t::new(
        &cid,
        "sample",
        inst_num,
        qlen,
        E_RSM_TASK_PRIORITY::THREAD_PRI_NORMAL,
        false,
    )
}

fn new_sched() -> scheduler_t {
    rsm_sched::init_scheduler(256)
}

#[test]
fn register_component_creates_one_task_per_instance() {
    let mut s = new_sched();
    let attrs = sample_attrs(1024, 2, 8);
    assert_eq!(s.registry_component(1024, &attrs), errcode::RESULT_SUCCESS);

    for inst in 1..3usize {
        let id = rsm_component_t::new(1024, 1, inst);
        assert!(s.tasks.contains_key(&id.key()));
    }
    let id3 = rsm_component_t::new(1024, 1, 3);
    assert!(!s.tasks.contains_key(&id3.key()));
    let other = rsm_component_t::new(1025, 1, 1);
    assert!(!s.tasks.contains_key(&other.key()));
}

#[test]
fn register_component_rejects_duplicates() {
    let mut s = new_sched();
    let attrs = sample_attrs(1024, 1, 8);
    assert_eq!(s.registry_component(1024, &attrs), errcode::RESULT_SUCCESS);
    assert_eq!(
        s.registry_component(1024, &attrs),
        errcode::ERROR_ALREADY_EXIST
    );
}

#[test]
fn register_component_rejects_bad_params() {
    let mut s = new_sched();
    let zero = sample_attrs(0, 1, 8);
    assert_eq!(s.registry_component(0, &zero), errcode::ERROR_INVALID_PARAM);
    let none = sample_attrs(1024, 0, 8);
    assert_eq!(
        s.registry_component(1024, &none),
        errcode::ERROR_INVALID_PARAM
    );
    let deep = sample_attrs(1024, 1, 16385);
    assert_eq!(
        s.registry_component(1024, &deep),
        errcode::ERROR_INVALID_PARAM
    );
}

#[test]
fn register_component_accepts_many_instances() {
    // The instance count is bounded only by what the task table can
    // address; seventeen instances create seventeen tasks.
    let mut s = new_sched();
    let wide = sample_attrs(1024, 17, 8);
    assert_eq!(s.registry_component(1024, &wide), errcode::RESULT_SUCCESS);
    for inst in 1..18usize {
        let id = rsm_component_t::new(1024, 1, inst);
        assert!(s.tasks.contains_key(&id.key()));
    }
    let id18 = rsm_component_t::new(1024, 1, 18);
    assert!(!s.tasks.contains_key(&id18.key()));
}

#[test]
fn send_to_unknown_identity_is_not_found() {
    let mut s = new_sched();
    let dst = rsm_component_t::new(1024, 1, 1);
    let sender = rsm_component_t::new_zero();
    let msg = rsm_message_t::new(8192, sender, &rsm_value_t::U64(1)).unwrap();
    assert_eq!(s.send_asyn_msg(&dst, msg), errcode::ERROR_NOT_FOUND);
}

#[test]
fn priority_interleave_orders_dispatch() {
    let mut s = new_sched();
    let attrs = sample_attrs(1024, 1, 8);
    assert_eq!(s.registry_component(1024, &attrs), errcode::RESULT_SUCCESS);
    let dst = rsm_component_t::new(1024, 1, 1);
    let sender = rsm_component_t::new_zero();

    for body in 1..4u64 {
        let msg = rsm_message_t::new(8192, sender, &rsm_value_t::U64(body)).unwrap();
        assert_eq!(s.send_asyn_msg(&dst, msg), errcode::RESULT_SUCCESS);
    }
    let prio = rsm_message_t::new(8192, sender, &rsm_value_t::U64(99)).unwrap();
    assert_eq!(s.send_asyn_priority_msg(&dst, prio), errcode::RESULT_SUCCESS);

    let task = s.tasks.get_mut(&dst.key()).unwrap();
    let mut seen: Vec<u64> = Vec::new();
    while let Some(msg) = task.pop_msg() {
        match msg.decode() {
            Some(rsm_value_t::U64(v)) => seen.push(v),
            _ => panic!("body did not decode"),
        }
    }
    assert_eq!(seen, vec![99, 1, 2, 3]);
}

#[test]
fn full_queue_drop_counts_once() {
    let tid = rsm_component_t::new(1024, 1, 1);
    let mut task = task_t::new(&tid, 4, E_RSM_TASK_PRIORITY::THREAD_PRI_NORMAL);
    let sender = rsm_component_t::new_zero();
    for _ in 0..4 {
        let msg = rsm_message_t::new(8192, sender, &rsm_value_t::U64(7)).unwrap();
        assert_eq!(task.send_asyn_msg(msg), errcode::RESULT_SUCCESS);
    }
    let fifth = rsm_message_t::new(8192, sender, &rsm_value_t::U64(7)).unwrap();
    assert_eq!(task.send_asyn_msg(fifth), errcode::ERROR_OUTOF_MEM);
    let stats = task.get_task_stats(0);
    assert_eq!(stats.drop_msg, 1);
    assert_eq!(stats.recv_msg, 4);
}

#[test]
fn queue_of_size_one_rejects_second_push() {
    let tid = rsm_component_t::new(1024, 1, 1);
    let mut task = task_t::new(&tid, 1, E_RSM_TASK_PRIORITY::THREAD_PRI_NORMAL);
    let sender = rsm_component_t::new_zero();
    let first = rsm_message_t::new(8192, sender, &rsm_value_t::Bool(true)).unwrap();
    assert_eq!(task.send_asyn_msg(first), errcode::RESULT_SUCCESS);
    let second = rsm_message_t::new(8192, sender, &rsm_value_t::Bool(true)).unwrap();
    assert_eq!(task.send_asyn_msg(second), errcode::ERROR_OUTOF_MEM);
}

#[test]
fn blocked_consumer_still_accepts_priority_messages() {
    // A callback that never returns never pops; the queue keeps accepting
    // high-priority messages until it is full, delivering none of them.
    let tid = rsm_component_t::new(1024, 1, 1);
    let mut task = task_t::new(&tid, 4, E_RSM_TASK_PRIORITY::THREAD_PRI_NORMAL);
    let sender = rsm_component_t::new_zero();
    for n in 0..4u64 {
        let msg = rsm_message_t::new(9000, sender, &rsm_value_t::U64(n)).unwrap();
        assert_eq!(task.send_asyn_priority_msg(msg), errcode::RESULT_SUCCESS);
    }
    assert_eq!(task.get_qlen(), 4);
    let stats = task.get_task_stats(0);
    assert_eq!(stats.recv_prio_msg, 4);
}

#[test]
fn power_off_terminates_dispatch_but_not_delivery() {
    let mut s = new_sched();
    let attrs = sample_attrs(1025, 1, 8);
    assert_eq!(s.registry_component(1025, &attrs), errcode::RESULT_SUCCESS);
    let dst = rsm_component_t::new(1025, 1, 1);
    let sender = rsm_component_t::new_zero();

    let off = rsm_message_t::new(RSM_MSG_ID_POWER_OFF, sender, &rsm_value_t::U64(0)).unwrap();
    assert_eq!(s.send_asyn_msg(&dst, off), errcode::RESULT_SUCCESS);

    {
        let task = s.tasks.get_mut(&dst.key()).unwrap();
        let msg = task.pop_msg().unwrap();
        let action = task.dispatch_msg(msg, 1);
        assert!(matches!(action, task_action_t::CallOnClose));
        assert!(task.is_terminated());
        task.finish_dispatch(2);
    }

    // Delivery to the terminated identity still succeeds: the message is
    // buffered, no callback will run.
    let late = rsm_message_t::new(8192, sender, &rsm_value_t::U64(1)).unwrap();
    assert_eq!(s.send_asyn_msg(&dst, late), errcode::RESULT_SUCCESS);
}

#[test]
fn timer_fires_loop_count_times_then_id_is_gone() {
    let mut svc = rsm_timer::init_timer();
    let owner = rsm_component_t::new(1024, 1, 1);
    svc.incr_inner_time_stamp(0);
    let id = svc.set_timer(100, 3, 0xDEAD, owner).unwrap();

    let mut fired = 0;
    for step in 1..6u64 {
        svc.incr_inner_time_stamp(step * 100);
        let fires = svc.scan_timer_cat(TIMER_CAT_1S);
        for f in &fires {
            assert_eq!(f.timer_id, id);
            assert_eq!(f.timer_data, 0xDEAD);
            assert_eq!(f.cid.get_cid(), 1024);
            fired += 1;
        }
    }
    assert_eq!(fired, 3);
    assert_eq!(
        svc.kill_timer_by_id(owner, id),
        errcode::ERROR_NOT_FOUND
    );
}

#[test]
fn one_shot_timer_then_kill_reports_not_found() {
    let mut svc = rsm_timer::init_timer();
    let owner = rsm_component_t::new(1024, 1, 1);
    svc.incr_inner_time_stamp(0);
    let id = svc.set_timer(50, 1, 77, owner).unwrap();
    svc.incr_inner_time_stamp(60);
    let fires = svc.scan_timer_cat(TIMER_CAT_100MS);
    assert_eq!(fires.len(), 1);
    assert_eq!(fires[0].timer_id, id);
    assert_eq!(fires[0].timer_data, 77);
    assert_eq!(svc.kill_timer_by_id(owner, id), errcode::ERROR_NOT_FOUND);
}

#[test]
fn infinite_timer_fires_until_killed() {
    let mut svc = rsm_timer::init_timer();
    let owner = rsm_component_t::new(1024, 1, 1);
    svc.incr_inner_time_stamp(0);
    let id = svc.set_timer(10, 0, 5, owner).unwrap();
    let mut fired = 0;
    for step in 1..9u64 {
        svc.incr_inner_time_stamp(step * 10);
        let fires = svc.scan_timer_cat(TIMER_CAT_100MS);
        fired += fires.len();
    }
    assert_eq!(fired, 8);
    assert_eq!(svc.kill_timer_by_id(owner, id), errcode::RESULT_SUCCESS);
    svc.incr_inner_time_stamp(1000);
    let fires = svc.scan_timer_cat(TIMER_CAT_100MS);
    assert_eq!(fires.len(), 0);
}

#[test]
fn lagging_scan_coalesces_to_one_fire() {
    let mut svc = rsm_timer::init_timer();
    let owner = rsm_component_t::new(1024, 1, 1);
    svc.incr_inner_time_stamp(0);
    let id = svc.set_timer(10, 0, 1, owner).unwrap();
    // Many periods elapse before the scanner runs once: a single fire.
    svc.incr_inner_time_stamp(1000);
    let fires = svc.scan_timer_cat(TIMER_CAT_100MS);
    assert_eq!(fires.len(), 1);
    assert_eq!(fires[0].timer_id, id);
}

#[test]
fn timer_kill_is_owner_checked() {
    let mut svc = rsm_timer::init_timer();
    let owner = rsm_component_t::new(1024, 1, 1);
    let intruder = rsm_component_t::new(1025, 1, 1);
    let id = svc.set_timer(100, 0, 1, owner).unwrap();
    assert_eq!(
        svc.kill_timer_by_id(intruder, id),
        errcode::ERROR_INVALID_STATE
    );
    assert_eq!(svc.kill_timer_by_id(owner, id), errcode::RESULT_SUCCESS);
}

#[test]
fn socket_close_is_owner_checked_and_final() {
    let mut pool = SocketPool::new();
    let a = rsm_component_t::new(1024, 1, 1);
    let b = rsm_component_t::new(1025, 1, 1);
    let id = pool
        .new_socket(a, SOCKET_ADDRESS_FAMILY::SOCKET_INET, SOCKET_TYPE::PROTO_DGRAM, 17, 33)
        .unwrap();

    assert_eq!(
        pool.close_socket(b, id),
        Err(errcode::ERROR_NO_PERMISSION)
    );
    assert_eq!(pool.get_owner(id), Some(a));

    assert_eq!(pool.close_socket(a, id), Ok(33));
    assert_eq!(pool.close_socket(a, id), Err(errcode::ERROR_NOT_FOUND));

    // The freed ID is reusable: the next socket gets it back.
    let id2 = pool
        .new_socket(a, SOCKET_ADDRESS_FAMILY::SOCKET_INET, SOCKET_TYPE::PROTO_DGRAM, 17, 44)
        .unwrap();
    assert_eq!(id2, id);
}

#[test]
fn listener_lb_all_instance_hashes_by_socket_id() {
    let caller = rsm_component_t::new(1025, 1, 1);
    for sock_id in 1..9i32 {
        let dst = get_lb_task_id(
            &caller,
            sock_id,
            SOCKET_LB_POLICY::SOCK_LB_ALL_INSTANCE,
            2,
        );
        assert_eq!(dst.get_inst_id(), (sock_id as usize) % 2 + 1);
        assert_eq!(dst.get_cid(), 1025);
    }
    let kept = get_lb_task_id(&caller, 7, SOCKET_LB_POLICY::SOCK_LB_CALLER_INSTANCE, 2);
    assert_eq!(kept.get_inst_id(), 1);
    let excl = get_lb_task_id(
        &caller,
        7,
        SOCKET_LB_POLICY::SOCK_LB_EXCLUDE_CALLER_INSTANCE,
        1,
    );
    assert_eq!(excl.get_inst_id(), 1);
}

#[test]
fn accepted_connections_follow_the_listener_policy() {
    let mut pool = SocketPool::new();
    let owner = rsm_component_t::new(1025, 1, 1);
    let srv = pool
        .new_socket(owner, SOCKET_ADDRESS_FAMILY::SOCKET_INET, SOCKET_TYPE::PROTO_STREAM, 6, 50)
        .unwrap();
    let mut sock = pool.get_socket_by_idx(srv).unwrap();
    assert_eq!(sock.set_bound(sock_addr_t::new_zero()), errcode::RESULT_SUCCESS);
    assert_eq!(sock.set_listening(), errcode::RESULT_SUCCESS);
    sock.set_lb_policy(SOCKET_LB_POLICY::SOCK_LB_ALL_INSTANCE);
    assert_eq!(pool.update_socket(srv, sock), errcode::RESULT_SUCCESS);
    assert!(pool.is_tcp_server(srv));

    let c1 = pool.accept(srv, 51, sock_addr_t::new_zero(), 2).unwrap();
    let c2 = pool.accept(srv, 52, sock_addr_t::new_zero(), 2).unwrap();
    assert_eq!(
        pool.get_owner(c1).unwrap().get_inst_id(),
        (c1 as usize) % 2 + 1
    );
    assert_eq!(
        pool.get_owner(c2).unwrap().get_inst_id(),
        (c2 as usize) % 2 + 1
    );
    assert_ne!(c1, c2);
}

#[test]
fn accept_requires_a_listening_server() {
    let mut pool = SocketPool::new();
    let owner = rsm_component_t::new(1025, 1, 1);
    let plain = pool
        .new_socket(owner, SOCKET_ADDRESS_FAMILY::SOCKET_INET, SOCKET_TYPE::PROTO_STREAM, 6, 60)
        .unwrap();
    assert_eq!(
        pool.accept(plain, 61, sock_addr_t::new_zero(), 2),
        Err(errcode::ERROR_INVALID_STATE)
    );
    assert_eq!(
        pool.accept(9999, 61, sock_addr_t::new_zero(), 2),
        Err(errcode::ERROR_NOT_FOUND)
    );
}

#[test]
fn os_priority_mapping_matches_the_table() {
    assert_eq!(
        rsm_sched::map_os_priority(E_RSM_TASK_PRIORITY::THREAD_PRI_LOW),
        (rsm_sched::SCHED_POLICY_OTHER, 0)
    );
    assert_eq!(
        rsm_sched::map_os_priority(E_RSM_TASK_PRIORITY::THREAD_PRI_NORMAL),
        (rsm_sched::SCHED_POLICY_OTHER, 50)
    );
    assert_eq!(
        rsm_sched::map_os_priority(E_RSM_TASK_PRIORITY::THREAD_PRI_HIGH),
        (rsm_sched::SCHED_POLICY_OTHER, 80)
    );
    assert_eq!(
        rsm_sched::map_os_priority(E_RSM_TASK_PRIORITY::THREAD_PRI_REALTIME),
        (rsm_sched::SCHED_POLICY_RR, 10)
    );
    assert_eq!(
        rsm_sched::map_os_priority(E_RSM_TASK_PRIORITY::THREAD_PRI_REALTIME_HIGH),
        (rsm_sched::SCHED_POLICY_RR, 50)
    );
    assert_eq!(
        rsm_sched::map_os_priority(E_RSM_TASK_PRIORITY::THREAD_PRI_REALTIME_HIGHEST),
        (rsm_sched::SCHED_POLICY_RR, 99)
    );
}

#[test]
fn sender_identity_is_observable_during_dispatch() {
    let mut s = new_sched();
    let attrs = sample_attrs(1024, 1, 8);
    assert_eq!(s.registry_component(1024, &attrs), errcode::RESULT_SUCCESS);
    let dst = rsm_component_t::new(1024, 1, 1);
    let sender = rsm_component_t::new(1030, 1, 1);
    let racer = rsm_component_t::new(1031, 1, 1);
    let msg = rsm_message_t::new(8192, sender, &rsm_value_t::U64(1)).unwrap();
    assert_eq!(s.send_asyn_msg(&dst, msg), errcode::RESULT_SUCCESS);

    s.bind_thread(42, &dst);
    assert_eq!(s.get_self_cid(42), Some(dst));
    // Enqueueing records no sender; only dispatch does.
    assert_eq!(s.get_sender_cid(42), None);

    {
        let task = s.tasks.get_mut(&dst.key()).unwrap();
        let m = task.pop_msg().unwrap();
        task.dispatch_msg(m, 1);
    }
    assert_eq!(s.get_sender_cid(42), Some(sender));

    // A racing send during the dispatch does not clobber the observation.
    let racing = rsm_message_t::new(8192, racer, &rsm_value_t::U64(2)).unwrap();
    assert_eq!(s.send_asyn_msg(&dst, racing), errcode::RESULT_SUCCESS);
    assert_eq!(s.get_sender_cid(42), Some(sender));
    assert_eq!(s.get_self_cid(43), None);
}
