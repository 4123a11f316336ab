//! The runtime's shared contracts: component identity, the message ID space,
//! the message envelope, and the capability set a component implements.

pub mod codec;
pub mod socket;
pub mod task;
pub mod rsm_sched;
pub mod rsm_timer;
pub mod oam;
pub mod xlog;

use vstd::prelude::*;
use vstd::string::*;
use crate::common::strfmt;
use crate::rsm::codec::{rsm_value_t, spec_encode_value};

verus! {

pub type rsm_component_id_t = u32;

pub type rsm_node_id_t = u32;

pub type rsm_timer_id_t = i32;

pub type rsm_message_id_t = u32;

pub const RSM_MODULE_NAME: &'static str = "rust_rsm";

pub const RSM_INVALID_CID: u32 = 0;

pub const RSM_SYSTEM_CID_START: u32 = 1;

pub const RSM_SYSTEM_CID_END: u32 = 1023;

pub const RSM_USER_CID_START: u32 = 1024;

/// Declared sizing hint for instances per component; registration itself
/// bounds the instance count only by the key packing below.
pub const RSM_MAX_INST_PER_CID: usize = 16;

/// Largest instance index the task table can address: the identity key
/// packs the instance index into 32 bits.
pub const RSM_MAX_INST_ID: usize = 0xFFFFFFFF;

/// Largest accepted message queue length.
pub const RSM_MAX_QUEUE_LEN: usize = 16384;

/// Largest accepted encoded message body.
pub const RSM_MAX_MESSAGE_LEN: usize = 64000;

/// Task scheduling priority classes, mapped to OS priorities at start.
#[derive(Copy, Clone, PartialEq, Eq, Structural, Debug)]
pub enum E_RSM_TASK_PRIORITY {
    THREAD_PRI_LOW,
    THREAD_PRI_NORMAL,
    THREAD_PRI_HIGH,
    THREAD_PRI_REALTIME,
    THREAD_PRI_REALTIME_HIGH,
    THREAD_PRI_REALTIME_HIGHEST,
}

/// Identity of one running task: component class, node, and 1-based instance.
#[derive(Eq, PartialEq, Structural, Hash, Clone, Debug, Copy)]
pub struct rsm_component_t {
    pub cid: rsm_component_id_t,
    pub node_id: rsm_node_id_t,
    pub inst_id: usize,
}

impl rsm_component_t {
    pub fn new(id: rsm_component_id_t, node_id: u32, inst_id: usize) -> (r: Self)
        ensures
            r.cid == id,
            r.node_id == node_id,
            r.inst_id == inst_id,
    {
        Self { cid: id, node_id, inst_id }
    }

    pub fn new_zero() -> (r: Self)
        ensures
            r.cid == 0,
            r.node_id == 0,
            r.inst_id == 0,
    {
        Self { cid: 0, node_id: 0, inst_id: 0 }
    }

    pub fn get_cid(&self) -> (r: rsm_component_id_t)
        ensures
            r == self.cid,
    {
        self.cid
    }

    pub fn get_inst_id(&self) -> (r: usize)
        ensures
            r == self.inst_id,
    {
        self.inst_id
    }

    /// The dense key an identity occupies in the task table.
    pub open spec fn spec_key(&self) -> int {
        (self.node_id as int) * 0x10000000000000000 + (self.cid as int) * 0x100000000 + (
        self.inst_id as int) % 0x100000000
    }

    /// Table key of this identity; distinct identities with instance numbers
    /// below 2^32 get distinct keys.
    pub fn key(&self) -> (r: u128)
        ensures
            r == self.spec_key(),
    {
        proof {
            assert((self.node_id as int) * 0x10000000000000000 + (self.cid as int) * 0x100000000 + (
            self.inst_id as int) % 0x100000000 < u128::MAX) by (nonlinear_arith)
                requires
                    self.node_id <= u32::MAX,
                    self.cid <= u32::MAX,
                    self.inst_id >= 0,
            ;
            assert((self.inst_id as u128) % 0x100000000u128 == (self.inst_id as int) % 0x100000000)
                by (nonlinear_arith);
        }
        (self.node_id as u128) * 0x10000000000000000u128 + (self.cid as u128) * 0x100000000u128 + (
        self.inst_id as u128) % 0x100000000u128
    }

    /// Human-readable identity, as the runtime's diagnostics print it.
    pub fn to_string(&self) -> (r: String)
        ensures
            r@.len() > 0,
    {
        proof {
            reveal_strlit("(node_id=");
            reveal_strlit(", cid=");
            reveal_strlit(",inst_id=");
            reveal_strlit(")");
        }
        let mut s = "(node_id=".to_owned();
        s.append(strfmt::u64_to_dec(self.node_id as u64).as_str());
        s.append(", cid=");
        s.append(strfmt::u64_to_dec(self.cid as u64).as_str());
        s.append(",inst_id=");
        s.append(strfmt::u64_to_dec(self.inst_id as u64).as_str());
        s.append(")");
        s
    }
}

/// Keys collide only when identities agree (for instance numbers below 2^32).
pub proof fn lemma_key_injective(a: rsm_component_t, b: rsm_component_t)
    requires
        a.inst_id < 0x100000000,
        b.inst_id < 0x100000000,
        a.spec_key() == b.spec_key(),
    ensures
        a.cid == b.cid,
        a.node_id == b.node_id,
        a.inst_id == b.inst_id,
{
    assert(a.cid == b.cid && a.node_id == b.node_id && a.inst_id == b.inst_id)
        by (nonlinear_arith)
        requires
            a.inst_id < 0x100000000,
            b.inst_id < 0x100000000,
            (a.node_id as int) * 0x10000000000000000 + (a.cid as int) * 0x100000000 + (
            a.inst_id as int) % 0x100000000 == (b.node_id as int) * 0x10000000000000000 + (
            b.cid as int) * 0x100000000 + (b.inst_id as int) % 0x100000000,
            a.cid <= u32::MAX,
            b.cid <= u32::MAX,
            a.node_id <= u32::MAX,
            b.node_id <= u32::MAX,
    ;
}

/// Socket readiness event bits.
pub type SOCKET_EVENT = u32;

pub const SOCK_EVENT_READ: SOCKET_EVENT = 1;

pub const SOCK_EVENT_WRITE: SOCKET_EVENT = 2;

pub const SOCK_EVENT_NEW: SOCKET_EVENT = 4;

pub const SOCK_EVENT_ERR: SOCKET_EVENT = 8;

pub const SOCK_EVENT_CLOSE: SOCKET_EVENT = 16;

/// Attributes a component registers with.
pub struct component_attrs_t {
    pub cid: rsm_component_id_t,
    pub name: String,
    pub inst_num: usize,
    pub qlen: usize,
    pub priority: E_RSM_TASK_PRIORITY,
    pub need_init_ack: bool,
}

impl Clone for component_attrs_t {
    fn clone(&self) -> (r: Self)
        ensures
            r == *self,
    {
        Self {
            cid: self.cid,
            name: self.name.clone(),
            inst_num: self.inst_num,
            qlen: self.qlen,
            priority: self.priority,
            need_init_ack: self.need_init_ack,
        }
    }
}

impl component_attrs_t {
    pub fn new(
        cid: &rsm_component_id_t,
        name: &str,
        inst_num: usize,
        qlen: usize,
        prio: E_RSM_TASK_PRIORITY,
        need_init_ack: bool,
    ) -> (r: Self)
        ensures
            r.cid == cid,
            r.name@ == name@,
            r.inst_num == inst_num,
            r.qlen == qlen,
            r.priority == prio,
            r.need_init_ack == need_init_ack,
    {
        Self { cid: *cid, name: name.to_owned(), inst_num, qlen, priority: prio, need_init_ack }
    }
}

/// Reserved message identifiers.
pub const RSM_SYS_MESSAGE_ID_START: u32 = 1;

pub const RSM_SYS_MESSAGE_ID_END: u32 = 8191;

pub const RSM_USER_MESSAGE_ID_START: u32 = 8192;

pub const RSM_INVALID_MESSAGE_ID: u32 = 0;

pub const RSM_MSG_ID_MASTER_POWER_ON: u32 = 1;

pub const RSM_MSG_ID_SLAVE_POWER_ON: u32 = 2;

pub const RSM_MSG_ID_POWER_ON_ACK: u32 = 3;

pub const RSM_MSG_ID_POWER_OFF: u32 = 4;

pub const RSM_MSG_ID_TIMER: u32 = 10;

pub const RSM_MSG_ID_SOCKET: u32 = 12;

/// The immutable message envelope: a message ID, the sender's identity,
/// timer details for timer messages, and an opaque encoded body.
#[derive(Clone, Debug)]
pub struct rsm_message_t {
    pub msg_id: u32,
    pub timer_id: rsm_timer_id_t,
    pub timer_data: usize,
    pub sender: rsm_component_t,
    pub msg_body: Vec<u8>,
}

impl rsm_message_t {
    /// Whether a body value fits in one envelope once encoded.
    pub open spec fn spec_body_fits(body: rsm_value_t) -> bool {
        spec_encode_value(body).len() <= RSM_MAX_MESSAGE_LEN
    }

    /// Build an envelope carrying an encoded body. Yields nothing when the
    /// encoded body would exceed the message size limit. The sender identity
    /// is supplied by the caller: the lookup of the calling thread's own
    /// identity lives with the application shell.
    pub fn new(msg_id: rsm_message_id_t, sender: rsm_component_t, body: &rsm_value_t) -> (r: Option<
        rsm_message_t,
    >)
        ensures
            r is Some <==> Self::spec_body_fits(*body),
            r matches Some(m) ==> m.msg_id == msg_id && m.sender == sender && m.timer_id == 0
                && m.timer_data == 0 && m.msg_body@ == spec_encode_value(*body),
    {
        match body {
            rsm_value_t::Bytes(b) => {
                if b.len() > RSM_MAX_MESSAGE_LEN {
                    return None;
                }
            },
            _ => {},
        }
        let encoded = codec::encode_value(body);
        if encoded.len() > RSM_MAX_MESSAGE_LEN {
            return None;
        }
        Some(Self { msg_id, timer_id: 0, timer_data: 0, sender, msg_body: encoded })
    }

    /// The envelope a timer expiry is delivered in: `msg_id` is the timer
    /// message ID, the body is empty.
    pub fn new_timer_msg(
        timer_id: rsm_timer_id_t,
        timer_data: usize,
        sender: rsm_component_t,
    ) -> (r: rsm_message_t)
        ensures
            r.msg_id == RSM_MSG_ID_TIMER,
            r.timer_id == timer_id,
            r.timer_data == timer_data,
            r.sender == sender,
            r.msg_body@.len() == 0,
    {
        Self { msg_id: RSM_MSG_ID_TIMER, timer_id, timer_data, sender, msg_body: Vec::new() }
    }

    /// Recover the body value. Succeeds exactly when the body bytes are the
    /// encoding of some value; an envelope whose body was built by `new`
    /// always decodes back to the value it was built from.
    pub fn decode(&self) -> (r: Option<rsm_value_t>)
        ensures
            r is Some <==> codec::spec_decodable(self.msg_body@),
            r matches Some(v) ==> codec::spec_decoded(self.msg_body@, v),
    {
        codec::decode_value(self.msg_body.as_slice())
    }
}

/// The capability set of a component: the callbacks its tasks are driven by.
/// Implementations live with the application; the runtime only ever calls
/// them from the task's own thread, one at a time.
pub trait Runnable {
    /// Called once when the task starts, before any message is delivered.
    fn on_init(&mut self, cid: &rsm_component_t);

    /// Called for each timer expiry event the task receives.
    fn on_timer(&mut self, cid: &rsm_component_t, timer_id: rsm_timer_id_t, timer_data: usize);

    /// Called for each socket readiness event the task receives.
    fn on_socket_event(&mut self, cid: &rsm_component_t, event: rsm_socket_event_t);

    /// Called for every other message.
    fn on_message(&mut self, cid: &rsm_component_t, msg_id: rsm_message_id_t, msg: &rsm_message_t);

    /// Called when the task shuts down.
    fn on_close(&mut self, cid: &rsm_component_t);
}

/// A socket readiness event as delivered to the owning task.
#[derive(Clone, Debug)]
pub struct rsm_socket_event_t {
    pub socket_id: i32,
    pub sock_type: crate::rsm::socket::SOCKET_TYPE,
    pub event: SOCKET_EVENT,
}

} // verus!
