//! One task: the pairing of an identity, a bounded two-class message queue,
//! and per-task counters. The dispatch decision — which callback one dequeued
//! envelope drives, and how the task's state and counters change — is a pure
//! step function here; the surrounding thread loop performs the calls.

use vstd::prelude::*;
use vstd::string::*;
use crate::common::{errcode, strfmt};
use crate::common::atomicqueue::AtomicDequeue;
use crate::rsm::{
    rsm_component_t, rsm_message_t, rsm_message_id_t, rsm_timer_id_t, rsm_socket_event_t,
    E_RSM_TASK_PRIORITY, RSM_MAX_QUEUE_LEN, RSM_MSG_ID_TIMER, RSM_MSG_ID_SOCKET,
    RSM_MSG_ID_MASTER_POWER_ON, RSM_MSG_ID_SLAVE_POWER_ON, RSM_MSG_ID_POWER_OFF,
    RSM_INVALID_MESSAGE_ID,
};
use crate::rsm::codec;

verus! {

/// Per-task counters, readable by diagnostics.
#[derive(Clone, Copy, Debug)]
pub struct task_stats_t {
    pub recv_msg: u64,
    pub recv_prio_msg: u64,
    pub drop_msg: u64,
    pub drop_prio_msg: u64,
    pub timer_ev_count: u64,
    pub cur_msg_id: u32,
    pub last_run_at: u64,
    pub last_run_usec: u64,
    pub cur_run_usec: u64,
}

impl task_stats_t {
    /// All counters zero.
    pub open spec fn spec_zero() -> task_stats_t {
        task_stats_t {
            recv_msg: 0,
            recv_prio_msg: 0,
            drop_msg: 0,
            drop_prio_msg: 0,
            timer_ev_count: 0,
            cur_msg_id: 0,
            last_run_at: 0,
            last_run_usec: 0,
            cur_run_usec: 0,
        }
    }

    pub fn new_zero() -> (r: Self)
        ensures
            r.recv_msg == 0 && r.recv_prio_msg == 0 && r.drop_msg == 0 && r.drop_prio_msg == 0
                && r.timer_ev_count == 0 && r.cur_msg_id == 0 && r.last_run_at == 0
                && r.last_run_usec == 0 && r.cur_run_usec == 0,
    {
        Self {
            recv_msg: 0,
            recv_prio_msg: 0,
            drop_msg: 0,
            drop_prio_msg: 0,
            timer_ev_count: 0,
            cur_msg_id: 0,
            last_run_at: 0,
            last_run_usec: 0,
            cur_run_usec: 0,
        }
    }
}

impl Default for task_stats_t {
    fn default() -> (r: Self)
        ensures
            r.recv_msg == 0 && r.recv_prio_msg == 0 && r.drop_msg == 0 && r.drop_prio_msg == 0
                && r.timer_ev_count == 0 && r.cur_msg_id == 0 && r.last_run_at == 0
                && r.last_run_usec == 0 && r.cur_run_usec == 0,
    {
        Self::new_zero()
    }
}

/// What the dispatch loop must do with one dequeued envelope.
pub enum task_action_t {
    /// Invoke `on_init` (power-on messages).
    CallOnInit,
    /// Invoke `on_timer` with the envelope's timer details.
    CallOnTimer { timer_id: rsm_timer_id_t, timer_data: usize },
    /// Invoke `on_socket_event` with the decoded event.
    CallOnSocketEvent { event: rsm_socket_event_t },
    /// Invoke `on_message`, handing the envelope through.
    CallOnMessage { msg_id: rsm_message_id_t, msg: rsm_message_t },
    /// Invoke `on_close` and stop the dispatch loop.
    CallOnClose,
    /// Deliver nothing (a socket envelope whose body did not decode).
    Skip,
}

/// Saturating counter step: the step the task counters take.
pub open spec fn spec_bump(c: u64) -> u64 {
    if c < u64::MAX {
        (c + 1) as u64
    } else {
        c
    }
}

fn bump(c: u64) -> (r: u64)
    ensures
        r == spec_bump(c),
{
    if c < u64::MAX {
        c + 1
    } else {
        c
    }
}

pub struct task_t {
    pub tid: rsm_component_t,
    pub recv_q: AtomicDequeue<rsm_message_t>,
    pub priority: E_RSM_TASK_PRIORITY,
    pub stats: task_stats_t,
    pub sender: Option<rsm_component_t>,
    pub terminated: bool,
}

impl task_t {
    pub open spec fn wf(&self) -> bool {
        self.recv_q.wf()
    }

    /// A fresh task: empty queue sized to the component's requested length,
    /// zero counters, not terminated.
    pub fn new(tid: &rsm_component_t, q_len: usize, prio: E_RSM_TASK_PRIORITY) -> (r: Self)
        requires
            q_len <= RSM_MAX_QUEUE_LEN,
        ensures
            r.wf(),
            r.tid == tid,
            r.priority == prio,
            r.recv_q@ == Seq::<rsm_message_t>::empty(),
            r.recv_q.spec_capacity() >= q_len,
            q_len >= 1 ==> r.recv_q.spec_capacity() < 2 * q_len,
            r.stats == task_stats_t::spec_zero(),
            r.sender is None,
            !r.terminated,
    {
        Self {
            tid: tid.clone(),
            recv_q: AtomicDequeue::new(q_len),
            priority: prio,
            stats: task_stats_t::new_zero(),
            sender: None,
            terminated: false,
        }
    }

    pub fn get_self_cid(&self) -> (r: Option<rsm_component_t>)
        ensures
            r == Some(self.tid),
    {
        Some(self.tid)
    }

    /// Enqueue a normal message: it joins the tail when there is room and the
    /// received counter grows; a full queue refuses it, counts the drop, and
    /// leaves the queue unchanged.
    pub fn send_asyn_msg(&mut self, msg: rsm_message_t) -> (res: errcode::RESULT)
        requires
            old(self).wf(),
        ensures
            final(self).wf(),
            final(self).tid == old(self).tid,
            final(self).terminated == old(self).terminated,
            final(self).recv_q.spec_capacity() == old(self).recv_q.spec_capacity(),
            final(self).sender == old(self).sender,
            final(self).priority == old(self).priority,
            old(self).recv_q@.len() < old(self).recv_q.spec_capacity() ==> {
                &&& res == errcode::RESULT_SUCCESS
                &&& final(self).recv_q@ == old(self).recv_q@.push(msg)
                &&& final(self).stats == (task_stats_t {
                    recv_msg: spec_bump(old(self).stats.recv_msg),
                    ..old(self).stats
                })
            },
            old(self).recv_q@.len() >= old(self).recv_q.spec_capacity() ==> {
                &&& res == errcode::ERROR_OUTOF_MEM
                &&& final(self).recv_q@ == old(self).recv_q@
                &&& final(self).stats == (task_stats_t {
                    drop_msg: spec_bump(old(self).stats.drop_msg),
                    ..old(self).stats
                })
            },
    {
        let res = self.recv_q.push_back(msg);
        if res == errcode::RESULT_SUCCESS {
            self.stats.recv_msg = bump(self.stats.recv_msg);
        } else {
            self.stats.drop_msg = bump(self.stats.drop_msg);
        }
        res
    }

    /// Enqueue a high-priority message at the head: it will be dequeued
    /// before every message already queued. A full queue refuses it and
    /// counts the drop.
    pub fn send_asyn_priority_msg(&mut self, msg: rsm_message_t) -> (res: errcode::RESULT)
        requires
            old(self).wf(),
        ensures
            final(self).wf(),
            final(self).tid == old(self).tid,
            final(self).terminated == old(self).terminated,
            final(self).recv_q.spec_capacity() == old(self).recv_q.spec_capacity(),
            final(self).sender == old(self).sender,
            final(self).priority == old(self).priority,
            old(self).recv_q@.len() < old(self).recv_q.spec_capacity() ==> {
                &&& res == errcode::RESULT_SUCCESS
                &&& final(self).recv_q@ == seq![msg] + old(self).recv_q@
                &&& final(self).stats == (task_stats_t {
                    recv_prio_msg: spec_bump(old(self).stats.recv_prio_msg),
                    ..old(self).stats
                })
            },
            old(self).recv_q@.len() >= old(self).recv_q.spec_capacity() ==> {
                &&& res == errcode::ERROR_OUTOF_MEM
                &&& final(self).recv_q@ == old(self).recv_q@
                &&& final(self).stats == (task_stats_t {
                    drop_prio_msg: spec_bump(old(self).stats.drop_prio_msg),
                    ..old(self).stats
                })
            },
    {
        let res = self.recv_q.push_front(msg);
        if res == errcode::RESULT_SUCCESS {
            self.stats.recv_prio_msg = bump(self.stats.recv_prio_msg);
        } else {
            self.stats.drop_prio_msg = bump(self.stats.drop_prio_msg);
        }
        res
    }

    /// Take the next envelope to dispatch, from the head of the queue.
    pub fn pop_msg(&mut self) -> (r: Option<rsm_message_t>)
        requires
            old(self).wf(),
        ensures
            final(self).wf(),
            final(self).tid == old(self).tid,
            final(self).stats == old(self).stats,
            final(self).terminated == old(self).terminated,
            final(self).recv_q.spec_capacity() == old(self).recv_q.spec_capacity(),
            old(self).recv_q@.len() == 0 ==> r is None && final(self).recv_q@ == old(self).recv_q@,
            old(self).recv_q@.len() > 0 ==> r == Some(old(self).recv_q@[0]) && final(self).recv_q@
                == old(self).recv_q@.subrange(1, old(self).recv_q@.len() as int),
    {
        self.recv_q.pop_front()
    }

    /// The action one dequeued envelope drives, by its message ID: timer
    /// messages go to `on_timer`, socket messages decode their event for
    /// `on_socket_event` (an undecodable one delivers nothing), power-on goes
    /// to `on_init`, power-off goes to `on_close` and terminates the task,
    /// and everything else goes to `on_message`. The dispatched envelope's
    /// sender is recorded here, on the task's own thread, so the callback
    /// observes it for the whole dispatch, unclobbered by concurrent
    /// senders.
    pub fn dispatch_msg(&mut self, msg: rsm_message_t, now_usec: u64) -> (action: task_action_t)
        requires
            old(self).wf(),
        ensures
            final(self).wf(),
            final(self).tid == old(self).tid,
            final(self).recv_q@ == old(self).recv_q@,
            final(self).recv_q.spec_capacity() == old(self).recv_q.spec_capacity(),
            final(self).sender == Some(msg.sender),
            final(self).stats.cur_msg_id == msg.msg_id,
            final(self).stats.last_run_at == now_usec,
            msg.msg_id == RSM_MSG_ID_TIMER ==> action == (task_action_t::CallOnTimer {
                timer_id: msg.timer_id,
                timer_data: msg.timer_data,
            }) && final(self).stats.timer_ev_count == spec_bump(old(self).stats.timer_ev_count)
                && final(self).terminated == old(self).terminated,
            msg.msg_id == RSM_MSG_ID_SOCKET ==> final(self).terminated == old(self).terminated && (
            codec::spec_decodable_socket_event(msg.msg_body@) ==> (action matches
                task_action_t::CallOnSocketEvent { event } && codec::spec_decoded_socket_event(
                msg.msg_body@,
                event,
            ))) && (!codec::spec_decodable_socket_event(msg.msg_body@) ==> action
                == task_action_t::Skip),
            msg.msg_id == RSM_MSG_ID_MASTER_POWER_ON || msg.msg_id == RSM_MSG_ID_SLAVE_POWER_ON
                ==> action == task_action_t::CallOnInit
                && final(self).terminated == old(self).terminated,
            msg.msg_id == RSM_MSG_ID_POWER_OFF ==> action == task_action_t::CallOnClose
                && final(self).terminated,
            !(msg.msg_id == RSM_MSG_ID_TIMER || msg.msg_id == RSM_MSG_ID_SOCKET || msg.msg_id
                == RSM_MSG_ID_MASTER_POWER_ON || msg.msg_id == RSM_MSG_ID_SLAVE_POWER_ON
                || msg.msg_id == RSM_MSG_ID_POWER_OFF) ==> (action matches
                task_action_t::CallOnMessage { msg_id, msg: m } && msg_id == msg.msg_id && m
                == msg) && final(self).terminated == old(self).terminated,
    {
        self.sender = Some(msg.sender.clone());
        self.stats.cur_msg_id = msg.msg_id;
        self.stats.last_run_at = now_usec;
        if msg.msg_id == RSM_MSG_ID_TIMER {
            self.stats.timer_ev_count = bump(self.stats.timer_ev_count);
            task_action_t::CallOnTimer { timer_id: msg.timer_id, timer_data: msg.timer_data }
        } else if msg.msg_id == RSM_MSG_ID_SOCKET {
            match codec::decode_socket_event(msg.msg_body.as_slice()) {
                Some(ev) => task_action_t::CallOnSocketEvent { event: ev },
                None => task_action_t::Skip,
            }
        } else if msg.msg_id == RSM_MSG_ID_MASTER_POWER_ON || msg.msg_id
            == RSM_MSG_ID_SLAVE_POWER_ON {
            task_action_t::CallOnInit
        } else if msg.msg_id == RSM_MSG_ID_POWER_OFF {
            self.terminated = true;
            task_action_t::CallOnClose
        } else {
            let msg_id = msg.msg_id;
            task_action_t::CallOnMessage { msg_id, msg }
        }
    }

    /// Close out one dispatch: clear the current message ID and account the
    /// elapsed time.
    pub fn finish_dispatch(&mut self, now_usec: u64)
        requires
            old(self).wf(),
        ensures
            final(self).wf(),
            final(self).tid == old(self).tid,
            final(self).recv_q@ == old(self).recv_q@,
            final(self).terminated == old(self).terminated,
            final(self).recv_q.spec_capacity() == old(self).recv_q.spec_capacity(),
            final(self).stats.cur_msg_id == RSM_INVALID_MESSAGE_ID,
            final(self).stats.last_run_usec == (if now_usec >= old(self).stats.last_run_at {
                (now_usec - old(self).stats.last_run_at) as u64
            } else {
                0u64
            }),
    {
        self.stats.cur_msg_id = RSM_INVALID_MESSAGE_ID;
        self.stats.last_run_usec = if now_usec >= self.stats.last_run_at {
            now_usec - self.stats.last_run_at
        } else {
            0
        };
    }

    pub fn is_terminated(&self) -> (r: bool)
        ensures
            r == self.terminated,
    {
        self.terminated
    }

    pub fn get_task_priority(&self) -> (r: E_RSM_TASK_PRIORITY)
        ensures
            r == self.priority,
    {
        self.priority
    }

    /// Current receive queue length.
    pub fn get_qlen(&self) -> (r: usize)
        ensures
            r == self.recv_q@.len(),
    {
        self.recv_q.len()
    }

    pub fn cur_msg_id(&self) -> (r: u32)
        ensures
            r == self.stats.cur_msg_id,
    {
        self.stats.cur_msg_id
    }

    /// A copy of the counters; while a message is being dispatched, the time
    /// spent on it so far is filled in from the given clock value.
    pub fn get_task_stats(&self, now_usec: u64) -> (r: task_stats_t)
        ensures
            r.cur_msg_id == self.stats.cur_msg_id,
            r.recv_msg == self.stats.recv_msg,
            r.recv_prio_msg == self.stats.recv_prio_msg,
            r.drop_msg == self.stats.drop_msg,
            r.drop_prio_msg == self.stats.drop_prio_msg,
            r.timer_ev_count == self.stats.timer_ev_count,
            self.stats.cur_msg_id != RSM_INVALID_MESSAGE_ID && now_usec >= self.stats.last_run_at
                ==> r.cur_run_usec == now_usec - self.stats.last_run_at,
            self.stats.cur_msg_id == RSM_INVALID_MESSAGE_ID ==> r.cur_run_usec == 0,
    {
        let mut stats = self.stats.clone();
        if stats.cur_msg_id != RSM_INVALID_MESSAGE_ID {
            stats.cur_run_usec = if now_usec >= self.stats.last_run_at {
                now_usec - self.stats.last_run_at
            } else {
                0
            };
        } else {
            stats.cur_run_usec = 0;
        }
        stats
    }

    pub fn get_sender_cid(&self) -> (r: Option<rsm_component_t>)
        ensures
            r == self.sender,
    {
        match &self.sender {
            None => None,
            Some(s) => Some(s.clone()),
        }
    }

    pub fn clear_task_stats(&mut self)
        requires
            old(self).wf(),
        ensures
            final(self).wf(),
            final(self).stats == task_stats_t::spec_zero(),
            final(self).tid == old(self).tid,
            final(self).recv_q@ == old(self).recv_q@,
            final(self).recv_q.spec_capacity() == old(self).recv_q.spec_capacity(),
            final(self).terminated == old(self).terminated,
    {
        self.stats = task_stats_t::new_zero();
    }

    /// Human-readable task summary for diagnostics.
    pub fn to_string(&self) -> (r: String)
        ensures
            r@.len() > 0,
    {
        proof {
            reveal_strlit("cid=");
            reveal_strlit(",inst=");
            reveal_strlit(",node_id=");
            reveal_strlit(",cur_msg=");
            reveal_strlit(",qlen=");
            reveal_strlit(",recv_normal_msg=");
            reveal_strlit(",recv_priority_msg=");
            reveal_strlit(",drop_msg=");
            reveal_strlit(",drop_prio_msg=");
        }
        let mut s = "cid=".to_owned();
        s.append(strfmt::u64_to_dec(self.tid.cid as u64).as_str());
        s.append(",inst=");
        s.append(strfmt::u64_to_dec(self.tid.inst_id as u64).as_str());
        s.append(",node_id=");
        s.append(strfmt::u64_to_dec(self.tid.node_id as u64).as_str());
        s.append(",cur_msg=");
        s.append(strfmt::u64_to_dec(self.stats.cur_msg_id as u64).as_str());
        s.append(",qlen=");
        s.append(strfmt::u64_to_dec(self.recv_q.len() as u64).as_str());
        s.append(",recv_normal_msg=");
        s.append(strfmt::u64_to_dec(self.stats.recv_msg).as_str());
        s.append(",recv_priority_msg=");
        s.append(strfmt::u64_to_dec(self.stats.recv_prio_msg).as_str());
        s.append(",drop_msg=");
        s.append(strfmt::u64_to_dec(self.stats.drop_msg).as_str());
        s.append(",drop_prio_msg=");
        s.append(strfmt::u64_to_dec(self.stats.drop_prio_msg).as_str());
        s
    }
}

} // verus!
