//! The registry and scheduler: component descriptors, the identity-to-task
//! table, the thread-to-identity table, and message routing by identity.
//!
//! Registration creates one task per instance; for every registered
//! `(cid, inst_id)` with `1 <= inst_id <= inst_num` there is exactly one task,
//! and no task exists outside those bounds.

use vstd::prelude::*;
use std::collections::HashMap;
use crate::common::errcode;
use crate::rsm::{
    rsm_component_t, rsm_message_t, component_attrs_t, E_RSM_TASK_PRIORITY, RSM_INVALID_CID,
    RSM_MAX_INST_ID, RSM_MAX_QUEUE_LEN,
};
use crate::rsm::task::{task_t, task_stats_t, spec_bump};

verus! {

broadcast use vstd::std_specs::hash::group_hash_axioms;

/// POSIX scheduling policy values the priority classes map to.
pub const SCHED_POLICY_OTHER: i32 = 0;

pub const SCHED_POLICY_RR: i32 = 2;

/// The OS scheduling (policy, priority) for a task priority class, as the
/// POSIX table: LOW, NORMAL and HIGH run under `SCHED_OTHER` at priority 0,
/// 50 and 80; the realtime classes run under `SCHED_RR` at 10, 50 and 99.
pub fn map_os_priority(priority: E_RSM_TASK_PRIORITY) -> (r: (i32, i32))
    ensures
        priority == E_RSM_TASK_PRIORITY::THREAD_PRI_LOW ==> r == (SCHED_POLICY_OTHER, 0i32),
        priority == E_RSM_TASK_PRIORITY::THREAD_PRI_NORMAL ==> r == (SCHED_POLICY_OTHER, 50i32),
        priority == E_RSM_TASK_PRIORITY::THREAD_PRI_HIGH ==> r == (SCHED_POLICY_OTHER, 80i32),
        priority == E_RSM_TASK_PRIORITY::THREAD_PRI_REALTIME ==> r == (SCHED_POLICY_RR, 10i32),
        priority == E_RSM_TASK_PRIORITY::THREAD_PRI_REALTIME_HIGH ==> r == (SCHED_POLICY_RR, 50i32),
        priority == E_RSM_TASK_PRIORITY::THREAD_PRI_REALTIME_HIGHEST ==> r == (
            SCHED_POLICY_RR,
            99i32,
        ),
{
    match priority {
        E_RSM_TASK_PRIORITY::THREAD_PRI_LOW => (SCHED_POLICY_OTHER, 0),
        E_RSM_TASK_PRIORITY::THREAD_PRI_NORMAL => (SCHED_POLICY_OTHER, 50),
        E_RSM_TASK_PRIORITY::THREAD_PRI_HIGH => (SCHED_POLICY_OTHER, 80),
        E_RSM_TASK_PRIORITY::THREAD_PRI_REALTIME => (SCHED_POLICY_RR, 10),
        E_RSM_TASK_PRIORITY::THREAD_PRI_REALTIME_HIGH => (SCHED_POLICY_RR, 50),
        E_RSM_TASK_PRIORITY::THREAD_PRI_REALTIME_HIGHEST => (SCHED_POLICY_RR, 99),
    }
}

/// Power-on acknowledgement, reserved for keeping task start order; declared
/// but without effect, as the power-on message IDs are reserved.
pub fn power_on_ack() {
}

/// The scheduler: component descriptors, tasks keyed by identity, and the
/// thread-to-identity binding.
pub struct scheduler_t {
    pub components: HashMap<u32, component_attrs_t>,
    pub tasks: HashMap<u128, task_t>,
    pub task_list: Vec<rsm_component_t>,
    pub tid_map: HashMap<i64, rsm_component_t>,
    pub max_component: usize,
}

impl scheduler_t {
    /// Whether a task exists for this identity.
    pub open spec fn spec_has_task(&self, id: rsm_component_t) -> bool {
        self.tasks@.contains_key(id.spec_key() as u128)
    }

    /// A task for `(cid, 1, inst)` exists and is freshly created: empty
    /// queue of at least the requested length, zero counters, the given
    /// priority, not terminated, no sender recorded.
    pub open spec fn spec_fresh_task(
        &self,
        cid: u32,
        inst: usize,
        qlen: usize,
        prio: E_RSM_TASK_PRIORITY,
    ) -> bool {
        let id = rsm_component_t { cid, node_id: 1, inst_id: inst };
        &&& self.tasks@.contains_key(id.spec_key() as u128)
        &&& ({
            let t = self.tasks@[id.spec_key() as u128];
            &&& t.tid == id
            &&& t.recv_q@.len() == 0
            &&& t.recv_q.spec_capacity() >= qlen
            &&& (qlen >= 1 ==> t.recv_q.spec_capacity() < 2 * qlen)
            &&& t.stats == task_stats_t::spec_zero()
            &&& t.priority == prio
            &&& !t.terminated
            &&& t.sender is None
        })
    }

    /// One task per registered instance, and none besides: every task's
    /// identity sits under its key, belongs to a registered component, and
    /// has an instance number within the descriptor's bound; conversely
    /// every instance of a registered component has its task.
    pub open spec fn wf(&self) -> bool {
        &&& vstd::std_specs::hash::obeys_key_model::<u32>()
        &&& vstd::std_specs::hash::obeys_key_model::<u128>()
        &&& vstd::std_specs::hash::obeys_key_model::<i64>()
        &&& forall|cid: u32|
            #[trigger] self.components@.contains_key(cid) ==> {
                let a = self.components@[cid];
                &&& a.cid == cid
                &&& cid != RSM_INVALID_CID
                &&& 1 <= a.inst_num <= RSM_MAX_INST_ID
                &&& a.qlen <= RSM_MAX_QUEUE_LEN
            }
        &&& forall|k: u128|
            #[trigger] self.tasks@.contains_key(k) ==> {
                let t = self.tasks@[k];
                &&& t.tid.spec_key() == k
                &&& t.wf()
                &&& t.tid.node_id == 1
                &&& 1 <= t.tid.inst_id <= RSM_MAX_INST_ID
                &&& self.components@.contains_key(t.tid.cid)
                &&& t.tid.inst_id <= self.components@[t.tid.cid].inst_num
            }
        &&& forall|cid: u32, inst: usize|
            self.components@.contains_key(cid) && 1 <= inst
                <= self.components@[cid].inst_num ==> #[trigger] self.tasks@.contains_key(
                (rsm_component_t { cid, node_id: 1, inst_id: inst }).spec_key() as u128,
            )
        &&& forall|j: int|
            0 <= j < self.task_list@.len() ==> self.spec_has_task(#[trigger] self.task_list@[j])
    }
}

/// A scheduler with no components, no tasks, and no thread bindings.
pub fn init_scheduler(max_component: usize) -> (r: scheduler_t)
    ensures
        r.wf(),
        r.components@ == Map::<u32, component_attrs_t>::empty(),
        r.tasks@ == Map::<u128, task_t>::empty(),
        r.task_list@.len() == 0,
        r.tid_map@ == Map::<i64, rsm_component_t>::empty(),
{
    let r = scheduler_t {
        components: HashMap::new(),
        tasks: HashMap::new(),
        task_list: Vec::new(),
        tid_map: HashMap::new(),
        max_component,
    };
    r
}

impl scheduler_t {
    /// Register one component and create one task per instance.
    ///
    /// Rejected with `INVALID_PARAM` when the component ID is zero or does
    /// not match the descriptor, the instance count is zero or beyond what
    /// the task table can address, or the queue length exceeds
    /// `RSM_MAX_QUEUE_LEN`; with `ALREADY_EXIST` when the ID is taken.
    /// On success the descriptor is recorded, a fresh task — empty queue of
    /// at least the requested length, zero counters, the descriptor's
    /// priority, not terminated — exists for exactly the instances
    /// `1..=inst_num`, and every pre-existing task is unchanged.
    #[verifier::rlimit(80)]
    #[verifier::spinoff_prover]
    pub fn registry_component(&mut self, cid: u32, attrs: &component_attrs_t) -> (res:
        errcode::RESULT)
        requires
            old(self).wf(),
        ensures
            final(self).wf(),
            !(cid != RSM_INVALID_CID && attrs.cid == cid && 1 <= attrs.inst_num <= RSM_MAX_INST_ID
                && attrs.qlen <= RSM_MAX_QUEUE_LEN) ==> res == errcode::ERROR_INVALID_PARAM
                && final(self).components@ == old(self).components@ && final(self).tasks@ == old(self).tasks@,
            (cid != RSM_INVALID_CID && attrs.cid == cid && 1 <= attrs.inst_num <= RSM_MAX_INST_ID
                && attrs.qlen <= RSM_MAX_QUEUE_LEN) && old(self).components@.contains_key(cid)
                ==> res == errcode::ERROR_ALREADY_EXIST && final(self).components@ == old(self).components@ && final(self).tasks@ == old(self).tasks@,
            (cid != RSM_INVALID_CID && attrs.cid == cid && 1 <= attrs.inst_num <= RSM_MAX_INST_ID
                && attrs.qlen <= RSM_MAX_QUEUE_LEN) && !old(self).components@.contains_key(cid)
                ==> res == errcode::RESULT_SUCCESS,
            (cid != RSM_INVALID_CID && attrs.cid == cid && 1 <= attrs.inst_num <= RSM_MAX_INST_ID
                && attrs.qlen <= RSM_MAX_QUEUE_LEN) && !old(self).components@.contains_key(cid)
                ==> final(self).components@.contains_key(cid) && final(self).components@[cid].inst_num
                == attrs.inst_num && final(self).components@[cid].qlen == attrs.qlen
                && final(self).components@[cid].priority == attrs.priority,
            (cid != RSM_INVALID_CID && attrs.cid == cid && 1 <= attrs.inst_num <= RSM_MAX_INST_ID
                && attrs.qlen <= RSM_MAX_QUEUE_LEN) && !old(self).components@.contains_key(cid)
                ==> (forall|c2: u32|
                c2 != cid ==> final(self).components@.contains_key(c2) == old(
                    self,
                ).components@.contains_key(c2)),
            (cid != RSM_INVALID_CID && attrs.cid == cid && 1 <= attrs.inst_num <= RSM_MAX_INST_ID
                && attrs.qlen <= RSM_MAX_QUEUE_LEN) && !old(self).components@.contains_key(cid)
                ==> (forall|inst: usize|
                1 <= inst <= attrs.inst_num ==> #[trigger] final(self).spec_fresh_task(
                    cid,
                    inst,
                    attrs.qlen,
                    attrs.priority,
                )),
            forall|k: u128|
                #[trigger] old(self).tasks@.contains_key(k) ==> final(self).tasks@.contains_key(k)
                    && final(self).tasks@[k] == old(self).tasks@[k],
    {
        if cid == RSM_INVALID_CID || attrs.cid != cid || attrs.inst_num < 1 || attrs.inst_num
            > RSM_MAX_INST_ID || attrs.qlen > RSM_MAX_QUEUE_LEN {
            return errcode::ERROR_INVALID_PARAM;
        }
        if self.components.contains_key(&cid) {
            return errcode::ERROR_ALREADY_EXIST;
        }
        let mut a = attrs.clone();
        a.cid = cid;
        let inst_num = a.inst_num;
        let qlen = a.qlen;
        let prio = a.priority;
        self.components.insert(cid, a);
        let ghost comp_after = self.components@;
        let mut i: u64 = 1;
        while i <= inst_num as u64
            invariant
                1 <= i <= inst_num as u64 + 1,
                inst_num <= RSM_MAX_INST_ID,
                qlen <= RSM_MAX_QUEUE_LEN,
                vstd::std_specs::hash::obeys_key_model::<u32>(),
                vstd::std_specs::hash::obeys_key_model::<u128>(),
                vstd::std_specs::hash::obeys_key_model::<i64>(),
                old(self).wf(),
                self.components@ == comp_after,
                self.components@.contains_key(cid),
                self.components@[cid].cid == cid,
                self.components@[cid].inst_num == inst_num,
                self.components@[cid].qlen == qlen,
                self.components@[cid].priority == prio,
                cid != RSM_INVALID_CID,
                1 <= inst_num <= RSM_MAX_INST_ID,
                forall|c2: u32|
                    c2 != cid ==> self.components@.contains_key(c2) == old(self).components@.contains_key(c2) && (old(self).components@.contains_key(c2)
                        ==> self.components@[c2] == old(self).components@[c2]),
                !old(self).components@.contains_key(cid),
                forall|cid2: u32|
                    #[trigger] self.components@.contains_key(cid2) ==> {
                        let a2 = self.components@[cid2];
                        &&& a2.cid == cid2
                        &&& cid2 != RSM_INVALID_CID
                        &&& 1 <= a2.inst_num <= RSM_MAX_INST_ID
                        &&& a2.qlen <= RSM_MAX_QUEUE_LEN
                    },
                forall|k: u128|
                    #[trigger] self.tasks@.contains_key(k) ==> {
                        let t = self.tasks@[k];
                        &&& t.tid.spec_key() == k
                        &&& t.wf()
                        &&& t.tid.node_id == 1
                        &&& 1 <= t.tid.inst_id <= RSM_MAX_INST_ID
                        &&& self.components@.contains_key(t.tid.cid)
                        &&& t.tid.inst_id <= self.components@[t.tid.cid].inst_num
                    },
                forall|cid2: u32, inst: usize|
                    self.components@.contains_key(cid2) && cid2 != cid && 1 <= inst
                        <= self.components@[cid2].inst_num ==> #[trigger] self.tasks@.contains_key(
                        (rsm_component_t { cid: cid2, node_id: 1, inst_id: inst }).spec_key()
                            as u128,
                    ),
                forall|inst: usize|
                    1 <= inst < i ==> #[trigger] self.spec_fresh_task(cid, inst, qlen, prio),
                forall|k: u128|
                    #[trigger] old(self).tasks@.contains_key(k) ==> self.tasks@.contains_key(k)
                        && self.tasks@[k] == old(self).tasks@[k],
                forall|j: int|
                    0 <= j < self.task_list@.len() ==> self.spec_has_task(
                        #[trigger] self.task_list@[j],
                    ),
            decreases inst_num as u64 + 1 - i,
        {
            let tid = rsm_component_t::new(cid, 1, i as usize);
            let task = task_t::new(&tid, qlen, prio);
            let k = tid.key();
            let ghost pre_self = *self;
            let ghost pre_tasks = self.tasks@;
            let ghost pre_list = self.task_list@;
            proof {
                assert forall|j: int| 0 <= j < pre_list.len() implies pre_tasks.contains_key(
                    (#[trigger] pre_list[j]).spec_key() as u128,
                ) by {
                    assert(self.spec_has_task(self.task_list@[j]));
                }
                // The fresh key collides neither with an earlier instance of
                // this component nor with any pre-existing task.
                assert forall|inst: usize|
                    1 <= inst < i implies ((#[trigger] (rsm_component_t {
                    cid,
                    node_id: 1,
                    inst_id: inst,
                }).spec_key()) as u128) != (tid.spec_key() as u128) by {
                    let idj = rsm_component_t { cid, node_id: 1, inst_id: inst };
                    lemma_key_in_range(idj);
                    lemma_key_in_range(tid);
                    if (idj.spec_key() as u128) == (tid.spec_key() as u128) {
                        assert(idj.spec_key() == tid.spec_key());
                        crate::rsm::lemma_key_injective(idj, tid);
                    }
                }
                if old(self).tasks@.contains_key(tid.spec_key() as u128) {
                    let t = old(self).tasks@[tid.spec_key() as u128];
                    lemma_key_in_range(t.tid);
                    lemma_key_in_range(tid);
                    assert(t.tid.spec_key() == tid.spec_key());
                    crate::rsm::lemma_key_injective(t.tid, tid);
                    assert(old(self).components@.contains_key(cid));
                }
                lemma_key_in_range(tid);
                assert(k == tid.spec_key() as u128);
                assert forall|inst: usize| 1 <= inst < i implies #[trigger] pre_tasks.contains_key(
                    (rsm_component_t { cid, node_id: 1, inst_id: inst }).spec_key() as u128,
                ) by {
                    assert(pre_self.spec_fresh_task(cid, inst, qlen, prio));
                }
            }
            self.tasks.insert(k, task);
            self.task_list.push(tid);
            proof {
                assert(self.tasks@[tid.spec_key() as u128] == task);
                assert forall|inst: usize|
                    1 <= inst < i + 1 implies #[trigger] self.spec_fresh_task(
                    cid,
                    inst,
                    qlen,
                    prio,
                ) by {
                    let key_i = (rsm_component_t { cid, node_id: 1, inst_id: inst }).spec_key()
                        as u128;
                    if inst < i {
                        assert(pre_self.spec_fresh_task(cid, inst, qlen, prio));
                        assert(key_i != k);
                        assert(self.tasks@[key_i] == pre_tasks[key_i]);
                    } else {
                        assert((rsm_component_t { cid, node_id: 1, inst_id: inst }) == tid);
                        assert(self.tasks@[key_i] == task);
                    }
                }
                assert forall|j: int| 0 <= j < self.task_list@.len() implies self.spec_has_task(
                    #[trigger] self.task_list@[j],
                ) by {
                    if j < self.task_list@.len() - 1 {
                        assert(self.task_list@[j] == pre_list[j]);
                        assert(pre_tasks.contains_key(pre_list[j].spec_key() as u128));
                    } else {
                        assert(self.task_list@[j] == tid);
                    }
                }
            }
            i = i + 1;
        }
        proof {
            assert forall|inst: usize|
                1 <= inst <= inst_num implies #[trigger] self.tasks@.contains_key(
                (rsm_component_t { cid, node_id: 1, inst_id: inst }).spec_key() as u128,
            ) by {
                assert(self.spec_fresh_task(cid, inst, qlen, prio));
            }
        }
        errcode::RESULT_SUCCESS
    }

    /// Route a normal message to its destination task's queue tail.
    /// `NOT_FOUND` exactly when no task exists for the destination;
    /// `OUT_OF_MEM` when the queue is full (the drop is counted on the
    /// receiver); otherwise the message is appended and the receiver's
    /// counter grows.
    pub fn send_asyn_msg(&mut self, dst: &rsm_component_t, msg: rsm_message_t) -> (res:
        errcode::RESULT)
        requires
            old(self).wf(),
        ensures
            final(self).wf(),
            final(self).components@ == old(self).components@,
            final(self).tid_map@ == old(self).tid_map@,
            !(old(self).spec_has_task(*dst) && dst.inst_id <= RSM_MAX_INST_ID) ==> res
                == errcode::ERROR_NOT_FOUND && final(self).tasks@ == old(self).tasks@,
            old(self).spec_has_task(*dst) && dst.inst_id <= RSM_MAX_INST_ID ==> {
                let t = old(self).tasks@[dst.spec_key() as u128];
                let t2 = final(self).tasks@[dst.spec_key() as u128];
                &&& final(self).tasks@.contains_key(dst.spec_key() as u128)
                &&& (forall|k: u128|
                    k != dst.spec_key() as u128 ==> (#[trigger] final(self).tasks@.contains_key(k)
                        == old(self).tasks@.contains_key(k)) && (old(self).tasks@.contains_key(k)
                        ==> final(self).tasks@[k] == old(self).tasks@[k]))
                &&& t2.tid == t.tid
                &&& t2.priority == t.priority
                &&& t2.terminated == t.terminated
                &&& t2.sender == t.sender
                &&& t2.recv_q.spec_capacity() == t.recv_q.spec_capacity()
                &&& t.recv_q@.len() < t.recv_q.spec_capacity() ==> res == errcode::RESULT_SUCCESS
                    && t2.recv_q@ == t.recv_q@.push(msg) && t2.stats.recv_msg == spec_bump(
                    t.stats.recv_msg,
                )
                &&& t.recv_q@.len() >= t.recv_q.spec_capacity() ==> res == errcode::ERROR_OUTOF_MEM
                    && t2.recv_q@ == t.recv_q@ && t2.stats.drop_msg == spec_bump(t.stats.drop_msg)
            },
    {
        if dst.get_inst_id() > RSM_MAX_INST_ID {
            return errcode::ERROR_NOT_FOUND;
        }
        let k = dst.key();
        let taken = self.tasks.remove(&k);
        match taken {
            None => errcode::ERROR_NOT_FOUND,
            Some(mut t) => {
                let res = t.send_asyn_msg(msg);
                self.tasks.insert(k, t);
                res
            },
        }
    }

    /// Route a high-priority message to its destination task's queue head:
    /// it overtakes every normal message still queued. Errors as for
    /// `send_asyn_msg`, with the high-priority drop counter instead.
    pub fn send_asyn_priority_msg(&mut self, dst: &rsm_component_t, msg: rsm_message_t) -> (res:
        errcode::RESULT)
        requires
            old(self).wf(),
        ensures
            final(self).wf(),
            final(self).components@ == old(self).components@,
            final(self).tid_map@ == old(self).tid_map@,
            !(old(self).spec_has_task(*dst) && dst.inst_id <= RSM_MAX_INST_ID) ==> res
                == errcode::ERROR_NOT_FOUND && final(self).tasks@ == old(self).tasks@,
            old(self).spec_has_task(*dst) && dst.inst_id <= RSM_MAX_INST_ID ==> {
                let t = old(self).tasks@[dst.spec_key() as u128];
                let t2 = final(self).tasks@[dst.spec_key() as u128];
                &&& final(self).tasks@.contains_key(dst.spec_key() as u128)
                &&& (forall|k: u128|
                    k != dst.spec_key() as u128 ==> (#[trigger] final(self).tasks@.contains_key(k)
                        == old(self).tasks@.contains_key(k)) && (old(self).tasks@.contains_key(k)
                        ==> final(self).tasks@[k] == old(self).tasks@[k]))
                &&& t2.tid == t.tid
                &&& t2.priority == t.priority
                &&& t2.terminated == t.terminated
                &&& t2.sender == t.sender
                &&& t2.recv_q.spec_capacity() == t.recv_q.spec_capacity()
                &&& t.recv_q@.len() < t.recv_q.spec_capacity() ==> res == errcode::RESULT_SUCCESS
                    && t2.recv_q@ == seq![msg] + t.recv_q@ && t2.stats.recv_prio_msg == spec_bump(
                    t.stats.recv_prio_msg,
                )
                &&& t.recv_q@.len() >= t.recv_q.spec_capacity() ==> res == errcode::ERROR_OUTOF_MEM
                    && t2.recv_q@ == t.recv_q@ && t2.stats.drop_prio_msg == spec_bump(
                    t.stats.drop_prio_msg,
                )
            },
    {
        if dst.get_inst_id() > RSM_MAX_INST_ID {
            return errcode::ERROR_NOT_FOUND;
        }
        let k = dst.key();
        let taken = self.tasks.remove(&k);
        match taken {
            None => errcode::ERROR_NOT_FOUND,
            Some(mut t) => {
                let res = t.send_asyn_priority_msg(msg);
                self.tasks.insert(k, t);
                res
            },
        }
    }

    /// Bind an OS thread to a task identity, as each task thread does when
    /// it first enters its dispatch loop.
    pub fn bind_thread(&mut self, os_tid: i64, id: &rsm_component_t)
        requires
            old(self).wf(),
        ensures
            final(self).wf(),
            final(self).tid_map@ == old(self).tid_map@.insert(os_tid, *id),
            final(self).tasks@ == old(self).tasks@,
            final(self).components@ == old(self).components@,
    {
        self.tid_map.insert(os_tid, id.clone());
    }

    /// The identity bound to an OS thread; nothing outside task threads.
    pub fn get_self_cid(&self, os_tid: i64) -> (r: Option<rsm_component_t>)
        requires
            self.wf(),
        ensures
            self.tid_map@.contains_key(os_tid) ==> r == Some(self.tid_map@[os_tid]),
            !self.tid_map@.contains_key(os_tid) ==> r is None,
    {
        match self.tid_map.get(&os_tid) {
            None => None,
            Some(id) => Some(id.clone()),
        }
    }

    /// The sender of the message the task bound to this OS thread is
    /// dispatching, recorded on the task's own thread when the dispatch
    /// begins, so a concurrent sender cannot clobber the observation;
    /// nothing outside a dispatch context.
    pub fn get_sender_cid(&self, os_tid: i64) -> (r: Option<rsm_component_t>)
        requires
            self.wf(),
        ensures
            !self.tid_map@.contains_key(os_tid) ==> r is None,
            self.tid_map@.contains_key(os_tid) && self.spec_has_task(self.tid_map@[os_tid])
                && self.tid_map@[os_tid].inst_id <= RSM_MAX_INST_ID ==> ({
                let k = self.tid_map@[os_tid].spec_key() as u128;
                r == self.tasks@[k].sender
            }),
    {
        let id = match self.tid_map.get(&os_tid) {
            None => { return None },
            Some(id) => id.clone(),
        };
        if id.get_inst_id() > RSM_MAX_INST_ID {
            return None;
        }
        let k = id.key();
        match self.tasks.get(&k) {
            None => None,
            Some(t) => t.get_sender_cid(),
        }
    }

    /// A snapshot of one task's counters: present exactly for a live
    /// identity, carrying that task's counter values.
    pub fn get_task_stats(&self, tid: &rsm_component_t, now_usec: u64) -> (r: Option<task_stats_t>)
        requires
            self.wf(),
        ensures
            !self.spec_has_task(*tid) ==> r is None,
            r is Some ==> self.spec_has_task(*tid),
            self.spec_has_task(*tid) && tid.inst_id <= RSM_MAX_INST_ID ==> ({
                let t = self.tasks@[tid.spec_key() as u128];
                &&& r matches Some(st)
                &&& st.recv_msg == t.stats.recv_msg
                &&& st.recv_prio_msg == t.stats.recv_prio_msg
                &&& st.drop_msg == t.stats.drop_msg
                &&& st.drop_prio_msg == t.stats.drop_prio_msg
                &&& st.timer_ev_count == t.stats.timer_ev_count
                &&& st.cur_msg_id == t.stats.cur_msg_id
            }),
    {
        if tid.get_inst_id() > RSM_MAX_INST_ID {
            return None;
        }
        let k = tid.key();
        match self.tasks.get(&k) {
            None => None,
            Some(t) => Some(t.get_task_stats(now_usec)),
        }
    }

    /// The descriptor a component registered with.
    pub fn get_component_attrs(&self, cid: u32) -> (r: Option<&component_attrs_t>)
        requires
            self.wf(),
        ensures
            self.components@.contains_key(cid) ==> (r matches Some(a) && *a
                == self.components@[cid]),
            !self.components@.contains_key(cid) ==> r is None,
    {
        self.components.get(&cid)
    }

    /// The identities of every task created so far, for the start sequence.
    pub fn task_ids(&self) -> (r: &Vec<rsm_component_t>)
        ensures
            r == self.task_list,
    {
        &self.task_list
    }
}

/// Exactly one task per registered instance: a task for `(cid, 1, inst)`
/// exists precisely when component `cid` is registered and
/// `1 <= inst <= inst_num`; the task table, being keyed by the identity,
/// holds at most one task per identity.
pub proof fn lemma_one_task_per_instance(s: &scheduler_t, cid: u32, inst: usize)
    requires
        s.wf(),
        inst <= u32::MAX,
    ensures
        s.spec_has_task(rsm_component_t { cid, node_id: 1, inst_id: inst }) <==> (
        s.components@.contains_key(cid) && 1 <= inst <= s.components@[cid].inst_num),
{
    let id = rsm_component_t { cid, node_id: 1, inst_id: inst };
    if s.spec_has_task(id) {
        let t = s.tasks@[id.spec_key() as u128];
        assert(s.tasks@.contains_key(id.spec_key() as u128));
        crate::rsm::lemma_key_injective(t.tid, id);
    }
}

/// An identity key is a valid 128-bit value: nonnegative and within range.
proof fn lemma_key_in_range(id: rsm_component_t)
    ensures
        0 <= id.spec_key() < 0x100000000000000000000000000000000,
{
    assert(0 <= (id.inst_id as int) % 0x100000000 < 0x100000000) by (nonlinear_arith);
}

} // verus!
