//! Bounded double-ended message queue with two enqueue classes: normal
//! messages join the tail, high-priority messages join the head, and the
//! consumer drains from the head. The capacity is the least power of two
//! at or above the requested length, and an enqueue on a full queue is
//! refused with `OUT_OF_MEM`.

use vstd::prelude::*;
use crate::common::errcode;
use std::collections::VecDeque;

verus! {

/// Whether n is a power of two.
pub open spec fn is_pow2(n: nat) -> bool {
    exists|e: nat| n == crate::spec_pow2(e)
}

/// One enqueue on a task queue, in either class.
pub enum queue_op_t<T> {
    PushFront(T),
    PushBack(T),
}

/// The queue contents after a sequence of successful enqueues.
pub open spec fn apply_enqueue_ops<T>(s0: Seq<T>, ops: Seq<queue_op_t<T>>) -> Seq<T>
    decreases ops.len(),
{
    if ops.len() == 0 {
        s0
    } else {
        let s = apply_enqueue_ops(s0, ops.drop_last());
        match ops.last() {
            queue_op_t::PushFront(v) => seq![v] + s,
            queue_op_t::PushBack(v) => s.push(v),
        }
    }
}

pub struct AtomicDequeue<T> {
    pub inner: VecDeque<T>,
    pub limit: usize,
}

impl<T> AtomicDequeue<T> {
    /// The queued elements, head first.
    pub open spec fn view(&self) -> Seq<T> {
        self.inner@
    }

    /// The length never exceeds the capacity, which is a power of two.
    pub open spec fn wf(&self) -> bool {
        &&& self.inner@.len() <= self.limit
        &&& is_pow2(self.limit as nat)
    }

    pub open spec fn spec_capacity(&self) -> nat {
        self.limit as nat
    }

    /// An empty queue whose capacity is the least power of two at or above
    /// the requested length.
    pub fn new(capacity: usize) -> (r: Self)
        requires
            capacity <= usize::MAX / 2,
        ensures
            r.wf(),
            r@ == Seq::<T>::empty(),
            r.spec_capacity() >= capacity,
            r.spec_capacity() >= 1,
            capacity >= 1 ==> r.spec_capacity() < 2 * capacity,
    {
        let mut p: usize = 1;
        proof {
            assert(1nat == crate::spec_pow2(0));
        }
        while p < capacity
            invariant
                1 <= p,
                is_pow2(p as nat),
                capacity <= usize::MAX / 2,
                p < capacity ==> p <= usize::MAX / 2,
                capacity >= 1 ==> p < 2 * capacity,
            decreases usize::MAX - p,
        {
            proof {
                let e = choose|e: nat| p as nat == crate::spec_pow2(e);
                assert(2 * p as nat == crate::spec_pow2(e + 1));
            }
            p = p * 2;
        }
        Self { inner: VecDeque::new(), limit: p }
    }

    /// Enqueue a normal message at the tail; `OUT_OF_MEM` when full.
    pub fn push_back(&mut self, v: T) -> (res: errcode::RESULT)
        requires
            old(self).wf(),
        ensures
            final(self).wf(),
            final(self).limit == old(self).limit,
            old(self)@.len() < old(self).spec_capacity() ==> res == errcode::RESULT_SUCCESS
                && final(self)@ == old(self)@.push(v),
            old(self)@.len() >= old(self).spec_capacity() ==> res == errcode::ERROR_OUTOF_MEM
                && final(self)@ == old(self)@,
    {
        if self.inner.len() < self.limit {
            self.inner.push_back(v);
            errcode::RESULT_SUCCESS
        } else {
            errcode::ERROR_OUTOF_MEM
        }
    }

    /// Enqueue a high-priority message at the head, ahead of every message
    /// already queued; `OUT_OF_MEM` when full.
    pub fn push_front(&mut self, v: T) -> (res: errcode::RESULT)
        requires
            old(self).wf(),
        ensures
            final(self).wf(),
            final(self).limit == old(self).limit,
            old(self)@.len() < old(self).spec_capacity() ==> res == errcode::RESULT_SUCCESS
                && final(self)@ == seq![v] + old(self)@,
            old(self)@.len() >= old(self).spec_capacity() ==> res == errcode::ERROR_OUTOF_MEM
                && final(self)@ == old(self)@,
    {
        if self.inner.len() < self.limit {
            self.inner.push_front(v);
            errcode::RESULT_SUCCESS
        } else {
            errcode::ERROR_OUTOF_MEM
        }
    }

    /// Dequeue the head message, if any.
    pub fn pop_front(&mut self) -> (r: Option<T>)
        requires
            old(self).wf(),
        ensures
            final(self).wf(),
            final(self).limit == old(self).limit,
            old(self)@.len() == 0 ==> r is None && final(self)@ == old(self)@,
            old(self)@.len() > 0 ==> r == Some(old(self)@[0]) && final(self)@ == old(
                self,
            )@.subrange(1, old(self)@.len() as int),
    {
        self.inner.pop_front()
    }

    /// Dequeue the tail message, if any; used only for diagnostics.
    pub fn pop_back(&mut self) -> (r: Option<T>)
        requires
            old(self).wf(),
        ensures
            final(self).wf(),
            final(self).limit == old(self).limit,
            old(self)@.len() == 0 ==> r is None && final(self)@ == old(self)@,
            old(self)@.len() > 0 ==> r == Some(old(self)@.last()) && final(self)@ == old(
                self,
            )@.drop_last(),
    {
        self.inner.pop_back()
    }

    /// Number of queued messages.
    pub fn len(&self) -> (r: usize)
        ensures
            r == self@.len(),
    {
        self.inner.len()
    }

    /// The fixed capacity.
    pub fn capacity(&self) -> (r: usize)
        ensures
            r == self.spec_capacity(),
    {
        self.limit
    }
}

/// Every queue keeps its length at or below its capacity, and the capacity
/// is a power of two.
pub proof fn lemma_queue_bounded<T>(q: &AtomicDequeue<T>)
    requires
        q.wf(),
    ensures
        q@.len() <= q.spec_capacity(),
        is_pow2(q.spec_capacity()),
{
}

/// Priority ordering: when a high-priority message is enqueued before a
/// normal one — in any interleaving with other enqueues, and each of the two
/// occurring once in the queue — the high-priority message stands closer to
/// the head, so the consumer, which drains from the head, dequeues it first.
pub proof fn lemma_priority_before_normal<T>(
    s0: Seq<T>,
    ops: Seq<queue_op_t<T>>,
    i: int,
    j: int,
    m1: T,
    m2: T,
)
    requires
        0 <= i < j < ops.len(),
        ops[i] == queue_op_t::PushFront(m1),
        ops[j] == queue_op_t::PushBack(m2),
        forall|k: int| 0 <= k < s0.len() ==> s0[k] != m1 && s0[k] != m2,
        forall|k: int|
            0 <= k < ops.len() && k != i ==> (#[trigger] ops[k]) != queue_op_t::PushFront(m1)
                && ops[k] != queue_op_t::PushBack(m1),
        forall|k: int|
            0 <= k < ops.len() && k != j ==> (#[trigger] ops[k]) != queue_op_t::PushFront(m2)
                && ops[k] != queue_op_t::PushBack(m2),
    ensures
        ({
            let s = apply_enqueue_ops(s0, ops);
            exists|p1: int, p2: int|
                0 <= p1 < p2 < s.len() && s[p1] == m1 && s[p2] == m2
        }),
    decreases ops.len(),
{
    let s = apply_enqueue_ops(s0, ops);
    let prev = apply_enqueue_ops(s0, ops.drop_last());
    if j == ops.len() - 1 {
        lemma_front_stays(s0, ops.drop_last(), i, m1);
        let p1 = choose|p1: int| 0 <= p1 < prev.len() && prev[p1] == m1;
        assert(s == prev.push(m2));
        assert(s[p1] == m1);
        assert(s[prev.len() as int] == m2);
        assert(0 <= p1 && p1 < prev.len() && (prev.len() as int) < s.len() && s[p1] == m1 && s[prev.len() as int] == m2);
    } else {
        lemma_priority_before_normal(s0, ops.drop_last(), i, j, m1, m2);
        let (p1, p2) = choose|p1: int, p2: int|
            0 <= p1 < p2 < prev.len() && prev[p1] == m1 && prev[p2] == m2;
        match ops.last() {
            queue_op_t::PushFront(v) => {
                assert(s == seq![v] + prev);
                assert(s[p1 + 1] == m1 && s[p2 + 1] == m2);
                assert(0 <= p1 + 1 < p2 + 1 < s.len() && s[p1 + 1] == m1 && s[p2 + 1] == m2);
            },
            queue_op_t::PushBack(v) => {
                assert(s == prev.push(v));
                assert(0 <= p1 < p2 < s.len() && s[p1] == m1 && s[p2] == m2);
            },
        }
    }
}

/// A message placed at the front stays in the queue under further enqueues.
proof fn lemma_front_stays<T>(s0: Seq<T>, ops: Seq<queue_op_t<T>>, i: int, m1: T)
    requires
        0 <= i < ops.len(),
        ops[i] == queue_op_t::PushFront(m1),
    ensures
        exists|p1: int|
            0 <= p1 < apply_enqueue_ops(s0, ops).len() && apply_enqueue_ops(s0, ops)[p1] == m1,
    decreases ops.len(),
{
    let s = apply_enqueue_ops(s0, ops);
    let prev = apply_enqueue_ops(s0, ops.drop_last());
    if i == ops.len() - 1 {
        assert(s == seq![m1] + prev);
        assert(s[0] == m1);
    } else {
        lemma_front_stays(s0, ops.drop_last(), i, m1);
        let p1 = choose|p1: int| 0 <= p1 < prev.len() && prev[p1] == m1;
        match ops.last() {
            queue_op_t::PushFront(v) => {
                assert(s == seq![v] + prev);
                assert(s[p1 + 1] == m1);
            },
            queue_op_t::PushBack(v) => {
                assert(s == prev.push(v));
                assert(s[p1] == m1);
            },
        }
    }
}

} // verus!
