//! Dense identifier allocator: hands out IDs from a fixed range, tracks the
//! ones in use in a bitmap, and makes a released ID immediately reusable.

use vstd::prelude::*;
use crate::common::errcode;
use crate::common::bitmap::{bitmap_t, count_true};
use std::collections::VecDeque;

verus! {

pub struct TsIdAllocator {
    pub start: i32,
    pub cap: i32,
    pub allocator: VecDeque<i32>,
    pub used: bitmap_t,
}

impl TsIdAllocator {
    pub const INVALID_ID: i32 = -1;

    /// Free list and bitmap describe the same partition of the ID range:
    /// an ID's bit is set exactly when the ID is not on the free list, the
    /// free list holds no duplicates, and every free entry is in range.
    pub open spec fn wf(&self) -> bool {
        &&& 0 <= self.start
        &&& 0 <= self.cap
        &&& self.start + self.cap <= i32::MAX
        &&& self.used@.len() == self.cap
        &&& self.used.wf()
        &&& forall|j: int|
            0 <= j < self.allocator@.len() ==> self.start <= #[trigger] self.allocator@[j]
                < self.start + self.cap
        &&& forall|j: int, l: int|
            0 <= j < l < self.allocator@.len() ==> self.allocator@[j] != self.allocator@[l]
        &&& forall|k: int|
            0 <= k < self.cap ==> ((#[trigger] self.used@[k]) <==> !self.allocator@.contains(
                (self.start + k) as i32,
            ))
        &&& count_true(self.used@) + self.allocator@.len() == self.cap
    }

    /// Whether an ID is currently allocated.
    pub open spec fn spec_is_used(&self, id: i32) -> bool {
        self.start <= id < self.start + self.cap && self.used@[id - self.start]
    }

    /// An allocator over the IDs `start, start + 1, .., start + capacity - 1`,
    /// all free, handed out in that order.
    pub fn new(start: i32, capacity: i32) -> (r: Self)
        requires
            0 <= start,
            0 <= capacity,
            start + capacity <= i32::MAX,
        ensures
            r.wf(),
            r.start == start,
            r.cap == capacity,
            r.allocator@.len() == capacity,
            forall|j: int| 0 <= j < capacity ==> #[trigger] r.allocator@[j] == start + j,
            forall|id: i32| !r.spec_is_used(id),
    {
        let mut q: VecDeque<i32> = VecDeque::new();
        let mut i: i32 = start;
        while i < start + capacity
            invariant
                start <= i <= start + capacity,
                start + capacity <= i32::MAX,
                q@.len() == i - start,
                forall|j: int| 0 <= j < q@.len() ==> #[trigger] q@[j] == start + j,
            decreases start + capacity - i,
        {
            q.push_back(i);
            i = i + 1;
        }
        let r = Self { start, cap: capacity, allocator: q, used: bitmap_t::new(capacity) };
        proof {
            assert forall|k: int| 0 <= k < r.cap implies (r.used@[k] <==> !r.allocator@.contains(
                (r.start + k) as i32,
            )) by {
                assert(r.allocator@[k] == start + k);
                assert(r.allocator@.contains((r.start + k) as i32));
            }
            crate::common::bitmap::lemma_count_all_false(r.used@);
        }
        r
    }

    /// Take the ID at the head of the free list; `INVALID_ID` when none is
    /// left. A returned ID is in range, was free, and is now marked used.
    pub fn allocate_id(&mut self) -> (id: i32)
        requires
            old(self).wf(),
        ensures
            final(self).wf(),
            final(self).start == old(self).start,
            final(self).cap == old(self).cap,
            old(self).allocator@.len() == 0 ==> id == Self::INVALID_ID && final(self).allocator@
                == old(self).allocator@ && final(self).used == old(self).used,
            old(self).allocator@.len() > 0 ==> {
                &&& id == old(self).allocator@[0]
                &&& old(self).start <= id < old(self).start + old(self).cap
                &&& !old(self).spec_is_used(id)
                &&& final(self).spec_is_used(id)
                &&& final(self).allocator@ == old(self).allocator@.subrange(
                    1,
                    old(self).allocator@.len() as int,
                )
                &&& final(self).used@ == old(self).used@.update(id - old(self).start, true)
            },
    {
        let popped = self.allocator.pop_front();
        match popped {
            None => Self::INVALID_ID,
            Some(i) => {
                proof {
                    assert(old(self).allocator@.contains(old(self).allocator@[0]));
                }
                let idx = i - self.start;
                self.used.set_bitmap(idx);
                proof {
                    let s = old(self).allocator@;
                    assert forall|k: int|
                        0 <= k < self.cap implies (self.used@[k] <==> !self.allocator@.contains(
                        (self.start + k) as i32,
                    )) by {
                        if self.start + k == i {
                            if self.allocator@.contains((self.start + k) as i32) {
                                let j = choose|j: int|
                                    0 <= j < self.allocator@.len() && self.allocator@[j] == (
                                    self.start + k) as i32;
                                assert(s[j + 1] == s[0]);
                            }
                        } else {
                            if s.contains((self.start + k) as i32) {
                                let j = choose|j: int|
                                    0 <= j < s.len() && s[j] == (self.start + k) as i32;
                                assert(j != 0);
                                assert(self.allocator@[j - 1] == s[j]);
                                assert(self.allocator@.contains((self.start + k) as i32));
                            }
                            if self.allocator@.contains((self.start + k) as i32) {
                                let j = choose|j: int|
                                    0 <= j < self.allocator@.len() && self.allocator@[j] == (
                                    self.start + k) as i32;
                                assert(s[j + 1] == (self.start + k) as i32);
                                assert(s.contains((self.start + k) as i32));
                            }
                        }
                    }
                }
                i
            },
        }
    }

    /// Return an allocated ID to the head of the free list. Rejects an ID
    /// outside the range with `OUT_OF_SCOPE` and a free one with `NOT_FOUND`.
    pub fn release_id(&mut self, id: i32) -> (res: errcode::RESULT)
        requires
            old(self).wf(),
        ensures
            final(self).wf(),
            final(self).start == old(self).start,
            final(self).cap == old(self).cap,
            !(old(self).start <= id < old(self).start + old(self).cap) ==> res
                == errcode::ERROR_OUTOF_SCOPE && *final(self) == *old(self),
            old(self).start <= id < old(self).start + old(self).cap && !old(self).spec_is_used(id)
                ==> res == errcode::ERROR_NOT_FOUND && *final(self) == *old(self),
            old(self).spec_is_used(id) ==> {
                &&& res == errcode::RESULT_SUCCESS
                &&& !final(self).spec_is_used(id)
                &&& final(self).allocator@ == seq![id] + old(self).allocator@
                &&& final(self).used@ == old(self).used@.update(id - old(self).start, false)
            },
    {
        if id < self.start || id - self.start >= self.cap {
            return errcode::ERROR_OUTOF_SCOPE;
        }
        let idx = id - self.start;
        let was_set = self.used.is_bit_set(idx);
        if !was_set {
            return errcode::ERROR_NOT_FOUND;
        }
        proof {
            if old(self).allocator@.contains(id) {
                assert(!old(self).used@[id - old(self).start]);
            }
        }
        self.used.unset_bitmap(idx);
        self.allocator.push_front(id);
        proof {
            let s = old(self).allocator@;
            assert forall|k: int|
                0 <= k < self.cap implies (self.used@[k] <==> !self.allocator@.contains(
                (self.start + k) as i32,
            )) by {
                if self.start + k == id {
                    assert(self.allocator@[0] == id);
                    assert(self.allocator@.contains((self.start + k) as i32));
                } else {
                    if s.contains((self.start + k) as i32) {
                        let j = choose|j: int| 0 <= j < s.len() && s[j] == (self.start + k) as i32;
                        assert(self.allocator@[j + 1] == s[j]);
                        assert(self.allocator@.contains((self.start + k) as i32));
                    }
                    if self.allocator@.contains((self.start + k) as i32) {
                        let j = choose|j: int|
                            0 <= j < self.allocator@.len() && self.allocator@[j] == (self.start
                                + k) as i32;
                        assert(j != 0);
                        assert(s[j - 1] == (self.start + k) as i32);
                        assert(s.contains((self.start + k) as i32));
                    }
                }
            }
            crate::common::bitmap::lemma_count_update(old(self).used@, id - old(self).start, false);
        }
        errcode::RESULT_SUCCESS
    }

    /// Claim one specific free ID, removing it from wherever it stands in the
    /// free list. Rejects an out-of-range ID with `OUT_OF_SCOPE` and an
    /// already-used one with `ALREADY_EXIST`.
    pub fn reserve_id(&mut self, id: i32) -> (res: errcode::RESULT)
        requires
            old(self).wf(),
        ensures
            final(self).wf(),
            final(self).start == old(self).start,
            final(self).cap == old(self).cap,
            !(old(self).start <= id < old(self).start + old(self).cap) ==> res
                == errcode::ERROR_OUTOF_SCOPE && *final(self) == *old(self),
            old(self).start <= id < old(self).start + old(self).cap && old(self).spec_is_used(id)
                ==> res == errcode::ERROR_ALREADY_EXIST && *final(self) == *old(self),
            old(self).start <= id < old(self).start + old(self).cap && !old(self).spec_is_used(id)
                ==> res == errcode::RESULT_SUCCESS && final(self).spec_is_used(id)
                && final(self).used@ == old(self).used@.update(id - old(self).start, true),
    {
        if id < self.start || id - self.start >= self.cap {
            return errcode::ERROR_OUTOF_SCOPE;
        }
        let idx = id - self.start;
        let was_set = self.used.is_bit_set(idx);
        if was_set {
            return errcode::ERROR_ALREADY_EXIST;
        }
        let mut pos: usize = 0;
        let mut found: bool = false;
        let n = self.allocator.len();
        let mut r: usize = 0;
        while r < n
            invariant
                r <= n,
                n == self.allocator@.len(),
                found ==> pos < n && self.allocator@[pos as int] == id,
                !found ==> forall|j: int| 0 <= j < r ==> self.allocator@[j] != id,
            decreases n - r,
        {
            if self.allocator[r] == id {
                pos = r;
                found = true;
            }
            r = r + 1;
        }
        proof {
            assert(old(self).allocator@.contains(id));
            assert(found);
        }
        let _removed = self.allocator.remove(pos);
        self.used.set_bitmap(idx);
        proof {
            let s = old(self).allocator@;
            let p = pos as int;
            assert forall|k: int|
                0 <= k < self.cap implies (self.used@[k] <==> !self.allocator@.contains(
                (self.start + k) as i32,
            )) by {
                if self.start + k == id {
                    if self.allocator@.contains((self.start + k) as i32) {
                        let j = choose|j: int|
                            0 <= j < self.allocator@.len() && self.allocator@[j] == (self.start
                                + k) as i32;
                        if j < p {
                            assert(s[j] == (self.start + k) as i32);
                        } else {
                            assert(s[j + 1] == (self.start + k) as i32);
                        }
                    }
                } else {
                    if s.contains((self.start + k) as i32) {
                        let j = choose|j: int| 0 <= j < s.len() && s[j] == (self.start + k) as i32;
                        assert(j != p);
                        if j < p {
                            assert(self.allocator@[j] == s[j]);
                        } else {
                            assert(self.allocator@[j - 1] == s[j]);
                        }
                        assert(self.allocator@.contains((self.start + k) as i32));
                    }
                    if self.allocator@.contains((self.start + k) as i32) {
                        let j = choose|j: int|
                            0 <= j < self.allocator@.len() && self.allocator@[j] == (self.start
                                + k) as i32;
                        if j < p {
                            assert(s[j] == (self.start + k) as i32);
                        } else {
                            assert(s[j + 1] == (self.start + k) as i32);
                        }
                        assert(s.contains((self.start + k) as i32));
                    }
                }
            }
            crate::common::bitmap::lemma_count_update(old(self).used@, id - old(self).start, true);
        }
        errcode::RESULT_SUCCESS
    }

    /// The size of the ID range.
    pub fn capacity(&self) -> (r: i32)
        ensures
            r == self.cap,
    {
        self.cap
    }

    /// How many IDs are currently allocated.
    pub fn used_count(&self) -> (r: i32)
        requires
            self.wf(),
        ensures
            r == self.cap - self.allocator@.len(),
    {
        proof {
            crate::common::bitmap::lemma_count_true_le(self.used@);
        }
        let c = self.used.get_used_count();
        c as i32
    }
}

} // verus!
