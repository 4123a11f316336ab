//! A bounded, ordered ring addressed by sequence number: each element has a
//! unique sequence, elements are stored and fetched by sequence, and the
//! window `[min_seq, max_seq]` slides forward as higher sequences arrive.
//! Used for reliable-transport send queues: acknowledge, retransmit, and
//! detect duplicates and losses.

use vstd::prelude::*;
use vstd::string::*;
use crate::common::errcode;
use crate::common::strfmt;

verus! {

#[derive(Copy, Clone, PartialEq, Eq, Structural, Debug)]
pub enum EItemState {
    ITEM_STATE_IDLE,
    ITEM_STATE_USED,
    ITEM_STATE_DELETED,
}

pub const INVALID_SEQ: u64 = 0xFFFFFFFFFFFFFFFF;

pub const INVALID_INDEX: usize = 0xFFFFFFFF;

/// One ring slot: the sequence it holds, its state, and the payload.
pub struct data_item<T> {
    pub seq_no: u64,
    pub state: EItemState,
    pub item: Option<T>,
}

impl<T> data_item<T> {
    pub fn new() -> (r: Self)
        ensures
            r.seq_no == 0,
            r.state == EItemState::ITEM_STATE_IDLE,
            r.item is None,
    {
        Self { seq_no: 0, state: EItemState::ITEM_STATE_IDLE, item: None }
    }
}

pub struct index_ring_t<T> {
    pub data: Vec<data_item<T>>,
    pub head: usize,
    pub tail: usize,
    pub min_seq: u64,
    pub max_seq: u64,
    pub capacity: usize,
    pub expect_item: u64,
    pub recv_item: u64,
}

impl<T> index_ring_t<T> {
    /// The number of live positions: the window size, or zero when empty.
    pub open spec fn spec_ring_len(&self) -> int {
        if self.head == INVALID_INDEX || self.tail == INVALID_INDEX {
            0
        } else if self.head <= self.tail {
            self.tail - self.head + 1
        } else {
            self.tail + self.capacity - self.head + 1
        }
    }

    /// The slot a live sequence occupies.
    pub open spec fn spec_slot_of(&self, seq: u64) -> int {
        (seq - self.min_seq + self.head) as int % self.capacity as int
    }

    /// Whether a sequence lies in the live window.
    pub open spec fn spec_in_window(&self, seq: u64) -> bool {
        self.head != INVALID_INDEX && self.min_seq <= seq <= self.max_seq
    }

    /// Structural soundness: the storage matches the capacity, the head and
    /// tail are both absent or both inside the ring, the window is ordered,
    /// and the window size equals the live length.
    pub open spec fn wf(&self) -> bool {
        &&& self.data@.len() == self.capacity
        &&& 0 < self.capacity <= 0x7FFFFFFF
        &&& (self.head == INVALID_INDEX <==> self.tail == INVALID_INDEX)
        &&& (self.head != INVALID_INDEX ==> self.head < self.capacity && self.tail < self.capacity)
        &&& self.min_seq <= self.max_seq
        &&& (self.head == INVALID_INDEX ==> self.min_seq == self.max_seq)
        &&& (self.head != INVALID_INDEX ==> self.max_seq - self.min_seq == self.spec_ring_len() - 1)
        &&& self.expect_item >= self.recv_item
    }

    /// An empty ring over `ring_capacity` slots with the window starting at
    /// `start_seq`.
    pub fn new(ring_capacity: usize, start_seq: u64) -> (r: Self)
        requires
            0 < ring_capacity <= 0x7FFFFFFF,
            start_seq < INVALID_SEQ,
        ensures
            r.wf(),
            r.spec_ring_len() == 0,
            r.min_seq == start_seq,
            r.max_seq == start_seq,
            r.capacity == ring_capacity,
    {
        let mut v: Vec<data_item<T>> = Vec::new();
        let mut i: usize = 0;
        while i < ring_capacity
            invariant
                i <= ring_capacity,
                v@.len() == i,
            decreases ring_capacity - i,
        {
            v.push(data_item::new());
            i = i + 1;
        }
        Self {
            data: v,
            head: INVALID_INDEX,
            tail: INVALID_INDEX,
            min_seq: start_seq,
            max_seq: start_seq,
            capacity: ring_capacity,
            expect_item: 0,
            recv_item: 0,
        }
    }

    fn is_valid_index(&self, idx: usize) -> (r: bool)
        requires
            self.wf(),
    {
        if idx >= self.capacity {
            return false;
        }
        if self.head <= self.tail {
            idx >= self.head && idx <= self.tail
        } else {
            idx <= self.head || (idx >= self.tail && idx < self.capacity)
        }
    }

    fn set_item(&mut self, seq: u64, idx: usize, item: T) -> (res: errcode::RESULT)
        requires
            old(self).wf(),
            idx < old(self).capacity,
        ensures
            final(self).wf(),
            final(self).head == old(self).head,
            final(self).tail == old(self).tail,
            final(self).min_seq == old(self).min_seq,
            final(self).max_seq == old(self).max_seq,
            final(self).capacity == old(self).capacity,
            old(self).data@[idx as int].state == EItemState::ITEM_STATE_USED && old(self).data@[idx as int].seq_no == seq ==> res == errcode::ERROR_ALREADY_EXIST && *final(self) == *old(self),
            !(old(self).data@[idx as int].state == EItemState::ITEM_STATE_USED && old(self).data@[idx as int].seq_no == seq) ==> res == errcode::RESULT_SUCCESS && final(self).data@[idx as int].state == EItemState::ITEM_STATE_USED && final(self).data@[idx as int].seq_no == seq && (forall|l: int| 0 <= l < old(self).data@.len() && l != idx ==> final(self).data@[l] == old(self).data@[l]),
    {
        let existing_used = self.data[idx].state == EItemState::ITEM_STATE_USED && self.data[idx].seq_no == seq;
        if existing_used {
            return errcode::ERROR_ALREADY_EXIST;
        }
        self.data.set(
            idx,
            data_item { seq_no: seq, state: EItemState::ITEM_STATE_USED, item: Some(item) },
        );
        self.recv_item = if self.recv_item < u64::MAX {
            self.recv_item + 1
        } else {
            self.recv_item
        };
        if self.expect_item < self.recv_item {
            self.expect_item = self.recv_item;
        }
        errcode::RESULT_SUCCESS
    }

    /// Store an item under its sequence. A sequence below the window or at
    /// or beyond `max_seq + capacity` is refused with `INVALID_INDEX`; a
    /// sequence already stored is refused with `ALREADY_EXIST`; a sequence
    /// beyond `max_seq` slides the window forward, discarding what falls
    /// off.
    pub fn add_item(&mut self, seq: u64, item: T) -> (res: errcode::RESULT)
        requires
            old(self).wf(),
            old(self).max_seq + old(self).capacity < INVALID_SEQ,
        ensures
            final(self).wf(),
            final(self).capacity == old(self).capacity,
            seq < old(self).min_seq || seq >= old(self).max_seq + old(self).capacity ==> res
                == errcode::ERROR_INVALID_INDEX && final(self).max_seq == old(self).max_seq,
            res == errcode::RESULT_SUCCESS ==> final(self).spec_ring_len() > 0,
            seq > old(self).max_seq && seq < old(self).max_seq + old(self).capacity ==> final(self).max_seq == seq,
            old(self).spec_ring_len() > 0 && old(self).spec_in_window(seq) && old(self).data@[old(self).spec_slot_of(seq)].state == EItemState::ITEM_STATE_USED && old(self).data@[old(self).spec_slot_of(seq)].seq_no == seq ==> res == errcode::ERROR_ALREADY_EXIST && *final(self) == *old(self),
            old(self).spec_ring_len() > 0 && old(self).spec_in_window(seq) && !(old(self).data@[old(self).spec_slot_of(seq)].state == EItemState::ITEM_STATE_USED && old(self).data@[old(self).spec_slot_of(seq)].seq_no == seq) ==> res == errcode::RESULT_SUCCESS && final(self).head == old(self).head && final(self).tail == old(self).tail && final(self).min_seq == old(self).min_seq && final(self).max_seq == old(self).max_seq && final(self).data@[old(self).spec_slot_of(seq)].state == EItemState::ITEM_STATE_USED && final(self).data@[old(self).spec_slot_of(seq)].seq_no == seq && (forall|l: int| 0 <= l < old(self).data@.len() && l != old(self).spec_slot_of(seq) ==> final(self).data@[l] == old(self).data@[l]),
    {
        if seq < self.min_seq || seq >= self.max_seq + self.capacity as u64 {
            return errcode::ERROR_INVALID_INDEX;
        }
        let distance: u64 = if seq <= self.max_seq {
            0
        } else {
            seq - self.max_seq
        };
        if self.get_ring_len() == 0 {
            self.head = 0;
            self.tail = distance as usize;
            self.max_seq = seq;
            proof {
                assert(seq - old(self).min_seq == distance);
            }
            self.expect_item = if self.expect_item <= u64::MAX - 1 - distance {
                self.expect_item + 1 + distance
            } else {
                u64::MAX
            };
            if self.expect_item < self.recv_item {
                self.expect_item = self.recv_item;
            }
            let t = self.tail;
            return self.set_item(seq, t, item);
        }
        if seq >= self.min_seq && seq <= self.max_seq {
            let idx = self.get_index_by_seq(seq);
            if idx < self.capacity {
                return self.set_item(seq, idx, item);
            }
            return errcode::ERROR_INVALID_INDEX;
        }
        // seq > max_seq: slide the window forward by `distance`.
        self.expect_item = if self.expect_item <= u64::MAX - distance {
            self.expect_item + distance
        } else {
            u64::MAX
        };
        if self.expect_item < self.recv_item {
            self.expect_item = self.recv_item;
        }
        let len = self.get_ring_len();
        proof {
            assert(len >= 1);
            assert(distance < self.capacity);
        }
        if (distance as usize) > len - 1 && len + (distance as usize) > self.capacity {
            // The whole current window falls off: restart it at this
            // sequence alone.
            let m = self.max_seq;
            self.remove_item_before_seq(m, true);
            self.head = 0;
            self.tail = 0;
            self.min_seq = seq;
            self.max_seq = seq;
            let t = self.tail;
            return self.set_item(seq, t, item);
        }
        if len + (distance as usize) > self.capacity {
            let cut = self.min_seq + distance - 1;
            self.remove_item_before_seq(cut, true);
        }
        self.max_seq = seq;
        if self.head == INVALID_INDEX {
            self.head = 0;
            self.tail = 0;
            self.min_seq = seq;
            let t = self.tail;
            return self.set_item(seq, t, item);
        }
        let new_tail = (self.tail + distance as usize) % self.capacity;
        proof {
            lemma_ring_index(self.head as int, (self.tail + distance) as int, self.capacity as int);
            lemma_ring_len_shift(
                self.head as int,
                self.tail as int,
                distance as int,
                self.capacity as int,
            );
        }
        self.tail = new_tail;
        let t = self.tail;
        self.set_item(seq, t, item)
    }

    fn incr_hdr_index(&mut self)
        requires
            old(self).wf(),
            old(self).max_seq < INVALID_SEQ,
        ensures
            final(self).wf(),
            final(self).capacity == old(self).capacity,
            final(self).data@.len() == old(self).data@.len(),
            final(self).max_seq <= old(self).max_seq + 1,
            old(self).spec_ring_len() == 0 ==> *final(self) == *old(self),
            old(self).spec_ring_len() == 1 ==> final(self).spec_ring_len() == 0 && final(self).min_seq == old(self).min_seq + 1 && final(self).max_seq == final(self).min_seq,
            old(self).spec_ring_len() > 1 ==> final(self).spec_ring_len() == old(self).spec_ring_len() - 1 && final(self).min_seq == old(self).min_seq + 1 && final(self).max_seq == old(self).max_seq,
            forall|k: int| 0 <= k < old(self).data@.len() ==> final(self).data@[k] == old(self).data@[k],
    {
        let len = self.get_ring_len();
        if len == 0 {
        } else if len == 1 {
            self.head = INVALID_INDEX;
            self.tail = INVALID_INDEX;
            self.min_seq = self.min_seq + 1;
            self.max_seq = self.min_seq;
        } else {
            self.min_seq = self.min_seq + 1;
            proof {
                let h = self.head as int;
                let c = self.capacity as int;
                assert((h + 1) % c == (if h + 1 < c {
                    h + 1
                } else {
                    0int
                })) by (nonlinear_arith)
                    requires
                        0 <= h < c,
                ;
            }
            self.head = (self.head + 1) % self.capacity;
        }
    }

    fn inner_delete_item(&mut self, idx: usize)
        requires
            old(self).wf(),
            idx < old(self).capacity,
            old(self).max_seq < INVALID_SEQ,
        ensures
            final(self).wf(),
            final(self).capacity == old(self).capacity,
            final(self).data@.len() == old(self).data@.len(),
            final(self).min_seq >= old(self).min_seq,
            final(self).spec_ring_len() <= old(self).spec_ring_len(),
            final(self).max_seq <= old(self).max_seq + 1,
            idx == old(self).head && old(self).spec_ring_len() > 0 ==> final(self).spec_ring_len()
                == old(self).spec_ring_len() - 1 && final(self).min_seq == old(self).min_seq + 1
                && (final(self).spec_ring_len() > 0 ==> final(self).max_seq == old(self).max_seq)
                && (final(self).spec_ring_len() == 0 ==> final(self).max_seq == final(self).min_seq),
            idx != old(self).head ==> final(self).head == old(self).head && final(self).tail == old(self).tail && final(self).min_seq == old(self).min_seq && final(self).max_seq == old(self).max_seq,
            idx == old(self).head && old(self).spec_ring_len() == 0 ==> final(self).head == old(self).head && final(self).min_seq == old(self).min_seq && final(self).max_seq == old(self).max_seq,
            final(self).data@[idx as int].state == EItemState::ITEM_STATE_DELETED,
            final(self).data@[idx as int].item is None,
            forall|l: int|
                0 <= l < old(self).data@.len() && l != idx ==> final(self).data@[l] == old(self).data@[l],
    {
        self.data.set(
            idx,
            data_item {
                seq_no: self.data[idx].seq_no,
                state: EItemState::ITEM_STATE_DELETED,
                item: None,
            },
        );
        if idx == self.head {
            self.incr_hdr_index();
        }
    }

    /// Mark one sequence deleted. `NOT_FOUND` when the sequence is outside
    /// the window or was not stored; its slot empties, the ring shrinks by
    /// one exactly when the head was removed, and everything else is kept.
    pub fn remove_item(&mut self, seq: u64) -> (res: errcode::RESULT)
        requires
            old(self).wf(),
            old(self).max_seq < INVALID_SEQ,
        ensures
            final(self).wf(),
            final(self).capacity == old(self).capacity,
            !old(self).spec_in_window(seq) ==> res == errcode::ERROR_NOT_FOUND && *final(self)
                == *old(self),
            old(self).spec_in_window(seq) ==> ({
                let slot = old(self).spec_slot_of(seq);
                &&& res == (if old(self).data@[slot].state == EItemState::ITEM_STATE_USED {
                    errcode::RESULT_SUCCESS
                } else {
                    errcode::ERROR_NOT_FOUND
                })
                &&& final(self).data@[slot].state == EItemState::ITEM_STATE_DELETED
                &&& final(self).data@[slot].item is None
                &&& (forall|l: int|
                    0 <= l < old(self).data@.len() && l != slot ==> final(self).data@[l] == old(self).data@[l])
                &&& final(self).spec_ring_len() == old(self).spec_ring_len() - (
                if slot == old(self).head {
                    1int
                } else {
                    0int
                })
                &&& (slot != old(self).head ==> final(self).head == old(self).head && final(self).tail == old(self).tail && final(self).min_seq == old(self).min_seq && final(self).max_seq == old(self).max_seq)
                &&& (slot == old(self).head ==> final(self).min_seq == old(self).min_seq + 1)
            }),
    {
        let idx = self.get_index_by_seq(seq);
        if idx < self.capacity {
            proof {
                assert(self.spec_in_window(seq));
                assert(idx == self.spec_slot_of(seq));
            }
            let state = self.data[idx].state;
            self.inner_delete_item(idx);
            if state == EItemState::ITEM_STATE_USED {
                errcode::RESULT_SUCCESS
            } else {
                errcode::ERROR_NOT_FOUND
            }
        } else {
            errcode::ERROR_NOT_FOUND
        }
    }

    /// Delete every position up to a sequence: unconditionally when forced,
    /// otherwise only as long as the positions were already marked deleted
    /// (`INVALID_STATE` stops at the first live one).
    pub fn remove_item_before_seq(&mut self, seq: u64, force: bool) -> (res: errcode::RESULT)
        requires
            old(self).wf(),
            old(self).max_seq < INVALID_SEQ,
        ensures
            final(self).wf(),
            final(self).capacity == old(self).capacity,
            final(self).min_seq >= old(self).min_seq,
            final(self).max_seq >= old(self).max_seq,
            seq < old(self).min_seq || seq > old(self).max_seq || old(self).head == INVALID_INDEX
                ==> res == errcode::ERROR_INVALID_INDEX && final(self).min_seq == old(self).min_seq
                && final(self).spec_ring_len() == old(self).spec_ring_len(),
            force && !(seq < old(self).min_seq || seq > old(self).max_seq || old(self).head
                == INVALID_INDEX) ==> res == errcode::RESULT_SUCCESS && final(self).spec_ring_len()
                == old(self).spec_ring_len() - (seq - old(self).min_seq + 1) && (seq < old(self).max_seq ==> final(self).min_seq == seq + 1 && final(self).max_seq == old(self).max_seq),
    {
        let idx = self.get_index_by_seq(seq);
        if idx >= self.capacity {
            return errcode::ERROR_INVALID_INDEX;
        }
        proof {
            assert(!(seq < self.min_seq || seq > self.max_seq || self.head == INVALID_INDEX));
        }
        let total: u64 = seq - self.min_seq + 1;
        let mut steps: u64 = total;
        proof {
            assert(steps <= self.spec_ring_len());
        }
        while steps > 0
            invariant
                self.wf(),
                self.capacity == old(self).capacity,
                steps <= total,
                total <= old(self).spec_ring_len(),
                self.min_seq == old(self).min_seq + (total - steps),
                self.spec_ring_len() == old(self).spec_ring_len() - (total - steps),
                steps <= self.spec_ring_len(),
                old(self).spec_ring_len() > 0,
                old(self).max_seq < INVALID_SEQ,
                !(seq < old(self).min_seq || seq > old(self).max_seq || old(self).head
                    == INVALID_INDEX),
                self.spec_ring_len() > 0 ==> self.max_seq == old(self).max_seq,
                self.max_seq >= old(self).max_seq,
                self.max_seq <= old(self).max_seq + 1,
                self.spec_ring_len() == 0 ==> steps == 0,
            decreases steps,
        {
            let h = self.head;
            proof {
                assert(self.spec_ring_len() > 0);
                assert(h < self.capacity);
            }
            if !force && self.data[h].state != EItemState::ITEM_STATE_DELETED {
                return errcode::ERROR_INVALID_STATE;
            }
            self.inner_delete_item(h);
            steps = steps - 1;
        }
        errcode::RESULT_SUCCESS
    }

    /// The slot index a sequence lives at; `INVALID_INDEX` outside the
    /// window.
    pub fn get_index_by_seq(&self, seq: u64) -> (idx: usize)
        requires
            self.wf(),
        ensures
            seq < self.min_seq || seq > self.max_seq || self.head == INVALID_INDEX ==> idx
                == INVALID_INDEX,
            !(seq < self.min_seq || seq > self.max_seq || self.head == INVALID_INDEX) ==> idx == (
            seq - self.min_seq + self.head) as int % self.capacity as int && idx < self.capacity,
    {
        if seq < self.min_seq || seq > self.max_seq || self.head == INVALID_INDEX {
            return INVALID_INDEX;
        }
        proof {
            assert(seq - self.min_seq <= self.spec_ring_len() - 1);
            assert(((seq - self.min_seq + self.head) as int % (self.capacity as int)) < (
            self.capacity as int)) by (nonlinear_arith)
                requires
                    self.capacity > 0,
            ;
        }
        ((seq - self.min_seq) as usize + self.head) % self.capacity
    }

    /// The stored item under a sequence, if that sequence is live.
    pub fn get_item_by_seq(&mut self, seq: u64) -> (r: Option<&T>)
        requires
            old(self).wf(),
        ensures
            *final(self) == *old(self),
    {
        let idx = self.get_index_by_seq(seq);
        if idx != INVALID_INDEX && self.data[idx].state == EItemState::ITEM_STATE_USED {
            match &self.data[idx].item {
                None => None,
                Some(s) => Some(s),
            }
        } else {
            None
        }
    }

    /// The item at the head of the window, if any.
    pub fn get_head_item(&mut self) -> (r: Option<&T>)
        requires
            old(self).wf(),
        ensures
            *final(self) == *old(self),
    {
        if self.get_ring_len() > 0 {
            proof {
                assert(self.head < self.capacity);
            }
            match &self.data[self.head].item {
                None => None,
                Some(item) => Some(item),
            }
        } else {
            None
        }
    }

    pub fn get_head_index(&self) -> (r: usize)
        ensures
            r == self.head,
    {
        self.head
    }

    pub fn get_tail_index(&self) -> (r: usize)
        ensures
            r == self.tail,
    {
        self.tail
    }

    pub fn get_head_seq(&self) -> (r: u64)
        ensures
            r == self.min_seq,
    {
        self.min_seq
    }

    pub fn get_tail_seq(&self) -> (r: u64)
        ensures
            r == self.max_seq,
    {
        self.max_seq
    }

    /// The number of live positions in the window.
    pub fn get_ring_len(&self) -> (r: usize)
        requires
            self.wf(),
        ensures
            r == self.spec_ring_len(),
    {
        if self.head == INVALID_INDEX || self.tail == INVALID_INDEX {
            return 0;
        }
        if self.head <= self.tail {
            self.tail - self.head + 1
        } else {
            self.tail + self.capacity - self.head + 1
        }
    }

    pub fn get_ring_capacity(&self) -> (r: usize)
        ensures
            r == self.capacity,
    {
        self.capacity
    }

    /// The state of the head slot; idle when the ring is empty.
    pub fn get_head_item_state(&self) -> (r: EItemState)
        requires
            self.wf(),
        ensures
            self.spec_ring_len() == 0 ==> r == EItemState::ITEM_STATE_IDLE,
            self.spec_ring_len() > 0 ==> r == self.data@[self.head as int].state,
    {
        if self.get_ring_len() == 0 {
            EItemState::ITEM_STATE_IDLE
        } else {
            proof {
                assert(self.head < self.capacity);
            }
            self.data[self.head].state
        }
    }

    /// The state of a sequence's slot; idle outside the window.
    pub fn get_item_state(&self, seq: u64) -> (r: EItemState)
        requires
            self.wf(),
    {
        let idx = self.get_index_by_seq(seq);
        if idx == INVALID_INDEX {
            EItemState::ITEM_STATE_IDLE
        } else {
            self.data[idx].state
        }
    }

    /// Received and expected counts, for loss-rate accounting.
    pub fn get_recv_item_stats(&self) -> (r: (u64, u64))
        ensures
            r.0 == self.recv_item,
            r.1 == self.expect_item,
    {
        (self.recv_item, self.expect_item)
    }

    pub fn clear_recv_stats(&mut self)
        requires
            old(self).wf(),
        ensures
            final(self).wf(),
            final(self).recv_item == 0,
            final(self).expect_item == 0,
            final(self).data@.len() == old(self).data@.len(),
            final(self).min_seq == old(self).min_seq,
            final(self).max_seq == old(self).max_seq,
    {
        self.recv_item = 0;
        self.expect_item = 0;
    }

    /// How many expected items never arrived.
    pub fn get_loss_count(&self) -> (r: u64)
        requires
            self.wf(),
        ensures
            r == self.expect_item - self.recv_item,
    {
        self.expect_item - self.recv_item
    }

    /// Empty the ring and restart the window at sequence 1.
    pub fn clear(&mut self)
        requires
            old(self).wf(),
        ensures
            final(self).wf(),
            final(self).spec_ring_len() == 0,
            final(self).min_seq == 1,
            final(self).max_seq == 1,
            final(self).capacity == old(self).capacity,
            final(self).recv_item == 0,
            final(self).expect_item == 0,
    {
        self.clear_recv_stats();
        self.head = INVALID_INDEX;
        self.tail = INVALID_INDEX;
        self.min_seq = 1;
        self.max_seq = 1;
        let n = self.data.len();
        let mut i: usize = 0;
        while i < n
            invariant
                i <= n,
                self.data@.len() == n,
                self.head == INVALID_INDEX,
                self.tail == INVALID_INDEX,
                self.min_seq == 1,
                self.max_seq == 1,
                self.capacity == old(self).capacity,
                n == self.capacity,
                0 < self.capacity <= 0x7FFFFFFF,
                self.recv_item == 0,
                self.expect_item == 0,
            decreases n - i,
        {
            let seq_no = self.data[i].seq_no;
            self.data.set(
                i,
                data_item { seq_no, state: EItemState::ITEM_STATE_IDLE, item: None },
            );
            i = i + 1;
        }
    }

    /// Human-readable summary of the ring's window and counters.
    pub fn to_string(&self) -> (r: String)
        requires
            self.wf(),
        ensures
            r@.len() > 0,
    {
        proof {
            reveal_strlit("capacity:");
            reveal_strlit(",len:");
            reveal_strlit(",head:");
            reveal_strlit(",tail:");
            reveal_strlit(",seq:<");
            reveal_strlit("-");
            reveal_strlit(",expect:");
            reveal_strlit(",recved=");
            reveal_strlit(">");
        }
        let mut s = "capacity:".to_owned();
        s.append(strfmt::u64_to_dec(self.capacity as u64).as_str());
        s.append(",len:");
        s.append(strfmt::u64_to_dec(self.get_ring_len() as u64).as_str());
        s.append(",head:");
        s.append(strfmt::u64_to_dec(self.head as u64).as_str());
        s.append(",tail:");
        s.append(strfmt::u64_to_dec(self.tail as u64).as_str());
        s.append(",seq:<");
        s.append(strfmt::u64_to_dec(self.min_seq).as_str());
        s.append("-");
        s.append(strfmt::u64_to_dec(self.max_seq).as_str());
        s.append(",expect:");
        s.append(strfmt::u64_to_dec(self.expect_item).as_str());
        s.append(",recved=");
        s.append(strfmt::u64_to_dec(self.recv_item).as_str());
        s.append(">");
        s
    }
}

/// Sliding the tail forward by d keeps the window size consistent: the ring
/// distance from head to (tail + d) % capacity grows by d, as long as the
/// grown window still fits.
proof fn lemma_ring_len_shift(head: int, tail: int, d: int, capacity: int)
    requires
        capacity > 0,
        0 <= head < capacity,
        0 <= tail < capacity,
        d >= 0,
        (if head <= tail {
            tail - head + 1
        } else {
            tail + capacity - head + 1
        }) + d <= capacity,
    ensures
        ({
            let nt = (tail + d) % capacity;
            (if head <= nt {
                nt - head + 1
            } else {
                nt + capacity - head + 1
            }) == (if head <= tail {
                tail - head + 1
            } else {
                tail + capacity - head + 1
            }) + d
        }),
{
    let nt = (tail + d) % capacity;
    assert((tail + d) % capacity == if tail + d < capacity {
        tail + d
    } else {
        tail + d - capacity
    }) by (nonlinear_arith)
        requires
            capacity > 0,
            0 <= tail < capacity,
            0 <= d,
            (if head <= tail {
                tail - head + 1
            } else {
                tail + capacity - head + 1
            }) + d <= capacity,
            0 <= head < capacity,
    ;
}

/// Modular ring arithmetic stays inside the ring.
proof fn lemma_ring_index(head: int, tail: int, capacity: int)
    requires
        capacity > 0,
    ensures
        0 <= tail % capacity < capacity,
        0 <= head % capacity < capacity,
{
    assert(0 <= tail % capacity < capacity && 0 <= head % capacity < capacity)
        by (nonlinear_arith)
        requires
            capacity > 0,
            head >= 0 || head < 0,
    ;
}

} // verus!
