//! Fixed-capacity bitmap over 64-bit words, used by the ID allocator to track
//! which identifiers are in use.

use vstd::prelude::*;
use crate::common::errcode;
use crate::common::strfmt;
use vstd::string::*;

verus! {

/// True when bit k of word w is set (k < 64).
pub open spec fn nth_bit(w: u64, k: u64) -> bool {
    (w >> k) & 1 == 1
}

/// Number of true entries of a boolean sequence.
pub open spec fn count_true(s: Seq<bool>) -> nat
    decreases s.len(),
{
    if s.len() == 0 {
        0
    } else {
        count_true(s.drop_last()) + if s.last() {
            1nat
        } else {
            0nat
        }
    }
}

pub proof fn lemma_count_true_le(s: Seq<bool>)
    ensures
        count_true(s) <= s.len(),
    decreases s.len(),
{
    if s.len() > 0 {
        lemma_count_true_le(s.drop_last());
    }
}

pub proof fn lemma_count_update(s: Seq<bool>, i: int, b: bool)
    requires
        0 <= i < s.len(),
    ensures
        count_true(s.update(i, b)) == count_true(s) - (if s[i] {
            1int
        } else {
            0int
        }) + (if b {
            1int
        } else {
            0int
        }),
    decreases s.len(),
{
    if i == s.len() - 1 {
        assert(s.update(i, b).drop_last() =~= s.drop_last());
    } else {
        assert(s.update(i, b).drop_last() =~= s.drop_last().update(i, b));
        lemma_count_update(s.drop_last(), i, b);
    }
}

pub proof fn lemma_count_all_false(s: Seq<bool>)
    requires
        forall|i: int| 0 <= i < s.len() ==> !s[i],
    ensures
        count_true(s) == 0,
    decreases s.len(),
{
    if s.len() > 0 {
        lemma_count_all_false(s.drop_last());
    }
}

proof fn lemma_or_bit(w: u64, off: u64)
    requires
        off < 64,
    ensures
        nth_bit(w | (1u64 << off), off),
        forall|k: u64| k < 64 && k != off ==> nth_bit(w | (1u64 << off), k) == nth_bit(w, k),
{
    assert(((w | (1u64 << off)) >> off) & 1 == 1) by (bit_vector)
        requires
            off < 64,
    ;
    assert(forall|k: u64, w2: u64, o2: u64|
        k < 64 && o2 < 64 && k != o2 ==> ((w2 | (1u64 << o2)) >> k) & 1 == (w2 >> k) & 1)
        by (bit_vector);
}

proof fn lemma_and_not_bit(w: u64, off: u64)
    requires
        off < 64,
    ensures
        !nth_bit(w & !(1u64 << off), off),
        forall|k: u64| k < 64 && k != off ==> nth_bit(w & !(1u64 << off), k) == nth_bit(w, k),
{
    assert(((w & !(1u64 << off)) >> off) & 1 != 1) by (bit_vector)
        requires
            off < 64,
    ;
    assert(forall|k: u64, w2: u64, o2: u64|
        k < 64 && o2 < 64 && k != o2 ==> ((w2 & !(1u64 << o2)) >> k) & 1 == (w2 >> k) & 1)
        by (bit_vector);
}

proof fn lemma_test_bit(w: u64, off: u64)
    requires
        off < 64,
    ensures
        (w & (1u64 << off) != 0) == nth_bit(w, off),
{
    assert((w & (1u64 << off) != 0) == ((w >> off) & 1 == 1)) by (bit_vector)
        requires
            off < 64,
    ;
}

/// Bitmap with a fixed number of addressable bits and a running count of the
/// bits that are set.
pub struct bitmap_t {
    pub bit_string: Vec<u64>,
    pub capacity: usize,
    pub used_count: usize,
    pub u64_count: usize,
}

impl bitmap_t {
    /// The bits, one boolean per addressable index.
    pub open spec fn view(&self) -> Seq<bool> {
        Seq::new(
            self.capacity as nat,
            |i: int| nth_bit(self.bit_string@[i / 64], (i % 64) as u64),
        )
    }

    /// Internal consistency: enough words for the capacity, and the running
    /// count equals the number of set bits.
    pub open spec fn wf(&self) -> bool {
        &&& self.bit_string@.len() == self.u64_count
        &&& self.capacity <= self.u64_count * 64
        &&& self.used_count == count_true(self.view())
    }

    pub open spec fn spec_capacity(&self) -> nat {
        self.capacity as nat
    }

    /// A bitmap of the given number of bits, all clear.
    pub fn new(bits: i32) -> (r: Self)
        requires
            bits >= 0,
        ensures
            r.wf(),
            r@.len() == bits,
            forall|i: int| 0 <= i < bits ==> !(r@[i]),
            r.spec_capacity() == bits,
    {
        let u64_num = crate::common::ceiling(bits as u64, 64) as usize;
        let mut v: Vec<u64> = Vec::new();
        let mut i: usize = 0;
        while i < u64_num
            invariant
                v@.len() == i,
                i <= u64_num,
                forall|j: int| 0 <= j < i ==> v@[j] == 0u64,
            decreases u64_num - i,
        {
            v.push(0);
            i = i + 1;
        }
        let r = Self { bit_string: v, capacity: bits as usize, used_count: 0, u64_count: u64_num };
        proof {
            assert(r.capacity <= r.u64_count * 64) by (nonlinear_arith)
                requires
                    r.u64_count == (bits as int + 63) / 64,
                    r.capacity == bits,
                    bits >= 0,
            ;
            assert(forall|k: u64| k < 64 ==> !nth_bit(0u64, k)) by (bit_vector);
            assert(forall|i2: int| 0 <= i2 < bits ==> !(r@[i2]));
            lemma_count_all_false(r@);
        }
        r
    }

    /// The word holding a bit index and the mask that selects it.
    pub fn get_u64_by_index(&self, idx: usize) -> (r: (u64, u64))
        requires
            self.wf(),
            idx < self.spec_capacity(),
        ensures
            r.0 == self.bit_string@[idx as int / 64],
            r.1 == 1u64 << (idx as u64 % 64),
    {
        let u64_idx = idx / 64;
        proof {
            assert(idx as int / 64 * 64 <= (idx as int) && (idx as int) < self.u64_count * 64) by (nonlinear_arith)
                requires
                    idx < self.capacity,
                    self.capacity <= self.u64_count * 64,
            ;
            assert(idx as int / 64 < self.u64_count) by (nonlinear_arith)
                requires
                    idx as int / 64 * 64 <= (idx as int) && (idx as int) < self.u64_count * 64,
            ;
        }
        let word = self.bit_string[u64_idx];
        let bit_offset = (idx % 64) as u64;
        (word, 1u64 << bit_offset)
    }

    /// Set one bit. Rejects an index outside the capacity with `OUT_OF_MEM`
    /// and an already-set bit with `ALREADY_EXIST`; otherwise the bit becomes
    /// set and the used count grows by one.
    pub fn set_bitmap(&mut self, idx: i32) -> (res: errcode::RESULT)
        requires
            old(self).wf(),
        ensures
            final(self).wf(),
            final(self)@.len() == old(self)@.len(),
            final(self).spec_capacity() == old(self).spec_capacity(),
            idx < 0 || idx >= old(self)@.len() ==> res == errcode::ERROR_OUTOF_MEM && *final(self)
                == *old(self),
            0 <= idx < old(self)@.len() && old(self)@[idx as int] ==> res
                == errcode::ERROR_ALREADY_EXIST && *final(self) == *old(self),
            0 <= idx < old(self)@.len() && !old(self)@[idx as int] ==> res
                == errcode::RESULT_SUCCESS && final(self)@ == old(self)@.update(idx as int, true)
                && final(self).used_count == old(self).used_count + 1,
    {
        if idx < 0 || idx as usize >= self.capacity {
            return errcode::ERROR_OUTOF_MEM;
        }
        let i = idx as usize;
        let u64_idx = i / 64;
        proof {
            assert(i as int / 64 * 64 <= (i as int) && (i as int) < self.u64_count * 64) by (nonlinear_arith)
                requires
                    i < self.capacity,
                    self.capacity <= self.u64_count * 64,
            ;
            assert(i as int / 64 < self.u64_count) by (nonlinear_arith)
                requires
                    i as int / 64 * 64 <= (i as int) && (i as int) < self.u64_count * 64,
            ;
        }
        let off = (i % 64) as u64;
        let word = self.bit_string[u64_idx];
        proof {
            lemma_test_bit(word, off);
        }
        if word & (1u64 << off) != 0 {
            return errcode::ERROR_ALREADY_EXIST;
        }
        let new_word = word | (1u64 << off);
        self.bit_string.set(u64_idx, new_word);
        proof {
            lemma_or_bit(word, off);
            lemma_count_true_le(old(self)@.update(i as int, true));
            lemma_count_update(old(self)@, i as int, true);
            assert(self@ =~= old(self)@.update(i as int, true)) by {
                assert forall|j: int| 0 <= j < self@.len() implies self@[j] == old(self)@.update(
                    i as int,
                    true,
                )[j] by {
                    assert(j / 64 * 64 <= j < self.u64_count * 64) by (nonlinear_arith)
                        requires
                            0 <= j < self.capacity,
                            self.capacity <= self.u64_count * 64,
                    ;
                    if j != i as int && j / 64 == i as int / 64 {
                        assert(j % 64 != i as int % 64) by (nonlinear_arith)
                            requires
                                j != i as int,
                                j / 64 == i as int / 64,
                        ;
                    }
                }
            }
        }
        self.used_count = self.used_count + 1;
        errcode::RESULT_SUCCESS
    }

    /// Clear one bit. Rejects an index outside the capacity with `OUT_OF_MEM`
    /// and an already-clear bit with `NOT_FOUND`; otherwise the bit becomes
    /// clear and the used count shrinks by one.
    pub fn unset_bitmap(&mut self, idx: i32) -> (res: errcode::RESULT)
        requires
            old(self).wf(),
        ensures
            final(self).wf(),
            final(self)@.len() == old(self)@.len(),
            final(self).spec_capacity() == old(self).spec_capacity(),
            idx < 0 || idx >= old(self)@.len() ==> res == errcode::ERROR_OUTOF_MEM && *final(self)
                == *old(self),
            0 <= idx < old(self)@.len() && !old(self)@[idx as int] ==> res
                == errcode::ERROR_NOT_FOUND && *final(self) == *old(self),
            0 <= idx < old(self)@.len() && old(self)@[idx as int] ==> res
                == errcode::RESULT_SUCCESS && final(self)@ == old(self)@.update(idx as int, false)
                && final(self).used_count == old(self).used_count - 1,
    {
        if idx < 0 || idx as usize >= self.capacity {
            return errcode::ERROR_OUTOF_MEM;
        }
        let i = idx as usize;
        let u64_idx = i / 64;
        proof {
            assert(i as int / 64 * 64 <= (i as int) && (i as int) < self.u64_count * 64) by (nonlinear_arith)
                requires
                    i < self.capacity,
                    self.capacity <= self.u64_count * 64,
            ;
            assert(i as int / 64 < self.u64_count) by (nonlinear_arith)
                requires
                    i as int / 64 * 64 <= (i as int) && (i as int) < self.u64_count * 64,
            ;
        }
        let off = (i % 64) as u64;
        let word = self.bit_string[u64_idx];
        proof {
            lemma_test_bit(word, off);
        }
        if word & (1u64 << off) == 0 {
            return errcode::ERROR_NOT_FOUND;
        }
        let new_word = word & !(1u64 << off);
        self.bit_string.set(u64_idx, new_word);
        proof {
            lemma_and_not_bit(word, off);
            lemma_count_update(old(self)@, i as int, false);
            assert(self@ =~= old(self)@.update(i as int, false)) by {
                assert forall|j: int| 0 <= j < self@.len() implies self@[j] == old(self)@.update(
                    i as int,
                    false,
                )[j] by {
                    assert(j / 64 * 64 <= j < self.u64_count * 64) by (nonlinear_arith)
                        requires
                            0 <= j < self.capacity,
                            self.capacity <= self.u64_count * 64,
                    ;
                    if j != i as int && j / 64 == i as int / 64 {
                        assert(j % 64 != i as int % 64) by (nonlinear_arith)
                            requires
                                j != i as int,
                                j / 64 == i as int / 64,
                        ;
                    }
                }
            }
        }
        self.used_count = self.used_count - 1;
        errcode::RESULT_SUCCESS
    }

    /// Clear every bit and reset the used count.
    pub fn clear_bitmap(&mut self) -> (res: errcode::RESULT)
        requires
            old(self).wf(),
        ensures
            final(self).wf(),
            res == errcode::RESULT_SUCCESS,
            final(self)@.len() == old(self)@.len(),
            final(self).spec_capacity() == old(self).spec_capacity(),
            forall|i: int| 0 <= i < final(self)@.len() ==> !(final(self)@[i]),
            final(self).used_count == 0,
    {
        let n = self.bit_string.len();
        let mut i: usize = 0;
        while i < n
            invariant
                i <= n,
                self.bit_string@.len() == n,
                self.capacity == old(self).capacity,
                self.u64_count == old(self).u64_count,
                self.used_count == old(self).used_count,
                n == self.u64_count,
                forall|j: int| 0 <= j < i ==> self.bit_string@[j] == 0u64,
            decreases n - i,
        {
            self.bit_string.set(i, 0);
            i = i + 1;
        }
        self.used_count = 0;
        proof {
            assert(forall|k: u64| k < 64 ==> !nth_bit(0u64, k)) by (bit_vector);
            assert forall|j: int| 0 <= j < self@.len() implies !(self@[j]) by {
                assert(j / 64 * 64 <= j < self.u64_count * 64) by (nonlinear_arith)
                    requires
                        0 <= j < self.capacity,
                        self.capacity <= self.u64_count * 64,
                ;
            }
            lemma_count_all_false(self@);
        }
        errcode::RESULT_SUCCESS
    }

    /// Whether one bit is set; an index outside the capacity reads as clear.
    pub fn is_bit_set(&mut self, idx: i32) -> (r: bool)
        requires
            old(self).wf(),
        ensures
            *final(self) == *old(self),
            r == (0 <= idx < old(self)@.len() && old(self)@[idx as int]),
    {
        if idx < 0 || idx as usize >= self.capacity {
            return false;
        }
        let i = idx as usize;
        let u64_idx = i / 64;
        proof {
            assert(i as int / 64 * 64 <= (i as int) && (i as int) < self.u64_count * 64) by (nonlinear_arith)
                requires
                    i < self.capacity,
                    self.capacity <= self.u64_count * 64,
            ;
            assert(i as int / 64 < self.u64_count) by (nonlinear_arith)
                requires
                    i as int / 64 * 64 <= (i as int) && (i as int) < self.u64_count * 64,
            ;
        }
        let off = (i % 64) as u64;
        let word = self.bit_string[u64_idx];
        proof {
            lemma_test_bit(word, off);
        }
        word & (1u64 << off) != 0
    }

    /// How many bits are currently set.
    pub fn get_used_count(&self) -> (r: usize)
        requires
            self.wf(),
        ensures
            r == count_true(self@),
    {
        self.used_count
    }

    /// Human-readable summary of capacity, used count and word count.
    pub fn to_string(&self) -> (r: String)
        ensures
            r@.len() > 0,
    {
        proof {
            reveal_strlit("bitmap capacity=");
            reveal_strlit(",used_count=");
            reveal_strlit(",u64_count=");
        }
        let mut s = "bitmap capacity=".to_owned();
        s.append(strfmt::u64_to_dec(self.capacity as u64).as_str());
        s.append(",used_count=");
        s.append(strfmt::u64_to_dec(self.used_count as u64).as_str());
        s.append(",u64_count=");
        s.append(strfmt::u64_to_dec(self.u64_count as u64).as_str());
        s
    }
}

} // verus!
