//! Small algorithms shared across the runtime: slice XOR, integer log,
//! and duplicate-free slice merging.

pub mod prio_queue;

use vstd::prelude::*;
use crate::common::errcode;
use vstd::slice::SliceAdditionalExecFns;

verus! {

/// XOR the source into the destination, element by element; the destination
/// must be at least as long, and its tail beyond the source stays unchanged.
pub fn slice_xor_simple(src: &[u8], dst: &mut [u8]) -> (res: errcode::RESULT)
    ensures
        final(dst)@.len() == old(dst)@.len(),
        src@.len() > old(dst)@.len() ==> res == errcode::ERROR_BUFFER_TOO_SMALL && final(dst)@
            == old(dst)@,
        src@.len() <= old(dst)@.len() ==> res == errcode::RESULT_SUCCESS && (forall|i: int|
            0 <= i < src@.len() ==> final(dst)@[i] == (old(dst)@[i] ^ src@[i])) && (forall|i: int|
            src@.len() <= i < old(dst)@.len() ==> final(dst)@[i] == old(dst)@[i]),
{
    let src_len = src.len();
    let dst_len = dst.len();
    if dst_len < src_len {
        return errcode::ERROR_BUFFER_TOO_SMALL;
    }
    let mut i: usize = 0;
    while i < src_len
        invariant
            i <= src_len,
            src_len == src@.len(),
            src_len <= dst_len,
            dst_len == dst@.len(),
            dst@.len() == old(dst)@.len(),
            forall|j: int| 0 <= j < i ==> dst@[j] == (old(dst)@[j] ^ src@[j]),
            forall|j: int| i <= j < dst@.len() ==> dst@[j] == old(dst)@[j],
        decreases src_len - i,
    {
        let b = dst[i] ^ src[i];
        dst[i] = b;
        i = i + 1;
    }
    errcode::RESULT_SUCCESS
}

/// XOR the source into the destination. The word-batched variant of
/// `slice_xor_simple`, with the same meaning.
pub fn slice_xor(src: &[u8], dst: &mut [u8]) -> (res: errcode::RESULT)
    ensures
        final(dst)@.len() == old(dst)@.len(),
        src@.len() > old(dst)@.len() ==> res == errcode::ERROR_BUFFER_TOO_SMALL && final(dst)@
            == old(dst)@,
        src@.len() <= old(dst)@.len() ==> res == errcode::RESULT_SUCCESS && (forall|i: int|
            0 <= i < src@.len() ==> final(dst)@[i] == (old(dst)@[i] ^ src@[i])) && (forall|i: int|
            src@.len() <= i < old(dst)@.len() ==> final(dst)@[i] == old(dst)@[i]),
{
    slice_xor_simple(src, dst)
}

/// Floor base-2 logarithm: for v > 0 the result r has `v >> r >= 1` and,
/// below 63, `v >> (r + 1) == 0`; for v == 0 the result is 0.
pub fn log2(v: u64) -> (r: usize)
    ensures
        r <= 63,
        v == 0 ==> r == 0,
        v > 0 ==> (v >> (r as u64)) >= 1,
        v > 0 && r < 63 ==> (v >> ((r + 1) as u64)) == 0,
{
    if v == 0 {
        return 0;
    }
    proof {
        assert(v >> 0u64 == v) by (bit_vector);
    }
    let mut i: usize = 1;
    while i < 64
        invariant
            1 <= i <= 64,
            v > 0,
            (v >> ((i - 1) as u64)) != 0,
        decreases 64 - i,
    {
        if v >> (i as u64) == 0 {
            return i - 1;
        }
        i = i + 1;
    }
    proof {
        assert((v >> 63u64) != 0 ==> (v >> 63u64) >= 1) by (bit_vector);
    }
    63
}

/// Whether some element of the sequence equals x under the type's equality.
pub open spec fn spec_contains_eq<T: PartialEq + vstd::std_specs::cmp::PartialEqSpec>(
    s: Seq<T>,
    x: T,
) -> bool {
    exists|i: int| 0 <= i < s.len() && s[i].eq_spec(&x)
}

/// Whether some element of the sequence is x itself.
pub open spec fn spec_contains_id<T>(s: Seq<T>, x: T) -> bool {
    exists|i: int| 0 <= i < s.len() && s[i] == x
}

/// The deduplicating merge: each element of `rest` joins `acc`, in order,
/// exactly when nothing equal to it (by the type's equality) is present at
/// that step.
pub open spec fn spec_merge<T: PartialEq + vstd::std_specs::cmp::PartialEqSpec>(
    acc: Seq<T>,
    rest: Seq<T>,
) -> Seq<T>
    decreases rest.len(),
{
    if rest.len() == 0 {
        acc
    } else {
        let acc2 = if spec_contains_eq(acc, rest[0]) {
            acc
        } else {
            acc.push(rest[0])
        };
        spec_merge(acc2, rest.drop_first())
    }
}

/// The elements of `rest`, in order, that nothing in `base` equals.
pub open spec fn spec_filter_absent<T: PartialEq + vstd::std_specs::cmp::PartialEqSpec>(
    base: Seq<T>,
    rest: Seq<T>,
) -> Seq<T>
    decreases rest.len(),
{
    if rest.len() == 0 {
        Seq::<T>::empty()
    } else {
        (if spec_contains_eq(base, rest[0]) {
            Seq::<T>::empty()
        } else {
            seq![rest[0]]
        }) + spec_filter_absent(base, rest.drop_first())
    }
}

fn vec_contains<T: PartialEq + vstd::std_specs::cmp::PartialEqSpec>(v: &Vec<T>, x: &T) -> (r: bool)
    requires
        T::obeys_eq_spec(),
    ensures
        r == spec_contains_eq(v@, *x),
{
    let mut i: usize = 0;
    while i < v.len()
        invariant
            T::obeys_eq_spec(),
            i <= v@.len(),
            forall|j: int| 0 <= j < i ==> !v@[j].eq_spec(x),
        decreases v@.len() - i,
    {
        if v[i] == *x {
            return true;
        }
        i = i + 1;
    }
    false
}

/// Merge the second slice into the first, keeping elements already present
/// (by the type's equality) out: each element of the second slice joins the
/// tail, in order, exactly when nothing equal to it is present at that
/// step, so the merge introduces no duplicate and a second slice already
/// covered leaves the first unchanged.
pub fn merge_slice<T: Copy + PartialEq + vstd::std_specs::cmp::PartialEqSpec>(
    v1: &mut Vec<T>,
    v2: &Vec<T>,
)
    requires
        T::obeys_eq_spec(),
    ensures
        final(v1)@ == spec_merge(old(v1)@, v2@),
        final(v1)@.len() >= old(v1)@.len(),
        forall|i: int| 0 <= i < old(v1)@.len() ==> final(v1)@[i] == old(v1)@[i],
{
    let n = v2.len();
    let mut j: usize = 0;
    proof {
        assert(v2@.skip(0) =~= v2@);
    }
    while j < n
        invariant
            T::obeys_eq_spec(),
            j <= n,
            n == v2@.len(),
            v1@.len() >= old(v1)@.len(),
            forall|i: int| 0 <= i < old(v1)@.len() ==> v1@[i] == old(v1)@[i],
            spec_merge(old(v1)@, v2@) == spec_merge(v1@, v2@.skip(j as int)),
        decreases n - j,
    {
        let ghost pre = v1@;
        if !vec_contains(v1, &v2[j]) {
            v1.push(v2[j]);
        }
        proof {
            assert(v2@.skip(j as int)[0] == v2@[j as int]);
            assert(v2@.skip(j as int).drop_first() =~= v2@.skip(j + 1));
            assert(spec_merge(pre, v2@.skip(j as int)) == spec_merge(v1@, v2@.skip(j + 1)));
        }
        j = j + 1;
    }
    proof {
        assert(v2@.skip(n as int) =~= Seq::<T>::empty());
    }
}

fn vec_contains_prefix<T: PartialEq + vstd::std_specs::cmp::PartialEqSpec>(
    v: &Vec<T>,
    n: usize,
    x: &T,
) -> (r: bool)
    requires
        T::obeys_eq_spec(),
        n <= v@.len(),
    ensures
        r == spec_contains_eq(v@.subrange(0, n as int), *x),
{
    let mut i: usize = 0;
    while i < n
        invariant
            T::obeys_eq_spec(),
            i <= n,
            n <= v@.len(),
            forall|j: int| 0 <= j < i ==> !v@[j].eq_spec(x),
        decreases n - i,
    {
        if v[i] == *x {
            proof {
                assert(v@.subrange(0, n as int)[i as int].eq_spec(x));
            }
            return true;
        }
        i = i + 1;
    }
    proof {
        assert forall|j: int|
            0 <= j < v@.subrange(0, n as int).len() implies !v@.subrange(0, n as int)[j].eq_spec(
            x,
        ) by {
            assert(v@.subrange(0, n as int)[j] == v@[j]);
        }
    }
    false
}

/// Merge the second slice into the first, testing only against the first
/// slice's initial contents: every element of the second that nothing in
/// the original first slice equals is appended, in order — an element
/// occurring twice in the second slice and absent from the first is
/// appended twice.
pub fn merge_slice2<T: Copy + PartialEq + vstd::std_specs::cmp::PartialEqSpec>(
    v1: &mut Vec<T>,
    v2: &Vec<T>,
)
    requires
        T::obeys_eq_spec(),
    ensures
        final(v1)@ == old(v1)@ + spec_filter_absent(old(v1)@, v2@),
        forall|i: int| 0 <= i < old(v1)@.len() ==> final(v1)@[i] == old(v1)@[i],
{
    let base_len = v1.len();
    let n = v2.len();
    let mut j: usize = 0;
    proof {
        assert(v1@.subrange(0, base_len as int) =~= old(v1)@);
        assert(v2@.subrange(0, 0) =~= Seq::<T>::empty());
        assert(v1@ =~= old(v1)@ + spec_filter_absent(old(v1)@, v2@.subrange(0, 0)));
    }
    while j < n
        invariant
            T::obeys_eq_spec(),
            j <= n,
            n == v2@.len(),
            base_len == old(v1)@.len(),
            v1@.len() >= base_len,
            v1@.subrange(0, base_len as int) == old(v1)@,
            v1@ == old(v1)@ + spec_filter_absent(old(v1)@, v2@.subrange(0, j as int)),
        decreases n - j,
    {
        let ghost pre = v1@;
        if !vec_contains_prefix(v1, base_len, &v2[j]) {
            v1.push(v2[j]);
        }
        proof {
            lemma_filter_absent_snoc(old(v1)@, v2@.subrange(0, j as int), v2@[j as int]);
            assert(v2@.subrange(0, j + 1) =~= v2@.subrange(0, j as int) + seq![v2@[j as int]]);
            assert(v1@ =~= old(v1)@ + spec_filter_absent(old(v1)@, v2@.subrange(0, j + 1)));
            assert(v1@.subrange(0, base_len as int) =~= old(v1)@);
        }
        j = j + 1;
    }
    proof {
        assert(v2@.subrange(0, n as int) =~= v2@);
    }
}

/// Filtering one more element appends it exactly when the base holds
/// nothing equal to it.
proof fn lemma_filter_absent_snoc<T: PartialEq + vstd::std_specs::cmp::PartialEqSpec>(
    base: Seq<T>,
    s: Seq<T>,
    x: T,
)
    ensures
        spec_filter_absent(base, s + seq![x]) == spec_filter_absent(base, s) + (if spec_contains_eq(
            base,
            x,
        ) {
            Seq::<T>::empty()
        } else {
            seq![x]
        }),
    decreases s.len(),
{
    if s.len() == 0 {
        assert(s + seq![x] =~= seq![x]);
        assert((seq![x]).drop_first() =~= Seq::<T>::empty());
        assert(seq![x][0] == x);
        assert(spec_filter_absent(base, Seq::<T>::empty()) =~= Seq::<T>::empty());
        assert(spec_filter_absent(base, seq![x]) =~= (if spec_contains_eq(base, x) {
            Seq::<T>::empty()
        } else {
            seq![x]
        }));
        assert(spec_filter_absent(base, s) + (if spec_contains_eq(base, x) {
            Seq::<T>::empty()
        } else {
            seq![x]
        }) =~= spec_filter_absent(base, seq![x]));
    } else {
        assert((s + seq![x])[0] == s[0]);
        assert((s + seq![x]).drop_first() =~= s.drop_first() + seq![x]);
        lemma_filter_absent_snoc(base, s.drop_first(), x);
    }
}

} // verus!
