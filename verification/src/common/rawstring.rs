//! Byte-level string helpers: hex dumps and ASCII widening.

use vstd::prelude::*;
use vstd::string::*;
use crate::common::errcode;
use crate::common::strfmt::{spec_hex2, u8_to_hex2};

verus! {

/// The hex-dump form of a byte sequence: `0x..` and a space per byte.
pub open spec fn spec_hex_dump(v: Seq<u8>) -> Seq<char>
    decreases v.len(),
{
    if v.len() == 0 {
        Seq::<char>::empty()
    } else {
        spec_hex_dump(v.drop_last()) + seq!['0', 'x'] + spec_hex2(v.last()) + seq![' ']
    }
}

/// Render a byte slice as space-separated `0x..` pairs.
pub fn slice_to_hex_string(v: &[u8]) -> (r: String)
    ensures
        r@ == spec_hex_dump(v@),
{
    proof {
        reveal_strlit("0x");
        reveal_strlit(" ");
    }
    let mut s = String::new();
    let n = v.len();
    let mut i: usize = 0;
    while i < n
        invariant
            i <= n,
            n == v@.len(),
            s@ =~= spec_hex_dump(v@.subrange(0, i as int)),
        decreases n - i,
    {
        s.append("0x");
        s.append(u8_to_hex2(v[i]).as_str());
        s.append(" ");
        proof {
            reveal_strlit("0x");
            reveal_strlit(" ");
            assert(v@.subrange(0, i + 1 as int).drop_last() =~= v@.subrange(0, i as int));
            assert(v@.subrange(0, i + 1 as int).last() == v@[i as int]);
            assert(s@ =~= spec_hex_dump(v@.subrange(0, i + 1 as int)));
        }
        i = i + 1;
    }
    proof {
        assert(v@.subrange(0, n as int) =~= v@);
    }
    s
}

/// Widen an ASCII byte string into 16-bit units, element for element.
/// Refused with `BUFFER_TOO_SMALL` when the destination is shorter.
pub fn ansi_str_to_unicode(ansi_str: &[u8], unicode: &mut [u16]) -> (res: errcode::RESULT)
    ensures
        final(unicode)@.len() == old(unicode)@.len(),
        old(unicode)@.len() < ansi_str@.len() ==> res == errcode::ERROR_BUFFER_TOO_SMALL
            && final(unicode)@ == old(unicode)@,
        old(unicode)@.len() >= ansi_str@.len() ==> res == errcode::RESULT_SUCCESS && (forall|i: int|
            0 <= i < ansi_str@.len() ==> final(unicode)@[i] == ansi_str@[i] as u16) && (forall|
            i: int|
            ansi_str@.len() <= i < old(unicode)@.len() ==> final(unicode)@[i] == old(unicode)@[i]),
{
    if unicode.len() < ansi_str.len() {
        return errcode::ERROR_BUFFER_TOO_SMALL;
    }
    let n = ansi_str.len();
    let mut i: usize = 0;
    while i < n
        invariant
            i <= n,
            n == ansi_str@.len(),
            n <= unicode@.len(),
            unicode@.len() == old(unicode)@.len(),
            forall|j: int| 0 <= j < i ==> unicode@[j] == ansi_str@[j] as u16,
            forall|j: int| i <= j < unicode@.len() ==> unicode@[j] == old(unicode)@[j],
        decreases n - i,
    {
        let b = ansi_str[i] as u16;
        unicode[i] = b;
        i = i + 1;
    }
    errcode::RESULT_SUCCESS
}

} // verus!
