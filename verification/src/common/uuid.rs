//! 128-bit identifiers, stored big-endian and rendered in the canonical
//! grouped-hex form.

use vstd::prelude::*;
use vstd::string::*;
use crate::common::strfmt::{spec_hex2, u8_to_hex2};

verus! {

/// The big-endian bytes of a 128-bit value: byte i holds bits from the top.
pub open spec fn spec_u128_be_byte(v: u128, i: int) -> u8 {
    (v >> ((15 - i) * 8)) as u8
}

/// The 128-bit value the first k big-endian bytes fold to.
pub open spec fn spec_u128_from_be(b: Seq<u8>, k: int) -> u128
    decreases k,
{
    if k <= 0 {
        0
    } else {
        (spec_u128_from_be(b, k - 1) << 8) | (b[k - 1] as u128)
    }
}

#[derive(Debug, Clone, Copy)]
pub struct uuid_t(pub [u8; 16]);

impl uuid_t {
    /// Relies on rand::random: a fresh 128-bit value from the thread RNG;
    /// nothing can be promised of it. The thread RNG aborts its first use
    /// when the machine can provide no entropy, an environmental failure of
    /// the out-of-memory kind.
    #[verifier::external_body]
    pub fn new() -> Self {
        let v = rand::random::<u128>().to_be_bytes();
        Self(v)
    }

    /// The identifier with these 128 bits, stored big-endian.
    pub fn from_u128(v: u128) -> (r: Self)
        ensures
            forall|i: int| 0 <= i < 16 ==> r.0@[i] == spec_u128_be_byte(v, i),
    {
        let mut b: [u8; 16] = [0u8; 16];
        let mut i: usize = 0;
        while i < 16
            invariant
                i <= 16,
                b@.len() == 16,
                forall|j: int| 0 <= j < i ==> b@[j] == spec_u128_be_byte(v, j),
            decreases 16 - i,
        {
            let sh: u128 = ((15 - i) as u128) * 8;
            let by = (v >> sh) as u8;
            b[i] = by;
            i = i + 1;
        }
        Self(b)
    }

    /// The identifier whose top and bottom halves are the given words.
    pub fn from_u64(high: u64, low: u64) -> (r: Self)
        ensures
            forall|i: int|
                0 <= i < 16 ==> r.0@[i] == spec_u128_be_byte(
                    ((high as u128) << 64u128) | (low as u128),
                    i,
                ),
    {
        let v = ((high as u128) << 64) | (low as u128);
        Self::from_u128(v)
    }

    /// The bytes read back as one 128-bit big-endian value.
    pub fn as_u128(&self) -> (r: u128)
        ensures
            r == spec_u128_from_be(self.0@, 16),
    {
        let mut v: u128 = 0;
        let mut i: usize = 0;
        while i < 16
            invariant
                i <= 16,
                self.0@.len() == 16,
                v == spec_u128_from_be(self.0@, i as int),
            decreases 16 - i,
        {
            v = (v << 8) | (self.0[i] as u128);
            i = i + 1;
        }
        v
    }

    /// The canonical grouped-hex rendering of the identifier.
    pub fn fromat(&self) -> (r: String)
        ensures
            r@.len() == 36,
    {
        proof {
            reveal_strlit("-");
        }
        let mut s = String::new();
        let mut i: usize = 0;
        while i < 16
            invariant
                i <= 16,
                self.0@.len() == 16,
                s@.len() == 2 * i + (if i > 9 {
                    4int
                } else if i > 7 {
                    3int
                } else if i > 5 {
                    2int
                } else if i > 3 {
                    1int
                } else {
                    0int
                }),
            decreases 16 - i,
        {
            s.append(u8_to_hex2(self.0[i]).as_str());
            if i == 3 || i == 5 || i == 7 || i == 9 {
                s.append("-");
            }
            proof {
                reveal_strlit("-");
            }
            i = i + 1;
        }
        s
    }
}

impl Default for uuid_t {
    fn default() -> (r: Self)
        ensures
            forall|i: int| 0 <= i < 16 ==> r.0@[i] == 0u8,
    {
        Self([0u8; 16])
    }
}

} // verus!
