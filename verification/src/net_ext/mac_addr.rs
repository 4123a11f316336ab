//! Ethernet MAC addresses as six plain bytes, with parsing and rendering.

use vstd::prelude::*;
use vstd::string::*;
use crate::common::strfmt::{spec_hex2, u8_to_hex2, spec_digit};
use crate::net_ext::MAC_ADDR_SIZE;

verus! {

pub const MULTICAST_BIT: u8 = 0x01;

#[derive(Copy, Clone, Eq, PartialEq, Structural, Debug, Hash)]
pub struct mac_addr_t {
    pub a: u8,
    pub b: u8,
    pub c: u8,
    pub d: u8,
    pub e: u8,
    pub f: u8,
}

/// The address as one 48-bit number.
pub open spec fn spec_mac_u64(m: mac_addr_t) -> int {
    m.a * 0x10000000000 + m.b * 0x100000000 + m.c * 0x1000000 + m.d * 0x10000 + m.e * 0x100 + m.f
}

impl mac_addr_t {
    pub fn new(a: u8, b: u8, c: u8, d: u8, e: u8, f: u8) -> (r: mac_addr_t)
        ensures
            r == (mac_addr_t { a, b, c, d, e, f }),
    {
        mac_addr_t { a, b, c, d, e, f }
    }

    /// The all-ones broadcast address.
    pub fn new_broadcast() -> (r: mac_addr_t)
        ensures
            r == (mac_addr_t { a: 0xff, b: 0xff, c: 0xff, d: 0xff, e: 0xff, f: 0xff }),
    {
        Self::new(0xff, 0xff, 0xff, 0xff, 0xff, 0xff)
    }

    /// The all-zero address.
    pub fn zero() -> (r: mac_addr_t)
        ensures
            r == (mac_addr_t { a: 0, b: 0, c: 0, d: 0, e: 0, f: 0 }),
    {
        Self::new(0, 0, 0, 0, 0, 0)
    }

    pub fn from_array(addr: &[u8; 6]) -> (r: mac_addr_t)
        ensures
            r.a == addr@[0] && r.b == addr@[1] && r.c == addr@[2] && r.d == addr@[3] && r.e
                == addr@[4] && r.f == addr@[5],
    {
        mac_addr_t {
            a: addr[0],
            b: addr[1],
            c: addr[2],
            d: addr[3],
            e: addr[4],
            f: addr[5],
        }
    }

    /// The address in a slice's first six bytes; all-zero when it is short.
    pub fn from_slice(addr: &[u8]) -> (r: mac_addr_t)
        ensures
            addr@.len() < MAC_ADDR_SIZE ==> r == (mac_addr_t {
                a: 0,
                b: 0,
                c: 0,
                d: 0,
                e: 0,
                f: 0,
            }),
            addr@.len() >= MAC_ADDR_SIZE ==> r.a == addr@[0] && r.b == addr@[1] && r.c == addr@[2]
                && r.d == addr@[3] && r.e == addr@[4] && r.f == addr@[5],
    {
        if addr.len() < MAC_ADDR_SIZE {
            return Self::new(0, 0, 0, 0, 0, 0);
        }
        mac_addr_t {
            a: addr[0],
            b: addr[1],
            c: addr[2],
            d: addr[3],
            e: addr[4],
            f: addr[5],
        }
    }

    /// Whether every byte is zero.
    pub fn is_zero(&self) -> (r: bool)
        ensures
            r == (self.a == 0 && self.b == 0 && self.c == 0 && self.d == 0 && self.e == 0 && self.f
                == 0),
    {
        self.to_u64() == 0
    }

    /// The address whose 48-bit value is the low bits of the given number.
    pub fn from_u64(addr: u64) -> (r: mac_addr_t)
        ensures
            r.a == ((addr >> 40u64) & 0xff) as u8,
            r.b == ((addr >> 32u64) & 0xff) as u8,
            r.c == ((addr >> 24u64) & 0xff) as u8,
            r.d == ((addr >> 16u64) & 0xff) as u8,
            r.e == ((addr >> 8u64) & 0xff) as u8,
            r.f == (addr & 0xff) as u8,
    {
        mac_addr_t {
            a: ((addr >> 40) & 0xff) as u8,
            b: ((addr >> 32) & 0xff) as u8,
            c: ((addr >> 24) & 0xff) as u8,
            d: ((addr >> 16) & 0xff) as u8,
            e: ((addr >> 8) & 0xff) as u8,
            f: (addr & 0xff) as u8,
        }
    }

    /// The address as one 48-bit number.
    pub fn to_u64(&self) -> (r: u64)
        ensures
            r == spec_mac_u64(*self),
    {
        (self.a as u64) * 0x10000000000 + (self.b as u64) * 0x100000000 + (self.c as u64)
            * 0x1000000 + (self.d as u64) * 0x10000 + (self.e as u64) * 0x100 + (self.f as u64)
    }

    /// Whether this is the broadcast address.
    pub fn is_broadcast(&self) -> (r: bool)
        ensures
            r == (*self == (mac_addr_t { a: 0xff, b: 0xff, c: 0xff, d: 0xff, e: 0xff, f: 0xff })),
    {
        *self == Self::new_broadcast()
    }

    /// Whether the multicast bit of the first byte is set.
    pub fn is_multicast(&self) -> (r: bool)
        ensures
            r == (self.a & MULTICAST_BIT == MULTICAST_BIT),
    {
        self.a & MULTICAST_BIT == MULTICAST_BIT
    }

    /// Parse a colon-separated hex address; a group that does not parse
    /// reads as zero, and fewer than six groups yield nothing.
    pub fn from_string(mac_str: &String) -> (r: Option<Self>) {
        let bytes = mac_str.as_str().as_bytes();
        let mut parts: Vec<u8> = Vec::new();
        let mut cur: u16 = 0;
        let mut cur_len: usize = 0;
        let mut bad = false;
        let n = bytes.len();
        let mut i: usize = 0;
        while i < n
            invariant
                i <= n,
                n == bytes@.len(),
                cur < 256,
            decreases n - i,
        {
            let ch = bytes[i];
            if ch == 58 {
                parts.push(if bad || cur_len == 0 {
                    0
                } else {
                    cur as u8
                });
                cur = 0;
                cur_len = 0;
                bad = false;
            } else {
                let d: u16 = if 48 <= ch && ch <= 57 {
                    (ch - 48) as u16
                } else if 97 <= ch && ch <= 102 {
                    (ch - 87) as u16
                } else if 65 <= ch && ch <= 70 {
                    (ch - 55) as u16
                } else {
                    bad = true;
                    0
                };
                if cur_len >= 2 {
                    bad = true;
                } else {
                    cur = (cur * 16 + d) % 256;
                    cur_len = cur_len + 1;
                }
            }
            i = i + 1;
        }
        parts.push(if bad || cur_len == 0 {
            0
        } else {
            cur as u8
        });
        if parts.len() < 6 {
            return None;
        }
        Some(
            mac_addr_t {
                a: parts[0],
                b: parts[1],
                c: parts[2],
                d: parts[3],
                e: parts[4],
                f: parts[5],
            },
        )
    }

    /// The colon-separated lower-case hex rendering.
    pub fn to_string(&self) -> (r: String)
        ensures
            r@ == spec_hex2(self.a) + seq![':'] + spec_hex2(self.b) + seq![':'] + spec_hex2(self.c)
                + seq![':'] + spec_hex2(self.d) + seq![':'] + spec_hex2(self.e) + seq![':']
                + spec_hex2(self.f),
    {
        proof {
            reveal_strlit(":");
        }
        let mut s = u8_to_hex2(self.a);
        s.append(":");
        s.append(u8_to_hex2(self.b).as_str());
        s.append(":");
        s.append(u8_to_hex2(self.c).as_str());
        s.append(":");
        s.append(u8_to_hex2(self.d).as_str());
        s.append(":");
        s.append(u8_to_hex2(self.e).as_str());
        s.append(":");
        s.append(u8_to_hex2(self.f).as_str());
        proof {
            assert(s@ =~= spec_hex2(self.a) + seq![':'] + spec_hex2(self.b) + seq![':']
                + spec_hex2(self.c) + seq![':'] + spec_hex2(self.d) + seq![':'] + spec_hex2(self.e)
                + seq![':'] + spec_hex2(self.f));
        }
        s
    }
}

} // verus!
