//! The envelope's body codec: a small self-describing, reversible encoding
//! of the values a message body can carry. Decoding the encoding of a value
//! gives the value back; decoding bytes of another shape yields `None` and
//! never fails the task.

use vstd::prelude::*;
use vstd::bytes::*;

verus! {

/// Tag bytes, one per supported shape.
pub const TAG_BOOL: u8 = 1;
pub const TAG_U32: u8 = 2;
pub const TAG_U64: u8 = 3;
pub const TAG_I64: u8 = 4;
pub const TAG_BYTES: u8 = 5;

/// A value the envelope can carry as its opaque body.
#[derive(Clone, Debug)]
pub enum rsm_value_t {
    Bool(bool),
    U32(u32),
    U64(u64),
    I64(i64),
    Bytes(Vec<u8>),
}

impl rsm_value_t {
    /// Equality of carried values, bytes compared by content.
    pub open spec fn value_eq(self, other: Self) -> bool {
        match (self, other) {
            (rsm_value_t::Bool(a), rsm_value_t::Bool(b)) => a == b,
            (rsm_value_t::U32(a), rsm_value_t::U32(b)) => a == b,
            (rsm_value_t::U64(a), rsm_value_t::U64(b)) => a == b,
            (rsm_value_t::I64(a), rsm_value_t::I64(b)) => a == b,
            (rsm_value_t::Bytes(a), rsm_value_t::Bytes(b)) => a@ == b@,
            _ => false,
        }
    }
}

/// The encoding: one tag byte, then a fixed-width or length-prefixed payload.
pub open spec fn spec_encode_value(v: rsm_value_t) -> Seq<u8> {
    match v {
        rsm_value_t::Bool(b) => seq![TAG_BOOL, if b { 1u8 } else { 0u8 }],
        rsm_value_t::U32(x) => seq![TAG_U32] + spec_u32_to_le_bytes(x),
        rsm_value_t::U64(x) => seq![TAG_U64] + spec_u64_to_le_bytes(x),
        rsm_value_t::I64(x) => seq![TAG_I64] + spec_u64_to_le_bytes(x as u64),
        rsm_value_t::Bytes(b) => seq![TAG_BYTES] + spec_u32_to_le_bytes(b.len() as u32) + b@,
    }
}

/// Bytes that are the encoding of some value.
pub open spec fn spec_decodable(s: Seq<u8>) -> bool {
    &&& s.len() >= 2
    &&& {
        ||| (s[0] == TAG_BOOL && s.len() == 2 && (s[1] == 0 || s[1] == 1))
        ||| (s[0] == TAG_U32 && s.len() == 5)
        ||| (s[0] == TAG_U64 && s.len() == 9)
        ||| (s[0] == TAG_I64 && s.len() == 9)
        ||| (s[0] == TAG_BYTES && s.len() >= 5 && s.len() == 5 + spec_u32_from_le_bytes(
            s.subrange(1, 5),
        ))
    }
}

/// The value that a byte sequence decodes to.
pub open spec fn spec_decoded(s: Seq<u8>, v: rsm_value_t) -> bool {
    match v {
        rsm_value_t::Bool(b) => s.len() == 2 && s[0] == TAG_BOOL && s[1] == (if b {
            1u8
        } else {
            0u8
        }),
        rsm_value_t::U32(x) => s.len() == 5 && s[0] == TAG_U32 && x == spec_u32_from_le_bytes(
            s.subrange(1, 5),
        ),
        rsm_value_t::U64(x) => s.len() == 9 && s[0] == TAG_U64 && x == spec_u64_from_le_bytes(
            s.subrange(1, 9),
        ),
        rsm_value_t::I64(x) => s.len() == 9 && s[0] == TAG_I64 && x == spec_u64_from_le_bytes(
            s.subrange(1, 9),
        ) as i64,
        rsm_value_t::Bytes(b) => s.len() >= 5 && s[0] == TAG_BYTES && s.len() == 5
            + spec_u32_from_le_bytes(s.subrange(1, 5)) && b@ == s.subrange(5, s.len() as int),
    }
}

/// Encode a value into the envelope's byte form.
pub fn encode_value(v: &rsm_value_t) -> (r: Vec<u8>)
    requires
        v matches rsm_value_t::Bytes(b) ==> b@.len() <= u32::MAX,
    ensures
        r@ == spec_encode_value(*v),
{
    let mut out: Vec<u8> = Vec::new();
    match v {
        rsm_value_t::Bool(b) => {
            out.push(TAG_BOOL);
            out.push(if *b {
                1
            } else {
                0
            });
        },
        rsm_value_t::U32(x) => {
            out.push(TAG_U32);
            let mut payload = u32_to_le_bytes(*x);
            out.append(&mut payload);
        },
        rsm_value_t::U64(x) => {
            out.push(TAG_U64);
            let mut payload = u64_to_le_bytes(*x);
            out.append(&mut payload);
        },
        rsm_value_t::I64(x) => {
            out.push(TAG_I64);
            let mut payload = u64_to_le_bytes(*x as u64);
            out.append(&mut payload);
        },
        rsm_value_t::Bytes(b) => {
            out.push(TAG_BYTES);
            let mut lenb = u32_to_le_bytes(b.len() as u32);
            out.append(&mut lenb);
            let mut body = b.clone();
            out.append(&mut body);
        },
    }
    proof {
        assert(out@ =~= spec_encode_value(*v));
    }
    out
}

/// Decode the envelope's byte form back into a value. Succeeds exactly on
/// bytes that are the encoding of some value.
pub fn decode_value(s: &[u8]) -> (r: Option<rsm_value_t>)
    ensures
        r is Some <==> spec_decodable(s@),
        r matches Some(v) ==> spec_decoded(s@, v),
{
    let n = s.len();
    if n < 2 {
        return None;
    }
    let tag = s[0];
    if tag == TAG_BOOL && n == 2 && (s[1] == 0 || s[1] == 1) {
        Some(rsm_value_t::Bool(s[1] == 1))
    } else if tag == TAG_U32 && n == 5 {
        let mut payload: Vec<u8> = Vec::new();
        let mut i: usize = 1;
        while i < 5
            invariant
                1 <= i <= 5,
                s@.len() == 5,
                payload@ =~= s@.subrange(1, i as int),
            decreases 5 - i,
        {
            payload.push(s[i]);
            proof {
                assert(payload@ =~= s@.subrange(1, i + 1 as int));
            }
            i = i + 1;
        }
        let x = u32_from_le_bytes(payload.as_slice());
        Some(rsm_value_t::U32(x))
    } else if (tag == TAG_U64 || tag == TAG_I64) && n == 9 {
        let mut payload: Vec<u8> = Vec::new();
        let mut i: usize = 1;
        while i < 9
            invariant
                1 <= i <= 9,
                s@.len() == 9,
                payload@ =~= s@.subrange(1, i as int),
            decreases 9 - i,
        {
            payload.push(s[i]);
            proof {
                assert(payload@ =~= s@.subrange(1, i + 1 as int));
            }
            i = i + 1;
        }
        let x = u64_from_le_bytes(payload.as_slice());
        if tag == TAG_U64 {
            Some(rsm_value_t::U64(x))
        } else {
            Some(rsm_value_t::I64(x as i64))
        }
    } else if tag == TAG_BYTES && n >= 5 {
        let mut lenb: Vec<u8> = Vec::new();
        let mut i: usize = 1;
        while i < 5
            invariant
                1 <= i <= 5,
                s@.len() >= 5,
                lenb@ =~= s@.subrange(1, i as int),
            decreases 5 - i,
        {
            lenb.push(s[i]);
            proof {
                assert(lenb@ =~= s@.subrange(1, i + 1 as int));
            }
            i = i + 1;
        }
        let len = u32_from_le_bytes(lenb.as_slice());
        if n - 5 == len as usize {
            let mut body: Vec<u8> = Vec::new();
            let mut j: usize = 5;
            while j < n
                invariant
                    5 <= j <= n,
                    n == s@.len(),
                    body@ =~= s@.subrange(5, j as int),
                decreases n - j,
            {
                body.push(s[j]);
                proof {
                    assert(body@ =~= s@.subrange(5, j + 1 as int));
                }
                j = j + 1;
            }
            Some(rsm_value_t::Bytes(body))
        } else {
            None
        }
    } else {
        None
    }
}

/// The socket kind as one wire byte.
pub open spec fn spec_sock_type_byte(t: crate::rsm::socket::SOCKET_TYPE) -> u8 {
    match t {
        crate::rsm::socket::SOCKET_TYPE::PROTO_RAW => 0u8,
        crate::rsm::socket::SOCKET_TYPE::PROTO_DGRAM => 1u8,
        crate::rsm::socket::SOCKET_TYPE::PROTO_STREAM => 2u8,
    }
}

/// The fixed nine-byte body of a socket readiness envelope: the kind byte,
/// then socket ID and event mask, little endian.
pub open spec fn spec_encode_socket_event(ev: crate::rsm::rsm_socket_event_t) -> Seq<u8> {
    seq![spec_sock_type_byte(ev.sock_type)] + spec_u32_to_le_bytes(ev.socket_id as u32)
        + spec_u32_to_le_bytes(ev.event)
}

/// Bytes that are the encoding of a socket readiness event.
pub open spec fn spec_decodable_socket_event(s: Seq<u8>) -> bool {
    s.len() == 9 && (s[0] == 0 || s[0] == 1 || s[0] == 2)
}

/// The event a nine-byte body decodes to.
pub open spec fn spec_decoded_socket_event(
    s: Seq<u8>,
    ev: crate::rsm::rsm_socket_event_t,
) -> bool {
    &&& spec_decodable_socket_event(s)
    &&& s[0] == spec_sock_type_byte(ev.sock_type)
    &&& ev.socket_id == spec_u32_from_le_bytes(s.subrange(1, 5)) as i32
    &&& ev.event == spec_u32_from_le_bytes(s.subrange(5, 9))
}

/// Encode a socket readiness event as an envelope body.
pub fn encode_socket_event(ev: &crate::rsm::rsm_socket_event_t) -> (r: Vec<u8>)
    ensures
        r@ == spec_encode_socket_event(*ev),
{
    let mut out: Vec<u8> = Vec::new();
    let tb: u8 = match ev.sock_type {
        crate::rsm::socket::SOCKET_TYPE::PROTO_RAW => 0,
        crate::rsm::socket::SOCKET_TYPE::PROTO_DGRAM => 1,
        crate::rsm::socket::SOCKET_TYPE::PROTO_STREAM => 2,
    };
    out.push(tb);
    let mut idb = u32_to_le_bytes(ev.socket_id as u32);
    out.append(&mut idb);
    let mut evb = u32_to_le_bytes(ev.event);
    out.append(&mut evb);
    proof {
        assert(out@ =~= spec_encode_socket_event(*ev));
    }
    out
}

/// Decode an envelope body back into a socket readiness event.
pub fn decode_socket_event(s: &[u8]) -> (r: Option<crate::rsm::rsm_socket_event_t>)
    ensures
        r is Some <==> spec_decodable_socket_event(s@),
        r matches Some(ev) ==> spec_decoded_socket_event(s@, ev),
{
    if s.len() != 9 {
        return None;
    }
    let t = s[0];
    let sock_type = if t == 0 {
        crate::rsm::socket::SOCKET_TYPE::PROTO_RAW
    } else if t == 1 {
        crate::rsm::socket::SOCKET_TYPE::PROTO_DGRAM
    } else if t == 2 {
        crate::rsm::socket::SOCKET_TYPE::PROTO_STREAM
    } else {
        return None;
    };
    let mut idb: Vec<u8> = Vec::new();
    let mut i: usize = 1;
    while i < 5
        invariant
            1 <= i <= 5,
            s@.len() == 9,
            idb@ =~= s@.subrange(1, i as int),
        decreases 5 - i,
    {
        idb.push(s[i]);
        proof {
            assert(idb@ =~= s@.subrange(1, i + 1 as int));
        }
        i = i + 1;
    }
    let socket_id = u32_from_le_bytes(idb.as_slice()) as i32;
    let mut evb: Vec<u8> = Vec::new();
    let mut j: usize = 5;
    while j < 9
        invariant
            5 <= j <= 9,
            s@.len() == 9,
            evb@ =~= s@.subrange(5, j as int),
        decreases 9 - j,
    {
        evb.push(s[j]);
        proof {
            assert(evb@ =~= s@.subrange(5, j + 1 as int));
        }
        j = j + 1;
    }
    let event = u32_from_le_bytes(evb.as_slice());
    Some(crate::rsm::rsm_socket_event_t { socket_id, sock_type, event })
}

/// Round trip: a socket event that went through the codec comes back with
/// the same kind, socket ID and mask.
pub proof fn lemma_socket_event_round_trip(ev: crate::rsm::rsm_socket_event_t)
    requires
        ev.socket_id >= 0,
    ensures
        spec_decodable_socket_event(spec_encode_socket_event(ev)),
        forall|w: crate::rsm::rsm_socket_event_t|
            #[trigger] spec_decoded_socket_event(spec_encode_socket_event(ev), w) ==> w.socket_id
                == ev.socket_id && w.sock_type == ev.sock_type && w.event == ev.event,
{
    lemma_auto_spec_u32_to_from_le_bytes();
    let s = spec_encode_socket_event(ev);
    assert(s.subrange(1, 5) =~= spec_u32_to_le_bytes(ev.socket_id as u32));
    assert(s.subrange(5, 9) =~= spec_u32_to_le_bytes(ev.event));
    assert forall|w: crate::rsm::rsm_socket_event_t|
        #[trigger] spec_decoded_socket_event(s, w) implies w.socket_id == ev.socket_id
        && w.sock_type == ev.sock_type && w.event == ev.event by {
        let sid = ev.socket_id;
        assert(((sid as u32) as i32) == sid) by (bit_vector)
            requires
                sid >= 0,
        ;
    }
}

/// Round trip: decoding the encoding of any supported value yields that
/// value, and only it.
pub proof fn lemma_decode_encode(v: rsm_value_t)
    requires
        v matches rsm_value_t::Bytes(b) ==> b@.len() <= u32::MAX,
    ensures
        spec_decodable(spec_encode_value(v)),
        forall|w: rsm_value_t| spec_decoded(spec_encode_value(v), w) ==> #[trigger] w.value_eq(v),
{
    lemma_auto_spec_u32_to_from_le_bytes();
    lemma_auto_spec_u64_to_from_le_bytes();
    let s = spec_encode_value(v);
    assert forall|w: rsm_value_t| spec_decoded(s, w) implies #[trigger] w.value_eq(v) by {
        lemma_auto_spec_u32_to_from_le_bytes();
        lemma_auto_spec_u64_to_from_le_bytes();
        match v {
            rsm_value_t::Bool(b) => {},
            rsm_value_t::U32(x) => {
                assert(s.subrange(1, 5) =~= spec_u32_to_le_bytes(x));
            },
            rsm_value_t::U64(x) => {
                assert(s.subrange(1, 9) =~= spec_u64_to_le_bytes(x));
            },
            rsm_value_t::I64(x) => {
                assert(s.subrange(1, 9) =~= spec_u64_to_le_bytes(x as u64));
                assert(((x as u64) as i64) == x) by (bit_vector);
            },
            rsm_value_t::Bytes(b) => {
                assert(s.subrange(1, 5) =~= spec_u32_to_le_bytes(b.len() as u32));
                assert(s.subrange(5, s.len() as int) =~= b@);
            },
        }
    }
    match v {
        rsm_value_t::Bool(b) => {
            assert(s.len() == 2);
        },
        rsm_value_t::U32(x) => {
            assert(s.subrange(1, 5) =~= spec_u32_to_le_bytes(x));
        },
        rsm_value_t::U64(x) => {
            assert(s.subrange(1, 9) =~= spec_u64_to_le_bytes(x));
        },
        rsm_value_t::I64(x) => {
            assert(s.subrange(1, 9) =~= spec_u64_to_le_bytes(x as u64));
        },
        rsm_value_t::Bytes(b) => {
            assert(s.subrange(1, 5) =~= spec_u32_to_le_bytes(b.len() as u32));
            assert(s.subrange(5, s.len() as int) =~= b@);
        },
    }
}

} // verus!
