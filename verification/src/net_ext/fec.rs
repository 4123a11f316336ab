//! Forward error correction over packet groups: N consecutively numbered
//! source packets are XOR-folded into one parity packet; a receiver that
//! holds any N of the N source packets and the parity can reconstruct the
//! one that is missing. Encoder and decoder share one state machine.

use vstd::prelude::*;
use vstd::bytes::*;
use vstd::slice::SliceAdditionalExecFns;
use vstd::slice::slice_subrange;
use crate::common::errcode;
use crate::common::bitmap::count_true;

verus! {

pub const FEC_TYPE_ENCODER: u8 = 0;

pub const FEC_TYPE_DECODER: u8 = 1;

/// Largest group size: how many source packets fold into one parity packet.
pub const MAX_FEC_RATIO: usize = 10;

/// Largest payload a packet may carry.
pub const MAX_FEC_BUF_SIZE: usize = 2048;

/// Bytes of the parity packet header on the wire.
pub const FEC_HDR_SIZE: usize = 32;

/// The parity packet header: the group's first sequence, its size, and the
/// length of each source packet.
pub struct fec_header_t {
    pub start_seq: u64,
    pub src_pkts_num: u8,
    pub alg_type: u8,
    pub max_pkt_len: u16,
    pub src_pkts_len: Vec<u16>,
}

/// One FEC session: the header, the XOR fold of everything added so far,
/// and which group members have been added.
pub struct fec_packet_t {
    pub hdr: fec_header_t,
    pub body: Vec<u8>,
    pub real_len: u16,
    pub fec_type: u8,
    pub ratio: u8,
    pub src_pkts_added: Vec<bool>,
    pub fec_exist: bool,
}

/// The wire form of a header: sequence, counts and lengths, little endian.
pub open spec fn spec_encode_fec_header(h: fec_header_t) -> Seq<u8> {
    spec_u64_to_le_bytes(h.start_seq) + seq![h.src_pkts_num, h.alg_type] + spec_u16_to_le_bytes(
        h.max_pkt_len,
    ) + spec_u16_to_le_bytes(h.src_pkts_len[0]) + spec_u16_to_le_bytes(h.src_pkts_len[1])
        + spec_u16_to_le_bytes(h.src_pkts_len[2]) + spec_u16_to_le_bytes(h.src_pkts_len[3])
        + spec_u16_to_le_bytes(h.src_pkts_len[4]) + spec_u16_to_le_bytes(h.src_pkts_len[5])
        + spec_u16_to_le_bytes(h.src_pkts_len[6]) + spec_u16_to_le_bytes(h.src_pkts_len[7])
        + spec_u16_to_le_bytes(h.src_pkts_len[8]) + spec_u16_to_le_bytes(h.src_pkts_len[9])
}

impl fec_packet_t {
    /// Internal consistency: fixed-size storage, a group size within bounds,
    /// no member marked outside the group, and the recorded maximum length
    /// within the buffer.
    pub open spec fn wf(&self) -> bool {
        &&& self.body@.len() == MAX_FEC_BUF_SIZE
        &&& self.src_pkts_added@.len() == MAX_FEC_RATIO
        &&& self.hdr.src_pkts_len@.len() == MAX_FEC_RATIO
        &&& 1 <= self.ratio <= MAX_FEC_RATIO
        &&& forall|i: int| self.ratio <= i < MAX_FEC_RATIO ==> !(#[trigger] self.src_pkts_added@[i])
        &&& self.real_len <= MAX_FEC_BUF_SIZE
    }

    /// Every group member has been added.
    pub open spec fn spec_recv_finished(&self) -> bool {
        forall|i: int| 0 <= i < self.ratio ==> (#[trigger] self.src_pkts_added@[i])
    }

    /// The session is complete: an encoder needs every source packet; a
    /// decoder needs any `ratio` packets of the group and parity together.
    pub open spec fn spec_fec_finished(&self) -> bool {
        if self.fec_type == FEC_TYPE_ENCODER {
            self.spec_recv_finished()
        } else {
            count_true(self.src_pkts_added@) + (if self.fec_exist {
                1int
            } else {
                0int
            }) >= self.ratio
        }
    }

    /// Nothing has been added yet.
    pub open spec fn spec_is_first(&self) -> bool {
        (forall|i: int| 0 <= i < self.ratio ==> !(#[trigger] self.src_pkts_added@[i]))
            && !self.fec_exist
    }

    /// A fresh encoder session over groups of five, starting at sequence 0.
    pub fn new() -> (r: Self)
        ensures
            r.wf(),
            r.fec_type == FEC_TYPE_ENCODER,
            r.ratio == 5,
            r.spec_is_first(),
            !r.spec_fec_finished(),
    {
        let mut r = Self {
            hdr: fec_header_t {
                start_seq: 0,
                src_pkts_num: 5,
                alg_type: 0,
                max_pkt_len: 0,
                src_pkts_len: make_u16s(),
            },
            body: make_body(),
            real_len: 0,
            fec_type: FEC_TYPE_ENCODER,
            ratio: 5,
            src_pkts_added: make_flags(),
            fec_exist: false,
        };
        proof {
            assert(!r.src_pkts_added@[0]);
        }
        r
    }

    /// Restart the session at a new group.
    fn reset(&mut self, start_seq: u64, ratio: u8)
        requires
            old(self).wf(),
            1 <= ratio <= MAX_FEC_RATIO,
        ensures
            final(self).wf(),
            final(self).hdr.start_seq == start_seq,
            final(self).hdr.src_pkts_num == ratio,
            final(self).ratio == ratio,
            final(self).real_len == 0,
            !final(self).fec_exist,
            final(self).fec_type == old(self).fec_type,
            final(self).spec_is_first(),
            forall|i: int| 0 <= i < MAX_FEC_BUF_SIZE ==> (#[trigger] final(self).body@[i]) == 0u8,
            forall|i: int|
                0 <= i < MAX_FEC_RATIO ==> (#[trigger] final(self).hdr.src_pkts_len@[i]) == 0u16,
    {
        self.hdr = fec_header_t {
            start_seq,
            src_pkts_num: ratio,
            alg_type: 0,
            max_pkt_len: 0,
            src_pkts_len: make_u16s(),
        };
        self.real_len = 0;
        self.fec_exist = false;
        self.ratio = ratio;
        self.body = make_body();
        self.src_pkts_added = make_flags();
    }

    /// Begin an encoder session for the group starting at `start_seq`.
    pub fn start_encoder(&mut self, start_seq: u64, ratio: u8)
        requires
            old(self).wf(),
            1 <= ratio <= MAX_FEC_RATIO,
        ensures
            final(self).wf(),
            final(self).fec_type == FEC_TYPE_ENCODER,
            final(self).hdr.start_seq == start_seq,
            final(self).ratio == ratio,
            final(self).spec_is_first(),
            !final(self).spec_fec_finished(),
    {
        self.fec_type = FEC_TYPE_ENCODER;
        self.reset(start_seq, ratio);
        proof {
            assert(!self.src_pkts_added@[0]);
        }
    }

    /// Begin a decoder session for the group starting at `start_seq`.
    pub fn start_decoder(&mut self, start_seq: u64, ratio: u8)
        requires
            old(self).wf(),
            1 <= ratio <= MAX_FEC_RATIO,
        ensures
            final(self).wf(),
            final(self).fec_type == FEC_TYPE_DECODER,
            final(self).hdr.start_seq == start_seq,
            final(self).ratio == ratio,
            final(self).spec_is_first(),
    {
        self.fec_type = FEC_TYPE_DECODER;
        self.reset(start_seq, ratio);
    }

    /// Whether every source packet of the group has arrived.
    fn is_packet_recv_finished(&self) -> (r: bool)
        requires
            self.wf(),
        ensures
            r == self.spec_recv_finished(),
    {
        let n = self.ratio as usize;
        let mut i: usize = 0;
        while i < n
            invariant
                i <= n,
                n == self.ratio,
                n <= self.src_pkts_added@.len(),
                forall|j: int| 0 <= j < i ==> (#[trigger] self.src_pkts_added@[j]),
            decreases n - i,
        {
            if !self.src_pkts_added[i] {
                return false;
            }
            i = i + 1;
        }
        true
    }

    /// Whether the session is complete.
    pub fn is_fec_finished(&self) -> (r: bool)
        requires
            self.wf(),
        ensures
            r == self.spec_fec_finished(),
    {
        if self.fec_type == FEC_TYPE_ENCODER {
            self.is_packet_recv_finished()
        } else {
            let n = self.ratio as usize;
            let mut expect: usize = 0;
            let mut i: usize = 0;
            proof {
                lemma_count_prefix(self.src_pkts_added@, 0);
            }
            while i < n
                invariant
                    i <= n,
                    n == self.ratio,
                    self.wf(),
                    expect == count_true(self.src_pkts_added@.subrange(0, i as int)),
                    expect <= i,
                decreases n - i,
            {
                let ghost pre = expect as int;
                if self.src_pkts_added[i] {
                    expect = expect + 1;
                }
                proof {
                    assert(self.src_pkts_added@.subrange(0, i + 1 as int).drop_last()
                        =~= self.src_pkts_added@.subrange(0, i as int));
                }
                i = i + 1;
            }
            proof {
                lemma_count_tail_false(self.src_pkts_added@, self.ratio as int);
            }
            let total = if self.fec_exist {
                expect + 1
            } else {
                expect
            };
            total >= n
        }
    }

    /// Whether nothing of the group has arrived yet.
    pub fn is_first_packet(&self) -> (r: bool)
        requires
            self.wf(),
        ensures
            r == self.spec_is_first(),
    {
        if self.fec_exist {
            return false;
        }
        let n = self.ratio as usize;
        let mut i: usize = 0;
        while i < n
            invariant
                i <= n,
                n == self.ratio,
                n <= self.src_pkts_added@.len(),
                !self.fec_exist,
                forall|j: int| 0 <= j < i ==> !(#[trigger] self.src_pkts_added@[j]),
            decreases n - i,
        {
            if self.src_pkts_added[i] {
                return false;
            }
            i = i + 1;
        }
        true
    }

    /// Record one arrived source packet: its slot and length, and the
    /// longest payload seen.
    fn set_raw_packet_state(&mut self, idx: usize, len: u16)
        requires
            old(self).wf(),
            idx < old(self).ratio,
            len <= MAX_FEC_BUF_SIZE,
        ensures
            final(self).wf(),
            final(self).src_pkts_added@ == old(self).src_pkts_added@.update(idx as int, true),
            final(self).hdr.src_pkts_len@ == old(self).hdr.src_pkts_len@.update(idx as int, len),
            final(self).real_len == (if old(self).real_len < len {
                len
            } else {
                old(self).real_len
            }),
            final(self).body@ == old(self).body@,
            final(self).hdr.start_seq == old(self).hdr.start_seq,
            final(self).ratio == old(self).ratio,
            final(self).fec_type == old(self).fec_type,
            final(self).fec_exist == old(self).fec_exist,
    {
        self.src_pkts_added.set(idx, true);
        let mut lens = fec_header_t {
            start_seq: self.hdr.start_seq,
            src_pkts_num: self.hdr.src_pkts_num,
            alg_type: self.hdr.alg_type,
            max_pkt_len: self.hdr.max_pkt_len,
            src_pkts_len: Vec::new(),
        };
        let mut i: usize = 0;
        while i < MAX_FEC_RATIO
            invariant
                i <= MAX_FEC_RATIO,
                idx < MAX_FEC_RATIO,
                self.hdr.src_pkts_len@.len() == MAX_FEC_RATIO,
                lens.src_pkts_len@.len() == i,
                forall|j: int|
                    0 <= j < i ==> lens.src_pkts_len@[j] == old(self).hdr.src_pkts_len@.update(
                        idx as int,
                        len,
                    )[j],
                self.hdr.src_pkts_len@ == old(self).hdr.src_pkts_len@,
                lens.start_seq == self.hdr.start_seq,
                lens.src_pkts_num == self.hdr.src_pkts_num,
                lens.alg_type == self.hdr.alg_type,
                lens.max_pkt_len == self.hdr.max_pkt_len,
            decreases MAX_FEC_RATIO - i,
        {
            if i == idx {
                lens.src_pkts_len.push(len);
            } else {
                lens.src_pkts_len.push(self.hdr.src_pkts_len[i]);
            }
            i = i + 1;
        }
        if self.real_len < len {
            self.real_len = len;
            lens.max_pkt_len = len;
        }
        self.hdr = lens;
        proof {
            assert(self.hdr.src_pkts_len@ =~= old(self).hdr.src_pkts_len@.update(idx as int, len));
            assert(self.src_pkts_added@ =~= old(self).src_pkts_added@.update(idx as int, true));
        }
    }

    /// XOR one payload into the fold, padding it with zeroes to the buffer.
    fn calc_fec_packet(&mut self, pkt: &[u8]) -> (res: errcode::RESULT)
        requires
            old(self).wf(),
            pkt@.len() <= MAX_FEC_BUF_SIZE,
        ensures
            final(self).wf(),
            res == errcode::RESULT_SUCCESS,
            final(self).body@.len() == old(self).body@.len(),
            forall|i: int|
                0 <= i < pkt@.len() ==> (#[trigger] final(self).body@[i]) == (old(self).body@[i]
                    ^ pkt@[i]),
            forall|i: int|
                pkt@.len() <= i < MAX_FEC_BUF_SIZE ==> (#[trigger] final(self).body@[i]) == old(self).body@[i],
            final(self).hdr.start_seq == old(self).hdr.start_seq,
            final(self).hdr.src_pkts_len@ == old(self).hdr.src_pkts_len@,
            final(self).src_pkts_added@ == old(self).src_pkts_added@,
            final(self).real_len == old(self).real_len,
            final(self).ratio == old(self).ratio,
            final(self).fec_type == old(self).fec_type,
            final(self).fec_exist == old(self).fec_exist,
    {
        let n = pkt.len();
        let mut i: usize = 0;
        while i < n
            invariant
                i <= n,
                n == pkt@.len(),
                n <= self.body@.len(),
                old(self).wf(),
                self.body@.len() == old(self).body@.len(),
                self.hdr == old(self).hdr,
                self.src_pkts_added@ == old(self).src_pkts_added@,
                self.real_len == old(self).real_len,
                self.ratio == old(self).ratio,
                self.fec_type == old(self).fec_type,
                self.fec_exist == old(self).fec_exist,
                forall|j: int|
                    0 <= j < i ==> (#[trigger] self.body@[j]) == (old(self).body@[j] ^ pkt@[j]),
                forall|j: int|
                    i <= j < self.body@.len() ==> (#[trigger] self.body@[j]) == old(self).body@[j],
            decreases n - i,
        {
            let b = self.body[i] ^ pkt[i];
            self.body.set(i, b);
            i = i + 1;
        }
        errcode::RESULT_SUCCESS
    }

    /// Add one source packet of the group. A sequence outside the group or
    /// an oversized payload is refused with `INVALID_MSG`; a finished
    /// session answers `NO_OP`; a duplicate answers `ALREADY_EXIST`. The
    /// first arrival seeds the fold, later ones XOR in; the call answers
    /// `RESULT_SUCCESS` exactly when it completes the session.
    pub fn add_raw_packet(&mut self, seq: u64, pkt: &[u8]) -> (res: errcode::RESULT)
        requires
            old(self).wf(),
            old(self).hdr.start_seq <= u64::MAX - 100,
        ensures
            final(self).wf(),
            final(self).hdr.start_seq == old(self).hdr.start_seq,
            final(self).ratio == old(self).ratio,
            final(self).fec_type == old(self).fec_type,
            seq < old(self).hdr.start_seq || seq >= old(self).hdr.start_seq + old(self).ratio
                || pkt@.len() > MAX_FEC_BUF_SIZE ==> res == errcode::ERROR_INVALID_MSG && *final(self) == *old(self),
            !(seq < old(self).hdr.start_seq || seq >= old(self).hdr.start_seq + old(self).ratio
                || pkt@.len() > MAX_FEC_BUF_SIZE) && old(self).spec_fec_finished() ==> res
                == errcode::ERROR_NO_OP && *final(self) == *old(self),
            res == errcode::RESULT_SUCCESS ==> final(self).spec_fec_finished(),
            !(seq < old(self).hdr.start_seq || seq >= old(self).hdr.start_seq + old(self).ratio
                || pkt@.len() > MAX_FEC_BUF_SIZE) && !old(self).spec_fec_finished() && old(self).src_pkts_added@[seq - old(self).hdr.start_seq] ==> res == errcode::ERROR_ALREADY_EXIST
                && *final(self) == *old(self),
            !(seq < old(self).hdr.start_seq || seq >= old(self).hdr.start_seq + old(self).ratio
                || pkt@.len() > MAX_FEC_BUF_SIZE) && !old(self).spec_fec_finished() && !old(self).src_pkts_added@[seq - old(self).hdr.start_seq] ==> final(self).src_pkts_added@ == old(self).src_pkts_added@.update(seq - old(self).hdr.start_seq, true) && (res
                == errcode::RESULT_SUCCESS || res == errcode::ERROR_NO_OP) && (res
                == errcode::ERROR_NO_OP ==> !final(self).spec_fec_finished()),
    {
        if seq < self.hdr.start_seq || seq >= self.hdr.start_seq + self.ratio as u64 || pkt.len()
            > MAX_FEC_BUF_SIZE {
            return errcode::ERROR_INVALID_MSG;
        }
        if self.is_fec_finished() {
            return errcode::ERROR_NO_OP;
        }
        let idx = (seq - self.hdr.start_seq) as usize;
        if self.src_pkts_added[idx] {
            return errcode::ERROR_ALREADY_EXIST;
        }
        if self.is_first_packet() {
            self.set_raw_packet_state(idx, pkt.len() as u16);
            let ghost mid = *self;
            let n = pkt.len();
            let mut i: usize = 0;
            while i < n
                invariant
                    i <= n,
                    n == pkt@.len(),
                    n <= self.body@.len(),
                    mid.wf(),
                    self.body@.len() == MAX_FEC_BUF_SIZE,
                    self.hdr == mid.hdr,
                    self.src_pkts_added@ == mid.src_pkts_added@,
                    self.real_len == mid.real_len,
                    self.ratio == mid.ratio,
                    self.fec_type == mid.fec_type,
                    self.fec_exist == mid.fec_exist,
                    forall|j: int| 0 <= j < i ==> (#[trigger] self.body@[j]) == pkt@[j],
                decreases n - i,
            {
                let b = pkt[i];
                self.body.set(i, b);
                i = i + 1;
            }
            proof {
                lemma_count_update_general(
                    old(self).src_pkts_added@,
                    idx as int,
                    self.src_pkts_added@,
                );
            }
            if self.is_fec_finished() {
                return errcode::RESULT_SUCCESS;
            }
            return errcode::ERROR_NO_OP;
        }
        self.set_raw_packet_state(idx, pkt.len() as u16);
        self.calc_fec_packet(pkt);
        if self.is_fec_finished() {
            errcode::RESULT_SUCCESS
        } else {
            errcode::ERROR_NO_OP
        }
    }

    /// Add the group's parity packet: a 32-byte header followed by the
    /// folded payload. Refused with `INVALID_MSG` for a sequence outside
    /// the group or a malformed length; a finished session answers `NO_OP`
    /// but still notes the parity; otherwise the header is adopted, the
    /// payload folds in, and `RESULT_SUCCESS` says the session completed.
    pub fn add_fec_packet(&mut self, seq: u64, pkt: &[u8]) -> (res: errcode::RESULT)
        requires
            old(self).wf(),
            old(self).hdr.start_seq <= u64::MAX - 100,
        ensures
            final(self).wf(),
            final(self).ratio == old(self).ratio,
            final(self).fec_type == old(self).fec_type,
            final(self).hdr.start_seq == old(self).hdr.start_seq,
            seq < old(self).hdr.start_seq || seq >= old(self).hdr.start_seq + old(self).ratio
                || pkt@.len() <= FEC_HDR_SIZE || pkt@.len() > MAX_FEC_BUF_SIZE + FEC_HDR_SIZE ==> res
                == errcode::ERROR_INVALID_MSG && *final(self) == *old(self),
            !(seq < old(self).hdr.start_seq || seq >= old(self).hdr.start_seq + old(self).ratio
                || pkt@.len() <= FEC_HDR_SIZE || pkt@.len() > MAX_FEC_BUF_SIZE + FEC_HDR_SIZE)
                && old(self).spec_fec_finished() ==> res == errcode::ERROR_NO_OP && final(self).fec_exist,
            res == errcode::RESULT_SUCCESS ==> final(self).spec_fec_finished() && final(self).fec_exist,
    {
        if seq < self.hdr.start_seq || seq >= self.hdr.start_seq + self.ratio as u64 || pkt.len()
            <= FEC_HDR_SIZE || pkt.len() > MAX_FEC_BUF_SIZE + FEC_HDR_SIZE {
            return errcode::ERROR_INVALID_MSG;
        }
        if self.is_fec_finished() {
            self.fec_exist = true;
            proof {
                lemma_count_nonneg(self.src_pkts_added@);
            }
            return errcode::ERROR_NO_OP;
        }
        let first = self.is_first_packet();
        let start_seq = self.hdr.start_seq;
        let ratio = self.ratio;
        let max_pkt_len = u16_from_le_bytes(slice_subrange(pkt, 10, 12));
        let mut lens: Vec<u16> = Vec::new();
        let mut i: usize = 0;
        while i < MAX_FEC_RATIO
            invariant
                i <= MAX_FEC_RATIO,
                lens@.len() == i,
                pkt@.len() > FEC_HDR_SIZE,
            decreases MAX_FEC_RATIO - i,
        {
            let off = 12 + 2 * i;
            let l = u16_from_le_bytes(slice_subrange(pkt, off, off + 2));
            lens.push(if (l as usize) <= MAX_FEC_BUF_SIZE {
                l
            } else {
                0
            });
            i = i + 1;
        }
        self.hdr = fec_header_t {
            start_seq,
            src_pkts_num: ratio,
            alg_type: 0,
            max_pkt_len,
            src_pkts_len: lens,
        };
        self.fec_exist = true;
        let payload = slice_subrange(pkt, FEC_HDR_SIZE, pkt.len());
        let ghost mid = *self;
        if first {
            let n = payload.len();
            let mut i: usize = 0;
            while i < n
                invariant
                    i <= n,
                    n == payload@.len(),
                    n <= self.body@.len(),
                    mid.wf(),
                    self.body@.len() == MAX_FEC_BUF_SIZE,
                    self.hdr == mid.hdr,
                    self.src_pkts_added@ == mid.src_pkts_added@,
                    self.real_len == mid.real_len,
                    self.ratio == mid.ratio,
                    self.fec_type == mid.fec_type,
                    self.fec_exist == mid.fec_exist,
                decreases n - i,
            {
                let b = payload[i];
                self.body.set(i, b);
                i = i + 1;
            }
            proof {
                lemma_count_nonneg(self.src_pkts_added@);
            }
            if self.is_fec_finished() {
                return errcode::RESULT_SUCCESS;
            }
            return errcode::ERROR_NO_OP;
        }
        self.calc_fec_packet(payload);
        proof {
            lemma_count_nonneg(self.src_pkts_added@);
        }
        if self.is_fec_finished() {
            errcode::RESULT_SUCCESS
        } else {
            errcode::ERROR_NO_OP
        }
    }

    /// Move to the next group: the window advances by the new group size.
    pub fn next_session(&mut self, new_ratio: u8)
        requires
            old(self).wf(),
            1 <= new_ratio <= MAX_FEC_RATIO,
            old(self).hdr.start_seq <= u64::MAX - 100,
        ensures
            final(self).wf(),
            final(self).hdr.start_seq == old(self).hdr.start_seq + new_ratio,
            final(self).ratio == new_ratio,
            final(self).spec_is_first(),
    {
        let seq = self.hdr.start_seq + (new_ratio as u64);
        self.reset(seq, new_ratio);
    }

    /// The first sequence of the group after this one.
    pub fn next_start_seq(&self) -> (r: u64)
        requires
            self.wf(),
            self.hdr.start_seq <= u64::MAX - 100,
        ensures
            r == self.hdr.start_seq + self.ratio,
    {
        self.hdr.start_seq + (self.ratio as u64)
    }

    /// The sequence and slot of the one group member still missing;
    /// `(0, 0)` when none is.
    fn get_lost_packet_seq(&self) -> (r: (u64, usize))
        requires
            self.wf(),
            self.hdr.start_seq <= u64::MAX - 100,
        ensures
            self.spec_recv_finished() ==> r == (0u64, 0usize),
            !self.spec_recv_finished() ==> ({
                &&& r.1 < self.ratio
                &&& !self.src_pkts_added@[r.1 as int]
                &&& r.0 == self.hdr.start_seq + r.1
                &&& forall|j: int| 0 <= j < r.1 ==> (#[trigger] self.src_pkts_added@[j])
            }),
    {
        let n = self.ratio as usize;
        let mut i: usize = 0;
        while i < n
            invariant
                i <= n,
                n == self.ratio,
                self.wf(),
                self.hdr.start_seq <= u64::MAX - 100,
                forall|j: int| 0 <= j < i ==> (#[trigger] self.src_pkts_added@[j]),
            decreases n - i,
        {
            if !self.src_pkts_added[i] {
                return (self.hdr.start_seq + i as u64, i);
            }
            i = i + 1;
        }
        (0, 0)
    }

    /// The reconstructed missing packet: the fold's prefix at the missing
    /// slot's recorded length, with its sequence. Nothing when no packet is
    /// missing or the recorded length is out of bounds.
    pub fn get_raw_packet_slice(&self) -> (r: Option<(&[u8], u64)>)
        requires
            self.wf(),
            self.hdr.start_seq <= u64::MAX - 100,
        ensures
            self.spec_recv_finished() ==> r is None,
            r matches Some(p) ==> !self.spec_recv_finished() && p.1 >= self.hdr.start_seq,
    {
        let (seq, idx) = self.get_lost_packet_seq();
        if seq == 0 || idx >= self.ratio as usize || self.hdr.src_pkts_len[idx] as usize
            >= MAX_FEC_BUF_SIZE {
            return None;
        }
        proof {
            if self.spec_recv_finished() {
                assert(seq == 0);
            }
        }
        let l = self.hdr.src_pkts_len[idx] as usize;
        Some((slice_subrange(self.body.as_slice(), 0, l), seq))
    }

    /// The parity packet's total length on the wire.
    pub fn get_packet_len(&self) -> (r: usize)
        requires
            self.wf(),
        ensures
            r == self.real_len + FEC_HDR_SIZE,
    {
        self.real_len as usize + FEC_HDR_SIZE
    }

    /// The parity payload's length.
    pub fn get_payload_len(&self) -> (r: usize)
        ensures
            r == self.real_len,
    {
        self.real_len as usize
    }

    /// The parity packet in wire form: the header, then the fold up to the
    /// longest payload seen.
    pub fn to_packet_bytes(&self) -> (r: Vec<u8>)
        requires
            self.wf(),
        ensures
            r@.len() == FEC_HDR_SIZE + self.real_len,
            r@.subrange(FEC_HDR_SIZE as int, r@.len() as int) == self.body@.subrange(
                0,
                self.real_len as int,
            ),
    {
        let mut out = u64_to_le_bytes(self.hdr.start_seq);
        out.push(self.hdr.src_pkts_num);
        out.push(self.hdr.alg_type);
        let mut w = u16_to_le_bytes(self.hdr.max_pkt_len);
        out.append(&mut w);
        let mut i: usize = 0;
        while i < MAX_FEC_RATIO
            invariant
                i <= MAX_FEC_RATIO,
                self.hdr.src_pkts_len@.len() == MAX_FEC_RATIO,
                out@.len() == 12 + 2 * i,
            decreases MAX_FEC_RATIO - i,
        {
            let mut w2 = u16_to_le_bytes(self.hdr.src_pkts_len[i]);
            out.append(&mut w2);
            i = i + 1;
        }
        let n = self.real_len as usize;
        let mut j: usize = 0;
        while j < n
            invariant
                j <= n,
                n <= self.body@.len(),
                out@.len() == FEC_HDR_SIZE + j,
                forall|k: int| 0 <= k < j ==> out@[FEC_HDR_SIZE + k] == self.body@[k],
            decreases n - j,
        {
            out.push(self.body[j]);
            j = j + 1;
        }
        proof {
            assert(out@.subrange(FEC_HDR_SIZE as int, out@.len() as int) =~= self.body@.subrange(
                0,
                self.real_len as int,
            ));
        }
        out
    }

    /// How many source packets of the group have arrived.
    pub fn get_recv_pkt_count(&self) -> (r: usize)
        requires
            self.wf(),
        ensures
            r == count_true(self.src_pkts_added@),
    {
        let mut count: usize = 0;
        let mut i: usize = 0;
        proof {
            lemma_count_prefix(self.src_pkts_added@, 0);
        }
        while i < MAX_FEC_RATIO
            invariant
                i <= MAX_FEC_RATIO,
                self.src_pkts_added@.len() == MAX_FEC_RATIO,
                count == count_true(self.src_pkts_added@.subrange(0, i as int)),
                count <= i,
            decreases MAX_FEC_RATIO - i,
        {
            if self.src_pkts_added[i] {
                count = count + 1;
            }
            proof {
                assert(self.src_pkts_added@.subrange(0, i + 1 as int).drop_last()
                    =~= self.src_pkts_added@.subrange(0, i as int));
            }
            i = i + 1;
        }
        proof {
            assert(self.src_pkts_added@.subrange(0, MAX_FEC_RATIO as int)
                =~= self.src_pkts_added@);
        }
        count
    }

    /// Whether the parity packet has arrived.
    pub fn is_fec_pkt_recved(&self) -> (r: bool)
        ensures
            r == self.fec_exist,
    {
        self.fec_exist
    }

    /// The first sequence of the current group.
    pub fn get_start_seq(&self) -> (r: u64)
        ensures
            r == self.hdr.start_seq,
    {
        self.hdr.start_seq
    }

    /// A field-for-field copy of the session.
    pub fn clone_packet(&self) -> (r: Self)
        requires
            self.wf(),
        ensures
            r.wf(),
            r.hdr.start_seq == self.hdr.start_seq,
            r.hdr.src_pkts_num == self.hdr.src_pkts_num,
            r.hdr.alg_type == self.hdr.alg_type,
            r.hdr.max_pkt_len == self.hdr.max_pkt_len,
            r.hdr.src_pkts_len@ == self.hdr.src_pkts_len@,
            r.body@ == self.body@,
            r.real_len == self.real_len,
            r.fec_type == self.fec_type,
            r.ratio == self.ratio,
            r.src_pkts_added@ == self.src_pkts_added@,
            r.fec_exist == self.fec_exist,
    {
        Self {
            hdr: fec_header_t {
                start_seq: self.hdr.start_seq,
                src_pkts_num: self.hdr.src_pkts_num,
                alg_type: self.hdr.alg_type,
                max_pkt_len: self.hdr.max_pkt_len,
                src_pkts_len: copy_u16s(&self.hdr.src_pkts_len),
            },
            body: copy_u8s(&self.body),
            real_len: self.real_len,
            fec_type: self.fec_type,
            ratio: self.ratio,
            src_pkts_added: copy_bools(&self.src_pkts_added),
            fec_exist: self.fec_exist,
        }
    }
}

/// How many group sessions the streaming decoder keeps in flight.
pub const MAX_FEC_PACKET_IN_STREAM: usize = 16;

/// Streaming FEC receive: a window of consecutive decoder sessions that
/// advances as higher sequences arrive, recovering a lost packet whenever a
/// group completes.
pub struct fec_decoder_stream_t {
    pub fecs: Vec<fec_packet_t>,
    pub start_idx: usize,
    pub start_seq: u64,
    pub ratio: u8,
    pub max_seq: u64,
    pub fec_buf: Vec<u8>,
}

impl fec_decoder_stream_t {
    /// Sixteen well-formed decoder sessions of one group size, a window
    /// position inside the ring, and sequences with room to advance.
    pub open spec fn wf(&self) -> bool {
        &&& self.fecs@.len() == MAX_FEC_PACKET_IN_STREAM
        &&& forall|i: int|
            0 <= i < MAX_FEC_PACKET_IN_STREAM ==> (#[trigger] self.fecs@[i]).wf()
                && self.fecs@[i].ratio == self.ratio
        &&& self.start_idx < MAX_FEC_PACKET_IN_STREAM
        &&& 1 <= self.ratio <= MAX_FEC_RATIO
        &&& self.fec_buf@.len() == MAX_FEC_BUF_SIZE
        &&& self.start_seq <= 0x4000000000000000
        &&& self.max_seq <= 0x4000000000000100
        &&& forall|i: int|
            0 <= i < MAX_FEC_PACKET_IN_STREAM ==> (#[trigger] self.fecs@[i]).hdr.start_seq
                <= 0x4000000000000100
    }

    /// A stream starting at the given sequence, in groups of `ratio`.
    pub fn new(start_seq: u64, ratio: u8) -> (r: fec_decoder_stream_t)
        requires
            1 <= ratio <= MAX_FEC_RATIO,
            start_seq <= 0x2000000000000000,
        ensures
            r.wf(),
            r.start_seq == start_seq,
            r.ratio == ratio,
            r.start_idx == 0,
            r.max_seq == start_seq + 16 * ratio - 1,
    {
        let mut fecs: Vec<fec_packet_t> = Vec::new();
        let mut i: usize = 0;
        while i < MAX_FEC_PACKET_IN_STREAM
            invariant
                i <= MAX_FEC_PACKET_IN_STREAM,
                fecs@.len() == i,
                1 <= ratio <= MAX_FEC_RATIO,
                start_seq <= 0x2000000000000000,
                forall|j: int|
                    0 <= j < i ==> (#[trigger] fecs@[j]).wf() && fecs@[j].ratio == ratio
                        && fecs@[j].hdr.start_seq <= 0x4000000000000100,
            decreases MAX_FEC_PACKET_IN_STREAM - i,
        {
            proof {
                assert((i as u64) * (ratio as u64) <= 160) by (nonlinear_arith)
                    requires
                        i < 16,
                        ratio <= 10,
                ;
            }
            let mut f = fec_packet_t::new();
            f.start_decoder(start_seq + (i as u64) * (ratio as u64), ratio);
            fecs.push(f);
            i = i + 1;
        }
        let mut stream = fec_decoder_stream_t {
            fecs,
            start_idx: 0,
            start_seq,
            ratio,
            max_seq: 0,
            fec_buf: make_body(),
        };
        stream.max_seq = start_seq + (MAX_FEC_PACKET_IN_STREAM as u64) * (ratio as u64) - 1;
        stream
    }

    /// Restart the stream at a new base sequence.
    pub fn start(&mut self, start_seq: u64, ratio: u8)
        requires
            old(self).wf(),
            1 <= ratio <= MAX_FEC_RATIO,
            start_seq <= 0x2000000000000000,
        ensures
            final(self).wf(),
            final(self).start_seq == start_seq,
            final(self).ratio == ratio,
            final(self).max_seq == start_seq + 16 * ratio - 1,
    {
        let fresh = Self::new(start_seq, ratio);
        *self = fresh;
    }

    /// Retire every finished session at the head of the window, each retired
    /// slot restarting one group past the current window end.
    pub fn cleanup(&mut self)
        requires
            old(self).wf(),
            old(self).start_seq <= 0x2000000000000000,
            old(self).max_seq <= 0x2000000000000000,
        ensures
            final(self).wf(),
            final(self).ratio == old(self).ratio,
            final(self).start_seq >= old(self).start_seq,
            final(self).start_seq <= old(self).start_seq + 160,
            final(self).max_seq <= old(self).max_seq + 160,
    {
        let mut k: usize = 0;
        let mut stop = false;
        while k < MAX_FEC_PACKET_IN_STREAM && !stop
            invariant
                k <= MAX_FEC_PACKET_IN_STREAM,
                self.wf(),
                self.ratio == old(self).ratio,
                self.start_seq >= old(self).start_seq,
                self.start_seq <= old(self).start_seq + 10 * k,
                self.max_seq <= old(self).max_seq + 10 * k,
                old(self).max_seq <= 0x2000000000000000,
                old(self).start_seq <= 0x2000000000000000,
            decreases MAX_FEC_PACKET_IN_STREAM - k + (if stop { 0int } else { 1int }),
        {
            let idx = self.start_idx;
            if self.fecs[idx].is_fec_finished() {
                self.start_seq = self.start_seq + self.ratio as u64;
                let next_seq = self.max_seq + 1;
                let ratio = self.ratio;
                let mut slot = fec_packet_t::new();
                slot.start_decoder(next_seq, ratio);
                self.fecs.set(idx, slot);
                self.max_seq = self.max_seq + ratio as u64;
                self.start_idx = (idx + 1) % MAX_FEC_PACKET_IN_STREAM;
                proof {
                    assert((idx + 1) as int % 16 < 16) by (nonlinear_arith);
                }
            } else {
                stop = true;
            }
            k = k + 1;
        }
    }

    /// The ring slot whose session covers a sequence.
    pub fn get_index_by_seq(&self, seq: u64) -> (r: usize)
        requires
            self.wf(),
            seq <= 0x4000000000000000,
        ensures
            r < MAX_FEC_PACKET_IN_STREAM,
    {
        if seq < self.start_seq {
            return 0;
        }
        let off = ((seq - self.start_seq) / self.ratio as u64) as usize;
        let wrapped = off % MAX_FEC_PACKET_IN_STREAM;
        proof {
            assert(off as int % 16 < 16) by (nonlinear_arith);
            assert((wrapped + self.start_idx) as int % 16 < 16) by (nonlinear_arith)
                requires
                    wrapped < 16,
                    self.start_idx < 16,
            ;
        }
        (wrapped + self.start_idx) % MAX_FEC_PACKET_IN_STREAM
    }

    /// How many sequences the in-flight window spans.
    pub fn seq_window_len(&self) -> (r: u64)
        requires
            self.wf(),
        ensures
            r == self.ratio * MAX_FEC_PACKET_IN_STREAM,
    {
        self.ratio as u64 * MAX_FEC_PACKET_IN_STREAM as u64
    }

    /// Whether an arriving group-end sequence is out of step with the
    /// stream's group alignment, so that the stream must resynchronize.
    pub fn need_resync(&self, recv_seq: u64) -> (r: bool)
        requires
            self.wf(),
            recv_seq <= 0x2000000000000000,
    {
        if recv_seq < self.start_seq {
            if recv_seq + self.seq_window_len() < self.start_seq || (self.start_seq - recv_seq + 1)
                % self.ratio as u64 != 0 {
                return true;
            }
            return false;
        } else if (recv_seq - self.start_seq + 1) % self.ratio as u64 != 0 {
            return true;
        }
        false
    }

    /// Slide the window forward so that it covers a sequence; far jumps
    /// restart the stream at the sequence's group.
    fn move_to_seq(&mut self, new_seq: u64)
        requires
            old(self).wf(),
            new_seq <= 0x1000000000000000,
            old(self).start_seq <= 0x1000000000000000,
            old(self).max_seq <= 0x1000000000000000,
        ensures
            final(self).wf(),
            final(self).ratio == old(self).ratio,
            final(self).start_seq <= 0x1000000000000200,
            final(self).max_seq <= 0x1000000000000200,
    {
        self.cleanup();
        if new_seq <= self.max_seq {
            return ;
        }
        if new_seq - self.max_seq >= self.seq_window_len() {
            proof {
                assert(new_seq / (self.ratio as u64) * (self.ratio as u64) <= new_seq)
                    by (nonlinear_arith)
                    requires
                        self.ratio >= 1,
                        new_seq >= 0,
                ;
            }
            let base = new_seq / self.ratio as u64 * self.ratio as u64;
            let ratio = self.ratio;
            self.start(base, ratio);
            return ;
        }
        let mut guard: usize = 0;
        while guard < MAX_FEC_PACKET_IN_STREAM && self.max_seq < new_seq
            invariant
                self.wf(),
                self.ratio == old(self).ratio,
                guard <= MAX_FEC_PACKET_IN_STREAM,
                self.start_seq <= 0x1000000000000000 + 320 + 10 * guard,
                self.max_seq <= 0x1000000000000000 + 320 + 10 * guard,
            decreases MAX_FEC_PACKET_IN_STREAM - guard,
        {
            let idx = self.start_idx;
            self.start_seq = self.start_seq + self.ratio as u64;
            let next_seq = self.max_seq + 1;
            let ratio = self.ratio;
            let mut slot = fec_packet_t::new();
            slot.start_decoder(next_seq, ratio);
            self.fecs.set(idx, slot);
            self.max_seq = self.max_seq + ratio as u64;
            self.start_idx = (idx + 1) % MAX_FEC_PACKET_IN_STREAM;
            proof {
                assert((idx + 1) as int % 16 < 16) by (nonlinear_arith);
            }
            guard = guard + 1;
        }
    }

    /// Feed one parity packet. A sequence out of group step resynchronizes
    /// the stream and reports `NO_OP`; one below the window is refused with
    /// `INVALID_MSG`; otherwise the covering session takes it, and when the
    /// group completes the recovered packet and its sequence come back.
    pub fn add_fec_packet(&mut self, seq: u64, pkt: &[u8]) -> (r: Result<
        (&[u8], u64),
        errcode::RESULT,
    >)
        requires
            old(self).wf(),
            seq <= 0x1000000000000000,
            old(self).start_seq <= 0x1000000000000000,
            old(self).max_seq <= 0x1000000000000000,
        ensures
            final(self).wf(),
            final(self).ratio == old(self).ratio,
    {
        if self.need_resync(seq) {
            let base = if seq <= 0x2000000000000000 - 1 {
                seq + 1
            } else {
                seq
            };
            let ratio = self.ratio;
            self.start(base, ratio);
            return Err(errcode::ERROR_NO_OP);
        }
        if seq < self.start_seq {
            return Err(errcode::ERROR_INVALID_MSG);
        }
        if seq > self.max_seq {
            self.move_to_seq(seq);
        }
        let idx = self.get_index_by_seq(seq);
        let mut slot = self.fecs[idx].clone_packet();
        let add_res = slot.add_fec_packet(seq, pkt);
        self.fecs.set(idx, slot);
        if add_res == errcode::RESULT_SUCCESS {
            let recovered_len = self.copy_recovered(idx);
            match recovered_len {
                Some((len, rseq)) => {
                    self.cleanup();
                    proof {
                        assert(len <= self.fec_buf@.len());
                    }
                    return Ok((slice_subrange(self.fec_buf.as_slice(), 0, len), rseq));
                },
                None => { return Err(errcode::ERROR_COMMON) },
            }
        }
        if self.fecs[idx].is_fec_finished() {
            self.cleanup();
        }
        Err(errcode::ERROR_NO_OP)
    }

    /// Feed one source packet; as `add_fec_packet`, for the group member.
    pub fn add_raw_packet(&mut self, seq: u64, pkt: &[u8]) -> (r: Result<
        (&[u8], u64),
        errcode::RESULT,
    >)
        requires
            old(self).wf(),
            seq <= 0x1000000000000000,
            old(self).start_seq <= 0x1000000000000000,
            old(self).max_seq <= 0x1000000000000000,
        ensures
            final(self).wf(),
            final(self).ratio == old(self).ratio,
    {
        if seq < self.start_seq {
            return Err(errcode::ERROR_INVALID_MSG);
        }
        if seq > self.max_seq {
            self.move_to_seq(seq);
        }
        let idx = self.get_index_by_seq(seq);
        let mut slot = self.fecs[idx].clone_packet();
        let add_res = slot.add_raw_packet(seq, pkt);
        self.fecs.set(idx, slot);
        if add_res == errcode::RESULT_SUCCESS {
            let recovered_len = self.copy_recovered(idx);
            match recovered_len {
                Some((len, rseq)) => {
                    self.cleanup();
                    proof {
                        assert(len <= self.fec_buf@.len());
                    }
                    return Ok((slice_subrange(self.fec_buf.as_slice(), 0, len), rseq));
                },
                None => { return Err(errcode::ERROR_COMMON) },
            }
        }
        if self.fecs[idx].is_fec_finished() {
            self.cleanup();
        }
        Err(errcode::ERROR_NO_OP)
    }

    /// Copy the slot's recovered packet into the scratch buffer, yielding
    /// its length and sequence.
    fn copy_recovered(&mut self, idx: usize) -> (r: Option<(usize, u64)>)
        requires
            old(self).wf(),
            idx < MAX_FEC_PACKET_IN_STREAM,
        ensures
            final(self).wf(),
            final(self).ratio == old(self).ratio,
            final(self).start_seq == old(self).start_seq,
            final(self).max_seq == old(self).max_seq,
            r matches Some(p) ==> p.0 <= MAX_FEC_BUF_SIZE,
    {
        let (rlen, rseq) = {
            let slot = &self.fecs[idx];
            match slot.get_raw_packet_slice() {
                None => { return None },
                Some((pkt, rseq)) => {
                    let mut tmp: Vec<u8> = Vec::new();
                    let n = pkt.len();
                    let mut i: usize = 0;
                    while i < n
                        invariant
                            i <= n,
                            n == pkt@.len(),
                            tmp@.len() == i,
                        decreases n - i,
                    {
                        tmp.push(pkt[i]);
                        i = i + 1;
                    }
                    (tmp, rseq)
                },
            }
        };
        if rlen.len() > MAX_FEC_BUF_SIZE {
            return None;
        }
        let n = rlen.len();
        let mut i: usize = 0;
        while i < n
            invariant
                i <= n,
                n == rlen@.len(),
                n <= MAX_FEC_BUF_SIZE,
                self.fec_buf@.len() == MAX_FEC_BUF_SIZE,
                self.fecs@ == old(self).fecs@,
                self.start_idx == old(self).start_idx,
                self.start_seq == old(self).start_seq,
                self.max_seq == old(self).max_seq,
                self.ratio == old(self).ratio,
                old(self).wf(),
            decreases n - i,
        {
            let b = rlen[i];
            self.fec_buf.set(i, b);
            i = i + 1;
        }
        Some((n, rseq))
    }

    pub fn get_start_seq(&self) -> (r: u64)
        ensures
            r == self.start_seq,
    {
        self.start_seq
    }

    pub fn get_start_idx(&self) -> (r: usize)
        ensures
            r == self.start_idx,
    {
        self.start_idx
    }
}

fn copy_u8s(v: &Vec<u8>) -> (r: Vec<u8>)
    ensures
        r@ == v@,
{
    let mut out: Vec<u8> = Vec::new();
    let n = v.len();
    let mut i: usize = 0;
    while i < n
        invariant
            i <= n,
            n == v@.len(),
            out@ =~= v@.subrange(0, i as int),
        decreases n - i,
    {
        out.push(v[i]);
        proof {
            assert(out@ =~= v@.subrange(0, i + 1 as int));
        }
        i = i + 1;
    }
    proof {
        assert(v@.subrange(0, n as int) =~= v@);
    }
    out
}

fn copy_u16s(v: &Vec<u16>) -> (r: Vec<u16>)
    ensures
        r@ == v@,
{
    let mut out: Vec<u16> = Vec::new();
    let n = v.len();
    let mut i: usize = 0;
    while i < n
        invariant
            i <= n,
            n == v@.len(),
            out@ =~= v@.subrange(0, i as int),
        decreases n - i,
    {
        out.push(v[i]);
        proof {
            assert(out@ =~= v@.subrange(0, i + 1 as int));
        }
        i = i + 1;
    }
    proof {
        assert(v@.subrange(0, n as int) =~= v@);
    }
    out
}

fn copy_bools(v: &Vec<bool>) -> (r: Vec<bool>)
    ensures
        r@ == v@,
{
    let mut out: Vec<bool> = Vec::new();
    let n = v.len();
    let mut i: usize = 0;
    while i < n
        invariant
            i <= n,
            n == v@.len(),
            out@ =~= v@.subrange(0, i as int),
        decreases n - i,
    {
        out.push(v[i]);
        proof {
            assert(out@ =~= v@.subrange(0, i + 1 as int));
        }
        i = i + 1;
    }
    proof {
        assert(v@.subrange(0, n as int) =~= v@);
    }
    out
}

fn make_body() -> (r: Vec<u8>)
    ensures
        r@.len() == MAX_FEC_BUF_SIZE,
        forall|i: int| 0 <= i < MAX_FEC_BUF_SIZE ==> (#[trigger] r@[i]) == 0u8,
{
    let mut v: Vec<u8> = Vec::new();
    let mut i: usize = 0;
    while i < MAX_FEC_BUF_SIZE
        invariant
            i <= MAX_FEC_BUF_SIZE,
            v@.len() == i,
            forall|j: int| 0 <= j < i ==> (#[trigger] v@[j]) == 0u8,
        decreases MAX_FEC_BUF_SIZE - i,
    {
        v.push(0);
        i = i + 1;
    }
    v
}

fn make_flags() -> (r: Vec<bool>)
    ensures
        r@.len() == MAX_FEC_RATIO,
        forall|i: int| 0 <= i < MAX_FEC_RATIO ==> !(#[trigger] r@[i]),
{
    let mut v: Vec<bool> = Vec::new();
    let mut i: usize = 0;
    while i < MAX_FEC_RATIO
        invariant
            i <= MAX_FEC_RATIO,
            v@.len() == i,
            forall|j: int| 0 <= j < i ==> !(#[trigger] v@[j]),
        decreases MAX_FEC_RATIO - i,
    {
        v.push(false);
        i = i + 1;
    }
    v
}

fn make_u16s() -> (r: Vec<u16>)
    ensures
        r@.len() == MAX_FEC_RATIO,
        forall|i: int| 0 <= i < MAX_FEC_RATIO ==> (#[trigger] r@[i]) == 0u16,
{
    let mut v: Vec<u16> = Vec::new();
    let mut i: usize = 0;
    while i < MAX_FEC_RATIO
        invariant
            i <= MAX_FEC_RATIO,
            v@.len() == i,
            forall|j: int| 0 <= j < i ==> (#[trigger] v@[j]) == 0u16,
        decreases MAX_FEC_RATIO - i,
    {
        v.push(0);
        i = i + 1;
    }
    v
}

proof fn lemma_count_prefix(s: Seq<bool>, i: int)
    requires
        0 <= i <= s.len(),
    ensures
        i == 0 ==> count_true(s.subrange(0, 0)) == 0,
{
    assert(s.subrange(0, 0) =~= Seq::<bool>::empty());
}

/// When every flag from position k on is clear, the count of the prefix is
/// the count of the whole.
proof fn lemma_count_tail_false(s: Seq<bool>, k: int)
    requires
        0 <= k <= s.len(),
        forall|i: int| k <= i < s.len() ==> !(#[trigger] s[i]),
    ensures
        count_true(s.subrange(0, k)) == count_true(s),
    decreases s.len() - k,
{
    if k < s.len() {
        assert(s.subrange(0, k + 1).drop_last() =~= s.subrange(0, k));
        assert(count_true(s.subrange(0, k + 1)) == count_true(s.subrange(0, k)));
        lemma_count_tail_false(s, k + 1);
    } else {
        assert(s.subrange(0, k) =~= s);
    }
}

proof fn lemma_count_nonneg(s: Seq<bool>)
    ensures
        count_true(s) >= 0,
{
}

/// Updating one clear flag to set raises the count by one.
proof fn lemma_count_update_general(s: Seq<bool>, i: int, s2: Seq<bool>)
    requires
        0 <= i < s.len(),
        s2 == s.update(i, true),
        !s[i],
    ensures
        count_true(s2) == count_true(s) + 1,
{
    crate::common::bitmap::lemma_count_update(s, i, true);
}

} // verus!