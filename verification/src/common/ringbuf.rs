//! A bounded FIFO byte buffer: data is appended at the tail and drained from
//! the head, so application messages can be reassembled from a stream.

use vstd::prelude::*;
use std::collections::VecDeque;
use crate::common::errcode;
use vstd::slice::SliceAdditionalExecFns;

verus! {

pub struct ring_buffer_t {
    pub inner: VecDeque<u8>,
    pub size: usize,
}

impl ring_buffer_t {
    /// The buffered bytes, oldest first.
    pub open spec fn view(&self) -> Seq<u8> {
        self.inner@
    }

    pub open spec fn wf(&self) -> bool {
        self.inner@.len() <= self.size
    }

    /// An empty buffer of the given capacity.
    pub fn new(capacity: usize) -> (r: Option<Self>)
        ensures
            r matches Some(b) && b.wf() && b@ == Seq::<u8>::empty() && b.size == capacity,
    {
        Some(Self { inner: VecDeque::new(), size: capacity })
    }

    /// Number of buffered bytes.
    pub fn len(&self) -> (r: usize)
        ensures
            r == self@.len(),
    {
        self.inner.len()
    }

    /// Room left before the capacity is reached.
    pub fn buffer_available(&self) -> (r: usize)
        requires
            self.wf(),
        ensures
            r == self.size - self@.len(),
    {
        self.size - self.inner.len()
    }

    /// Append a block at the tail. Refused with `OUT_OF_MEM` when it does
    /// not fit and with `NO_DATA` when it is empty.
    pub fn put_data(&mut self, buf: &[u8]) -> (res: errcode::RESULT)
        requires
            old(self).wf(),
        ensures
            final(self).wf(),
            final(self).size == old(self).size,
            buf@.len() > old(self).size - old(self)@.len() ==> res == errcode::ERROR_OUTOF_MEM
                && final(self)@ == old(self)@,
            buf@.len() == 0 && buf@.len() <= old(self).size - old(self)@.len() ==> res
                == errcode::ERROR_NO_DATA && final(self)@ == old(self)@,
            buf@.len() > 0 && buf@.len() <= old(self).size - old(self)@.len() ==> res
                == errcode::RESULT_SUCCESS && final(self)@ == old(self)@ + buf@,
    {
        if buf.len() > self.buffer_available() {
            return errcode::ERROR_OUTOF_MEM;
        }
        if buf.len() == 0 {
            return errcode::ERROR_NO_DATA;
        }
        let n = buf.len();
        let mut i: usize = 0;
        while i < n
            invariant
                i <= n,
                n == buf@.len(),
                self.size == old(self).size,
                self.inner@ =~= old(self)@ + buf@.subrange(0, i as int),
                old(self)@.len() + n <= self.size,
            decreases n - i,
        {
            self.inner.push_back(buf[i]);
            proof {
                assert(self.inner@ =~= old(self)@ + buf@.subrange(0, i + 1 as int));
            }
            i = i + 1;
        }
        proof {
            assert(buf@.subrange(0, n as int) =~= buf@);
        }
        errcode::RESULT_SUCCESS
    }

    /// Drain up to `max_len` bytes from the head into the scratch buffer.
    /// `NO_DATA` when the buffer is empty, `BUFFER_TOO_SMALL` when the
    /// scratch buffer is; otherwise the drained count is the least of the
    /// request, the scratch space, and what is buffered, those bytes land at
    /// the front of the scratch buffer, and they leave the ring.
    pub fn pull_data(&mut self, max_len: usize, buf: &mut [u8]) -> (r: Result<
        usize,
        errcode::RESULT,
    >)
        requires
            old(self).wf(),
        ensures
            final(self).wf(),
            final(self).size == old(self).size,
            final(buf)@.len() == old(buf)@.len(),
            old(self)@.len() == 0 ==> r == Result::<usize, errcode::RESULT>::Err(
                errcode::ERROR_NO_DATA,
            ) && final(self)@ == old(self)@ && final(buf)@ == old(buf)@,
            old(self)@.len() > 0 && old(buf)@.len() == 0 ==> r == Result::<
                usize,
                errcode::RESULT,
            >::Err(errcode::ERROR_BUFFER_TOO_SMALL) && final(self)@ == old(self)@ && final(buf)@
                == old(buf)@,
            old(self)@.len() > 0 && old(buf)@.len() > 0 ==> ({
                let n = vstd::math::min(
                    vstd::math::min(max_len as int, old(buf)@.len() as int),
                    old(self)@.len() as int,
                );
                &&& r == Result::<usize, errcode::RESULT>::Ok(n as usize)
                &&& final(self)@ == old(self)@.skip(n)
                &&& final(buf)@.subrange(0, n) == old(self)@.take(n)
                &&& final(buf)@.skip(n) == old(buf)@.skip(n)
            }),
    {
        if self.inner.len() == 0 {
            return Err(errcode::ERROR_NO_DATA);
        }
        if buf.len() == 0 {
            return Err(errcode::ERROR_BUFFER_TOO_SMALL);
        }
        let req_len = if max_len < buf.len() {
            max_len
        } else {
            buf.len()
        };
        let data_len = if req_len < self.inner.len() {
            req_len
        } else {
            self.inner.len()
        };
        let mut i: usize = 0;
        while i < data_len
            invariant
                i <= data_len,
                data_len <= old(buf)@.len(),
                data_len <= old(self)@.len(),
                buf@.len() == old(buf)@.len(),
                self.size == old(self).size,
                self.inner@ =~= old(self)@.skip(i as int),
                forall|j: int| 0 <= j < i ==> buf@[j] == old(self)@[j],
                forall|j: int| i <= j < buf@.len() ==> buf@[j] == old(buf)@[j],
            decreases data_len - i,
        {
            let b = match self.inner.pop_front() {
                Some(b) => b,
                None => { return Err(errcode::ERROR_NO_DATA) },
            };
            buf[i] = b;
            proof {
                assert(self.inner@ =~= old(self)@.skip(i + 1 as int));
            }
            i = i + 1;
        }
        proof {
            assert(final(buf)@.subrange(0, data_len as int) =~= old(self)@.take(data_len as int));
            assert(final(buf)@.skip(data_len as int) =~= old(buf)@.skip(data_len as int));
        }
        Ok(data_len)
    }

    /// Copy bytes from an offset into the scratch buffer without removing
    /// them. `NO_DATA` when the offset is at or past the end; otherwise the
    /// copied count is the least of what lies past the offset, the request,
    /// and the scratch space.
    pub fn peek_data(&self, offset: usize, max_len: usize, buf: &mut [u8]) -> (r: Result<
        usize,
        errcode::RESULT,
    >)
        requires
            self.wf(),
        ensures
            final(buf)@.len() == old(buf)@.len(),
            offset >= self@.len() ==> r == Result::<usize, errcode::RESULT>::Err(
                errcode::ERROR_NO_DATA,
            ) && final(buf)@ == old(buf)@,
            offset < self@.len() ==> ({
                let n = vstd::math::min(
                    (self@.len() - offset) as int,
                    vstd::math::min(max_len as int, old(buf)@.len() as int),
                );
                &&& r == Result::<usize, errcode::RESULT>::Ok(n as usize)
                &&& final(buf)@.subrange(0, n) == self@.subrange(offset as int, offset + n)
                &&& final(buf)@.skip(n) == old(buf)@.skip(n)
            }),
    {
        if offset >= self.inner.len() {
            return Err(errcode::ERROR_NO_DATA);
        }
        let avail = self.inner.len() - offset;
        let req = if max_len < buf.len() {
            max_len
        } else {
            buf.len()
        };
        let copy_len = if avail < req {
            avail
        } else {
            req
        };
        let mut i: usize = 0;
        while i < copy_len
            invariant
                i <= copy_len,
                offset + copy_len <= self.inner@.len(),
                self.inner@.len() <= self.size,
                self.size <= usize::MAX,
                copy_len <= buf@.len(),
                buf@.len() == old(buf)@.len(),
                forall|j: int| 0 <= j < i ==> buf@[j] == self.inner@[offset + j],
                forall|j: int| i <= j < buf@.len() ==> buf@[j] == old(buf)@[j],
            decreases copy_len - i,
        {
            let b = self.inner[offset + i];
            buf[i] = b;
            i = i + 1;
        }
        proof {
            assert(final(buf)@.subrange(0, copy_len as int) =~= self@.subrange(
                offset as int,
                offset + copy_len as int,
            ));
            assert(final(buf)@.skip(copy_len as int) =~= old(buf)@.skip(copy_len as int));
        }
        Ok(copy_len)
    }
}

/// The byte buffer behind a shared handle; access is serialized by the
/// runtime, and the meaning of each call is that of `ring_buffer_t`.
pub struct ts_ring_buffer_t {
    pub ring: ring_buffer_t,
}

impl ts_ring_buffer_t {
    pub open spec fn view(&self) -> Seq<u8> {
        self.ring@
    }

    pub open spec fn wf(&self) -> bool {
        self.ring.wf()
    }

    pub fn new(capacity: usize) -> (r: Option<Self>)
        ensures
            r matches Some(b) && b.wf() && b@ == Seq::<u8>::empty() && b.ring.size == capacity,
    {
        match ring_buffer_t::new(capacity) {
            None => None,
            Some(ring) => Some(Self { ring }),
        }
    }

    pub fn len(&self) -> (r: usize)
        ensures
            r == self@.len(),
    {
        self.ring.len()
    }

    pub fn buffer_available(&self) -> (r: usize)
        requires
            self.wf(),
        ensures
            r == self.ring.size - self@.len(),
    {
        self.ring.buffer_available()
    }

    pub fn put_data(&mut self, buf: &[u8]) -> (res: errcode::RESULT)
        requires
            old(self).wf(),
        ensures
            final(self).wf(),
            final(self).ring.size == old(self).ring.size,
            buf@.len() > old(self).ring.size - old(self)@.len() ==> res == errcode::ERROR_OUTOF_MEM
                && final(self)@ == old(self)@,
            buf@.len() == 0 && buf@.len() <= old(self).ring.size - old(self)@.len() ==> res
                == errcode::ERROR_NO_DATA && final(self)@ == old(self)@,
            buf@.len() > 0 && buf@.len() <= old(self).ring.size - old(self)@.len() ==> res
                == errcode::RESULT_SUCCESS && final(self)@ == old(self)@ + buf@,
    {
        self.ring.put_data(buf)
    }

    pub fn pull_data(&mut self, max_len: usize, buf: &mut [u8]) -> (r: Result<
        usize,
        errcode::RESULT,
    >)
        requires
            old(self).wf(),
        ensures
            final(self).wf(),
            final(self).ring.size == old(self).ring.size,
            final(buf)@.len() == old(buf)@.len(),
            old(self)@.len() == 0 ==> r == Result::<usize, errcode::RESULT>::Err(
                errcode::ERROR_NO_DATA,
            ) && final(self)@ == old(self)@ && final(buf)@ == old(buf)@,
            old(self)@.len() > 0 && old(buf)@.len() == 0 ==> r == Result::<
                usize,
                errcode::RESULT,
            >::Err(errcode::ERROR_BUFFER_TOO_SMALL) && final(self)@ == old(self)@ && final(buf)@
                == old(buf)@,
            old(self)@.len() > 0 && old(buf)@.len() > 0 ==> ({
                let n = vstd::math::min(
                    vstd::math::min(max_len as int, old(buf)@.len() as int),
                    old(self)@.len() as int,
                );
                &&& r == Result::<usize, errcode::RESULT>::Ok(n as usize)
                &&& final(self)@ == old(self)@.skip(n)
                &&& final(buf)@.subrange(0, n) == old(self)@.take(n)
                &&& final(buf)@.skip(n) == old(buf)@.skip(n)
            }),
    {
        self.ring.pull_data(max_len, buf)
    }

    pub fn peek_data(&self, offset: usize, max_len: usize, buf: &mut [u8]) -> (r: Result<
        usize,
        errcode::RESULT,
    >)
        requires
            self.wf(),
        ensures
            final(buf)@.len() == old(buf)@.len(),
            offset >= self@.len() ==> r == Result::<usize, errcode::RESULT>::Err(
                errcode::ERROR_NO_DATA,
            ) && final(buf)@ == old(buf)@,
            offset < self@.len() ==> ({
                let n = vstd::math::min(
                    (self@.len() - offset) as int,
                    vstd::math::min(max_len as int, old(buf)@.len() as int),
                );
                &&& r == Result::<usize, errcode::RESULT>::Ok(n as usize)
                &&& final(buf)@.subrange(0, n) == self@.subrange(offset as int, offset + n)
                &&& final(buf)@.skip(n) == old(buf)@.skip(n)
            }),
    {
        self.ring.peek_data(offset, max_len, buf)
    }
}

} // verus!
