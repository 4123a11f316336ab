//! An unbounded double-ended queue over the standard `VecDeque`, as the
//! runtime's general-purpose work queue.

use vstd::prelude::*;
use std::collections::VecDeque;

verus! {

pub struct TsDequeue<T> {
    pub inner: VecDeque<T>,
    pub cap: usize,
}

impl<T> TsDequeue<T> {
    /// The queued elements, front first.
    pub open spec fn view(&self) -> Seq<T> {
        self.inner@
    }

    /// An empty queue; the capacity is a sizing hint.
    pub fn new(capacity: usize) -> (r: Self)
        ensures
            r@ == Seq::<T>::empty(),
            r.cap == capacity,
    {
        Self { inner: VecDeque::new(), cap: capacity }
    }

    /// Append at the tail.
    pub fn push_back(&mut self, v: T)
        ensures
            final(self)@ == old(self)@.push(v),
            final(self).cap == old(self).cap,
    {
        self.inner.push_back(v);
    }

    /// Prepend at the head.
    pub fn push_front(&mut self, v: T)
        ensures
            final(self)@ == seq![v] + old(self)@,
            final(self).cap == old(self).cap,
    {
        self.inner.push_front(v);
    }

    /// Remove and yield the tail element, if any.
    pub fn pop_back(&mut self) -> (r: Option<T>)
        ensures
            final(self).cap == old(self).cap,
            old(self)@.len() == 0 ==> r is None && final(self)@ == old(self)@,
            old(self)@.len() > 0 ==> r == Some(old(self)@.last()) && final(self)@ == old(
                self,
            )@.drop_last(),
    {
        self.inner.pop_back()
    }

    /// Remove and yield the head element, if any.
    pub fn pop_front(&mut self) -> (r: Option<T>)
        ensures
            final(self).cap == old(self).cap,
            old(self)@.len() == 0 ==> r is None && final(self)@ == old(self)@,
            old(self)@.len() > 0 ==> r == Some(old(self)@[0]) && final(self)@ == old(
                self,
            )@.subrange(1, old(self)@.len() as int),
    {
        self.inner.pop_front()
    }

    /// Number of queued elements.
    pub fn len(&self) -> (r: usize)
        ensures
            r == self@.len(),
    {
        self.inner.len()
    }

    /// The sizing hint the queue was created with.
    pub fn capacity(&self) -> (r: usize)
        ensures
            r == self.cap,
    {
        self.cap
    }
}

} // verus!
