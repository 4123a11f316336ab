//! A keyed table over the standard hash map, with insert-refuses-duplicates
//! semantics: inserting an existing key leaves the table unchanged and
//! reports `ALREADY_EXIST`.

use vstd::prelude::*;
use std::collections::HashMap;
use std::hash::Hash;
use crate::common::errcode;

verus! {

broadcast use vstd::std_specs::hash::group_hash_axioms;

pub struct TsHashMap<K: std::cmp::Eq + Hash, V> {
    pub inner: HashMap<K, V>,
    pub cap: usize,
}

impl<K: std::cmp::Eq + Hash, V> TsHashMap<K, V> {
    /// The table as a mathematical map.
    pub open spec fn view(&self) -> Map<K, V> {
        self.inner@
    }

    /// Contracts hold for keys the hash table models exactly (the integer
    /// and boolean key types).
    pub open spec fn wf(&self) -> bool {
        vstd::std_specs::hash::obeys_key_model::<K>()
    }

    /// An empty table; the capacity is a sizing hint.
    pub fn new(capacity: usize) -> (r: Self)
        ensures
            r@ == Map::<K, V>::empty(),
            r.cap == capacity,
    {
        Self { inner: HashMap::new(), cap: capacity }
    }

    /// An empty table; the capacity is a sizing hint.
    pub fn with_capacity(capacity: usize) -> (r: Self)
        ensures
            r@ == Map::<K, V>::empty(),
            r.cap == capacity,
    {
        Self::new(capacity)
    }

    /// The value under a key, if any.
    pub fn get(&self, k: &K) -> (r: Option<&V>)
        requires
            self.wf(),
        ensures
            self@.contains_key(*k) ==> (r matches Some(v) && *v == self@[*k]),
            !self@.contains_key(*k) ==> r is None,
    {
        self.inner.get(k)
    }

    pub fn contains_key(&self, k: &K) -> (r: bool)
        requires
            self.wf(),
        ensures
            r == self@.contains_key(*k),
    {
        self.inner.contains_key(k)
    }

    pub fn is_exist(&self, k: &K) -> (r: bool)
        requires
            self.wf(),
        ensures
            r == self@.contains_key(*k),
    {
        self.inner.contains_key(k)
    }

    /// Insert a new binding. A key already present is refused with
    /// `ALREADY_EXIST`, its old value kept.
    pub fn insert(&mut self, k: K, v: V) -> (res: errcode::RESULT)
        requires
            old(self).wf(),
        ensures
            final(self).wf(),
            final(self).cap == old(self).cap,
            !old(self)@.contains_key(k) ==> res == errcode::RESULT_SUCCESS && final(self)@ == old(
                self,
            )@.insert(k, v),
            old(self)@.contains_key(k) ==> res == errcode::ERROR_ALREADY_EXIST && final(self)@
                == old(self)@.insert(k, old(self)@[k]),
    {
        if self.inner.contains_key(&k) {
            proof {
                assert(old(self)@.insert(k, old(self)@[k]) =~= old(self)@);
            }
            return errcode::ERROR_ALREADY_EXIST;
        }
        self.inner.insert(k, v);
        errcode::RESULT_SUCCESS
    }

    /// Remove a binding, yielding its value if the key was present.
    pub fn remove(&mut self, k: &K) -> (r: Option<V>)
        requires
            old(self).wf(),
        ensures
            final(self).wf(),
            final(self).cap == old(self).cap,
            final(self)@ == old(self)@.remove(*k),
            old(self)@.contains_key(*k) ==> (r matches Some(v) && v == old(self)@[*k]),
            !old(self)@.contains_key(*k) ==> r is None,
    {
        self.inner.remove(k)
    }

    /// Number of bindings.
    pub fn len(&self) -> (r: usize)
        requires
            self.wf(),
        ensures
            r == self@.len(),
    {
        self.inner.len()
    }

    /// The sizing hint the table was created with.
    pub fn capacity(&self) -> (r: usize)
        ensures
            r == self.cap,
    {
        self.cap
    }

    /// Drop every binding.
    pub fn clear(&mut self)
        requires
            old(self).wf(),
        ensures
            final(self).wf(),
            final(self).cap == old(self).cap,
            final(self)@ == Map::<K, V>::empty(),
    {
        self.inner.clear();
    }
}

} // verus!
