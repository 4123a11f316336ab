//! A priority queue over a sorted vector, as the shortest-path search uses:
//! lowest (priority, node) pair first, with a moving start index instead of
//! removal.

use vstd::prelude::*;
use vstd::multiset::Multiset;

verus! {

#[derive(Clone, Copy, Debug, PartialEq, Eq, Structural)]
pub struct node_cost_t {
    pub node_idx: usize,
    pub priority: u32,
}

/// The order the queue keeps: by priority, then by node index.
pub open spec fn spec_le(a: node_cost_t, b: node_cost_t) -> bool {
    a.priority < b.priority || (a.priority == b.priority && a.node_idx <= b.node_idx)
}

/// Whether the live region of the data is sorted.
pub open spec fn spec_sorted(s: Seq<node_cost_t>) -> bool {
    forall|i: int, j: int| 0 <= i < j < s.len() ==> spec_le(#[trigger] s[i], #[trigger] s[j])
}

pub struct priority_queue_t {
    pub start_idx: usize,
    pub data: Vec<node_cost_t>,
}

impl priority_queue_t {
    /// The live elements, from the start index on.
    pub open spec fn view(&self) -> Seq<node_cost_t> {
        self.data@.subrange(self.start_idx as int, self.data@.len() as int)
    }

    pub open spec fn wf(&self) -> bool {
        self.start_idx <= self.data@.len()
    }

    /// An empty queue.
    pub fn new() -> (r: Self)
        ensures
            r.wf(),
            r@.len() == 0,
    {
        Self { start_idx: 0, data: Vec::new() }
    }

    /// Insert an element, keeping the live region sorted (when it was).
    pub fn push(&mut self, node_id: usize, prio: u32)
        requires
            old(self).wf(),
        ensures
            final(self).wf(),
            final(self)@.len() == old(self)@.len() + 1,
            final(self)@.to_multiset() == old(self)@.to_multiset().insert(
                node_cost_t { node_idx: node_id, priority: prio },
            ),
            spec_sorted(old(self)@) ==> spec_sorted(final(self)@),
            final(self).start_idx == old(self).start_idx,
    {
        let item = node_cost_t { node_idx: node_id, priority: prio };
        let n = self.data.len();
        let mut pos: usize = self.start_idx;
        let mut stop = false;
        while pos < n && !stop
            invariant
                self.start_idx <= pos <= n,
                n == self.data@.len(),
                item == (node_cost_t { node_idx: node_id, priority: prio }),
                forall|k: int| self.start_idx <= k < pos ==> spec_le(#[trigger] self.data@[k], item),
                stop ==> pos < n && spec_le(item, self.data@[pos as int]),
            decreases n - pos + (if stop { 0int } else { 1int }),
        {
            let cur = self.data[pos];
            if cur.priority < prio || (cur.priority == prio && cur.node_idx <= node_id) {
                pos = pos + 1;
            } else {
                stop = true;
            }
        }
        proof {
            if pos < n {
                assert(spec_le(item, self.data@[pos as int]));
            }
        }
        self.data.insert(pos, item);
        proof {
            let s_old = old(self)@;
            let s_new = self@;
            let p = pos - self.start_idx;
            assert(s_new =~= s_old.subrange(0, p as int).push(item) + s_old.subrange(
                p as int,
                s_old.len() as int,
            ));
            assert(s_new.to_multiset() =~= s_old.to_multiset().insert(item)) by {
                vstd::seq_lib::lemma_multiset_commutative(
                    s_old.subrange(0, p as int).push(item),
                    s_old.subrange(p as int, s_old.len() as int),
                );
                vstd::seq_lib::lemma_multiset_commutative(
                    s_old.subrange(0, p as int),
                    s_old.subrange(p as int, s_old.len() as int),
                );
                assert(s_old.subrange(0, p as int).push(item).to_multiset() =~= s_old.subrange(
                    0,
                    p as int,
                ).to_multiset().insert(item)) by {
                    s_old.subrange(0, p as int).to_multiset_ensures();
                }
                assert(s_old =~= s_old.subrange(0, p as int) + s_old.subrange(
                    p as int,
                    s_old.len() as int,
                ));
            }
            if spec_sorted(s_old) {
                assert forall|i: int, j: int| 0 <= i < j < s_new.len() implies spec_le(
                    #[trigger] s_new[i],
                    #[trigger] s_new[j],
                ) by {
                    if i < p {
                        assert(s_new[i] == s_old[i]);
                        assert(spec_le(self.data@[self.start_idx + i], item));
                    }
                    if i < p && j > p {
                        assert(s_new[j] == s_old[j - 1]);
                        assert(spec_le(s_old[i], s_old[j - 1]));
                    }
                    if i == p && j > p {
                        assert(s_new[j] == s_old[j - 1]);
                        if pos < self.data@.len() - 1 {
                            assert(spec_le(item, s_old[p]));
                            if j - 1 > p {
                                assert(spec_le(s_old[p], s_old[j - 1]));
                            }
                        }
                    }
                }
            }
        }
    }

    /// Append an element without keeping order; callers sort afterwards.
    pub fn push_nosort(&mut self, node_id: usize, prio: u32)
        requires
            old(self).wf(),
        ensures
            final(self).wf(),
            final(self)@ == old(self)@.push(node_cost_t { node_idx: node_id, priority: prio }),
    {
        self.data.push(node_cost_t { node_idx: node_id, priority: prio });
        proof {
            assert(self@ =~= old(self)@.push(node_cost_t { node_idx: node_id, priority: prio }));
        }
    }

    /// Sort the live region (by repeated ordered insertion), preserving its
    /// contents.
    pub fn sort(&mut self)
        requires
            old(self).wf(),
        ensures
            final(self).wf(),
            spec_sorted(final(self)@),
            final(self)@.to_multiset() == old(self)@.to_multiset(),
            final(self)@.len() == old(self)@.len(),
            final(self).start_idx == old(self).start_idx,
    {
        let start = self.start_idx;
        let mut rest: Vec<node_cost_t> = Vec::new();
        proof {
            Seq::<node_cost_t>::empty().to_multiset_ensures();
        }
        while self.data.len() > start
            invariant
                start == self.start_idx,
                self.start_idx <= self.data@.len(),
                self@.len() + rest@.len() == old(self)@.len(),
                self@.to_multiset().add(rest@.to_multiset()) == old(self)@.to_multiset(),
            decreases self.data@.len() - start,
        {
            let ghost pre = self@;
            let ghost pre_rest = rest@;
            let x = self.data.pop().unwrap();
            rest.push(x);
            proof {
                pre.to_multiset_ensures();
                pre_rest.to_multiset_ensures();
                assert(self@ =~= pre.drop_last());
                assert(rest@ =~= pre_rest.push(x));
                assert(pre =~= pre.drop_last().push(x));
                pre.drop_last().to_multiset_ensures();
                assert(pre.to_multiset() =~= pre.drop_last().to_multiset().insert(x));
                assert(rest@.to_multiset() =~= pre_rest.to_multiset().insert(x));
            }
        }
        let n = rest.len();
        let mut k: usize = 0;
        proof {
            assert(rest@.skip(0) =~= rest@);
        }
        while k < n
            invariant
                self.start_idx <= self.data@.len(),
                start == self.start_idx,
                k <= n,
                n == rest@.len(),
                spec_sorted(self@),
                self@.len() + (n - k) == old(self)@.len(),
                self@.to_multiset().add(rest@.skip(k as int).to_multiset()) == old(self)@.to_multiset(),
            decreases n - k,
        {
            let item = rest[k];
            self.push(item.node_idx, item.priority);
            proof {
                let tail = rest@.skip(k as int);
                tail.to_multiset_ensures();
                rest@.skip(k + 1).to_multiset_ensures();
                assert(tail =~= seq![rest@[k as int]] + rest@.skip(k + 1));
                assert(tail.drop_first() =~= rest@.skip(k + 1));
                assert(tail.to_multiset() =~= rest@.skip(k + 1).to_multiset().insert(
                    rest@[k as int],
                )) by {
                    assert(tail =~= rest@.skip(k + 1).insert(0, rest@[k as int]));
                    rest@.skip(k + 1).to_multiset_ensures();
                    vstd::seq_lib::lemma_multiset_commutative(
                        seq![rest@[k as int]],
                        rest@.skip(k + 1),
                    );
                    seq![rest@[k as int]].to_multiset_ensures();
                    assert(seq![rest@[k as int]] =~= Seq::<node_cost_t>::empty().push(
                        rest@[k as int],
                    ));
                    Seq::<node_cost_t>::empty().to_multiset_ensures();
                    assert(seq![rest@[k as int]].to_multiset() =~= Seq::<
                        node_cost_t,
                    >::empty().to_multiset().insert(rest@[k as int]));
                    assert(Multiset::<node_cost_t>::empty().insert(rest@[k as int]).add(
                        rest@.skip(k + 1).to_multiset(),
                    ) =~= rest@.skip(k + 1).to_multiset().insert(rest@[k as int]));
                }
                assert(self@.to_multiset().add(rest@.skip(k + 1).to_multiset()) =~= old(self)@.to_multiset());
            }
            k = k + 1;
        }
        proof {
            assert(rest@.skip(n as int) =~= Seq::<node_cost_t>::empty());
            Seq::<node_cost_t>::empty().to_multiset_ensures();
            assert(self@.to_multiset().add(Multiset::<node_cost_t>::empty()) =~= self
                @.to_multiset());
        }
    }

    /// Remove and yield the head of the live region — the least element
    /// when the region is sorted.
    pub fn pop_min(&mut self) -> (r: Option<node_cost_t>)
        requires
            old(self).wf(),
        ensures
            final(self).wf(),
            old(self)@.len() == 0 ==> r is None && final(self)@ == old(self)@,
            old(self)@.len() > 0 ==> r == Some(old(self)@[0]) && final(self)@ == old(self)@.subrange(1, old(self)@.len() as int),
            old(self)@.len() > 0 && spec_sorted(old(self)@) ==> (forall|i: int|
                0 <= i < final(self)@.len() ==> spec_le(old(self)@[0], #[trigger] final(self)@[i])),
    {
        if self.start_idx >= self.data.len() {
            return None;
        }
        let v = self.data[self.start_idx];
        self.start_idx = self.start_idx + 1;
        proof {
            assert(self@ =~= old(self)@.subrange(1, old(self)@.len() as int));
        }
        Some(v)
    }

    /// Lower one element's priority (by its offset in the live region),
    /// then restore order: exactly the addressed item's priority becomes the
    /// new value, everything else is kept, and the region is sorted again.
    pub fn decrease_priority(&mut self, node_idx: usize, prio: u32)
        requires
            old(self).wf(),
        ensures
            final(self).wf(),
            node_idx >= old(self)@.len() ==> *final(self) == *old(self),
            node_idx < old(self)@.len() && old(self)@[node_idx as int].priority == prio ==> *final(self) == *old(self),
            node_idx < old(self)@.len() && old(self)@[node_idx as int].priority != prio ==> (
            spec_sorted(final(self)@) && final(self)@.len() == old(self)@.len() && final(self)@.to_multiset() == old(self)@.to_multiset().remove(
                old(self)@[node_idx as int],
            ).insert(
                node_cost_t {
                    priority: prio,
                    node_idx: old(self)@[node_idx as int].node_idx,
                },
            )),
    {
        if node_idx >= self.data.len() - self.start_idx {
            return ;
        }
        let real_idx = node_idx + self.start_idx;
        let old_item = self.data[real_idx];
        if old_item.priority == prio {
            return ;
        }
        let ghost pre = self@;
        self.data.set(real_idx, node_cost_t { priority: prio, ..old_item });
        proof {
            assert(self@ =~= pre.update(node_idx as int, node_cost_t { priority: prio, ..old_item }));
            lemma_multiset_update(pre, node_idx as int, node_cost_t { priority: prio, ..old_item });
        }
        self.sort();
    }

    /// The element at an offset in the live region.
    pub fn get_item_by_index(&self, idx: usize) -> (r: Option<node_cost_t>)
        requires
            self.wf(),
        ensures
            idx < self@.len() ==> r == Some(self@[idx as int]),
            idx >= self@.len() ==> r is None,
    {
        if idx >= self.data.len() - self.start_idx {
            return None;
        }
        Some(self.data[idx + self.start_idx])
    }

    /// Number of live elements.
    pub fn len(&self) -> (r: usize)
        requires
            self.wf(),
        ensures
            r == self@.len(),
    {
        self.data.len() - self.start_idx
    }
}

/// Updating one position swaps exactly that element in the multiset.
proof fn lemma_multiset_update(s: Seq<node_cost_t>, i: int, b: node_cost_t)
    requires
        0 <= i < s.len(),
    ensures
        s.update(i, b).to_multiset() == s.to_multiset().remove(s[i]).insert(b),
{
    let left = s.subrange(0, i);
    let right = s.subrange(i + 1, s.len() as int);
    assert(s =~= left + seq![s[i]] + right);
    assert(s.update(i, b) =~= left + seq![b] + right);
    lemma_multiset_of_mid(left, s[i], right);
    lemma_multiset_of_mid(left, b, right);
    assert(s.update(i, b).to_multiset() =~= s.to_multiset().remove(s[i]).insert(b));
}

/// The multiset of a sequence split around one middle element.
proof fn lemma_multiset_of_mid(left: Seq<node_cost_t>, mid: node_cost_t, right: Seq<node_cost_t>)
    ensures
        (left + seq![mid] + right).to_multiset() == left.to_multiset().add(
            right.to_multiset(),
        ).insert(mid),
{
    vstd::seq_lib::lemma_multiset_commutative(left + seq![mid], right);
    vstd::seq_lib::lemma_multiset_commutative(left, seq![mid]);
    seq![mid].to_multiset_ensures();
    assert(seq![mid] =~= Seq::<node_cost_t>::empty().push(mid));
    Seq::<node_cost_t>::empty().to_multiset_ensures();
    assert(seq![mid].to_multiset() =~= Multiset::<node_cost_t>::empty().insert(mid));
    assert((left + seq![mid] + right).to_multiset() =~= left.to_multiset().add(
        right.to_multiset(),
    ).insert(mid));
}

} // verus!
