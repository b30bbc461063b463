//! One container: a collection of byte-string keys and values, unordered
//! (`Hash`) or kept in ascending byte-lexicographic key order (`BTree`).
use vstd::prelude::*;

use core::cmp::Ordering;

use crate::interface::{ContainerType, Status};
use crate::iterator::InMemIterator;
use crate::keys::{
    compare_keys, key_lt, lemma_key_lt_irreflexive, lemma_key_lt_transitive,
};
use crate::model::{
    Bytes, bytes_result, get_step, has_key, insert_step, keys_ascending, keys_distinct,
    lemma_to_map_at, lemma_to_map_insert, lemma_to_map_pairs,
    lemma_to_map_remove, lemma_to_map_update, pairs_view, insert_all_step, remove_step, to_map, update_step,
};

verus! {

/// The contents of one container. Pairs are kept in a vector: in the order
/// of insertion for a `Hash` container, in ascending key order for a `BTree`
/// container, where lookups use binary search.
pub struct Storage {
    kind: ContainerType,
    entries: Vec<(Vec<u8>, Vec<u8>)>,
}

impl View for Storage {
    type V = Map<Bytes, Bytes>;

    open spec fn view(&self) -> Map<Bytes, Bytes> {
        to_map(self.pairs())
    }
}

impl Storage {
    /// The kind of backing structure chosen at creation.
    pub closed spec fn kind(&self) -> ContainerType {
        self.kind
    }

    /// The pairs, in the order in which iteration visits them.
    pub closed spec fn pairs(&self) -> Seq<(Bytes, Bytes)> {
        pairs_view(self.entries@)
    }

    /// Keys are unique; in a `BTree` container they are strictly ascending.
    pub open spec fn wf(&self) -> bool {
        &&& keys_distinct(self.pairs())
        &&& self.kind() == ContainerType::BTree ==> keys_ascending(self.pairs())
    }

    pub fn new(c_type: ContainerType) -> (r: Self)
        ensures
            r.wf(),
            r.kind() == c_type,
            r.pairs() == Seq::<(Bytes, Bytes)>::empty(),
            r@ == Map::<Bytes, Bytes>::empty(),
    {
        let r = match c_type {
            ContainerType::Hash => Storage { kind: ContainerType::Hash, entries: Vec::new() },
            ContainerType::BTree => Storage { kind: ContainerType::BTree, entries: Vec::new() },
        };
        proof {
            assert(r.pairs() =~= Seq::<(Bytes, Bytes)>::empty());
            assert(r@ =~= Map::<Bytes, Bytes>::empty());
        }
        r
    }

    /// Number of pairs held.
    pub fn len(&self) -> (r: usize)
        ensures
            r == self.pairs().len(),
    {
        self.entries.len()
    }

    /// The pair at position `i` of the iteration order.
    pub fn entry(&self, i: usize) -> (r: &(Vec<u8>, Vec<u8>))
        requires
            i < self.pairs().len(),
        ensures
            (r.0@, r.1@) == self.pairs()[i as int],
    {
        &self.entries[i]
    }

    /// Where `key` is, or where it would go.
    fn find(&self, key: &[u8]) -> (r: (usize, bool))
        requires
            self.wf(),
        ensures
            r.0 <= self.pairs().len(),
            r.1 ==> r.0 < self.pairs().len() && self.pairs()[r.0 as int].0 == key@,
            !r.1 ==> !has_key(self.pairs(), key@),
            !r.1 && self.kind() == ContainerType::BTree ==> {
                &&& forall|i: int| 0 <= i < r.0 ==> key_lt(#[trigger] self.pairs()[i].0, key@)
                &&& forall|i: int|
                    r.0 <= i < self.pairs().len() ==> key_lt(key@, #[trigger] self.pairs()[i].0)
            },
    {
        let ghost s = self.pairs();
        match self.kind {
            ContainerType::Hash => {
                let mut i: usize = 0;
                while i < self.entries.len()
                    invariant
                        self.wf(),
                        s == self.pairs(),
                        s.len() == self.entries@.len(),
                        i <= s.len(),
                        forall|j: int| 0 <= j < i ==> #[trigger] s[j].0 != key@,
                    decreases s.len() - i,
                {
                    assert(s[i as int].0 == self.entries@[i as int].0@);
                    match compare_keys(self.entries[i].0.as_slice(), key) {
                        Ordering::Equal => {
                            return (i, true);
                        },
                        _ => {},
                    }
                    i = i + 1;
                }
                (i, false)
            },
            ContainerType::BTree => {
                let mut lo: usize = 0;
                let mut hi: usize = self.entries.len();
                while lo < hi
                    invariant
                        self.wf(),
                        self.kind() == ContainerType::BTree,
                        s == self.pairs(),
                        s.len() == self.entries@.len(),
                        lo <= hi <= s.len(),
                        forall|j: int| 0 <= j < lo ==> key_lt(#[trigger] s[j].0, key@),
                        forall|j: int| hi <= j < s.len() ==> key_lt(key@, #[trigger] s[j].0),
                    decreases hi - lo,
                {
                    let mid: usize = lo + (hi - lo) / 2;
                    assert(s[mid as int].0 == self.entries@[mid as int].0@);
                    match compare_keys(self.entries[mid].0.as_slice(), key) {
                        Ordering::Equal => {
                            return (mid, true);
                        },
                        Ordering::Less => {
                            assert forall|j: int| 0 <= j < mid + 1 implies key_lt(
                                #[trigger] s[j].0,
                                key@,
                            ) by {
                                if j < mid {
                                    lemma_key_lt_transitive(s[j].0, s[mid as int].0, key@);
                                }
                            }
                            lo = mid + 1;
                        },
                        Ordering::Greater => {
                            assert forall|j: int| mid <= j < s.len() implies key_lt(
                                key@,
                                #[trigger] s[j].0,
                            ) by {
                                if j > mid {
                                    lemma_key_lt_transitive(key@, s[mid as int].0, s[j].0);
                                }
                            }
                            hi = mid;
                        },
                    }
                }
                assert forall|j: int| 0 <= j < s.len() implies #[trigger] s[j].0 != key@ by {
                    lemma_key_lt_irreflexive(key@);
                }
                (lo, false)
            },
        }
    }

    /// Adds `key` with `val` if `key` is absent; fails with `KeyExists`,
    /// changing nothing, if it is present.
    pub fn insert(&mut self, key: Vec<u8>, val: Vec<u8>) -> (r: Result<(), Status>)
        requires
            old(self).wf(),
        ensures
            final(self).wf(),
            final(self).kind() == old(self).kind(),
            (final(self)@, r) == insert_step(old(self)@, key@, val@),
    {
        let (pos, found) = self.find(key.as_slice());
        if found {
            proof {
                lemma_to_map_at(self.pairs(), pos as int);
            }
            return Err(Status::KeyExists);
        }
        let ghost s = self.pairs();
        let ghost k = key@;
        let ghost v = val@;
        proof {
            lemma_to_map_pairs(s);
            lemma_to_map_insert(s, pos as int, k, v);
        }
        self.entries.insert(pos, (key, val));
        proof {
            assert(self.pairs() =~= s.insert(pos as int, (k, v)));
            if self.kind == ContainerType::BTree {
                let t = self.pairs();
                assert forall|i: int, j: int| 0 <= i < j < t.len() implies key_lt(
                    #[trigger] t[i].0,
                    #[trigger] t[j].0,
                ) by {
                    if j < pos {
                    } else if j == pos {
                    } else if i < pos {
                        assert(t[j] == s[j - 1]);
                    } else if i == pos {
                        assert(t[j] == s[j - 1]);
                    } else {
                        assert(t[i] == s[i - 1] && t[j] == s[j - 1]);
                    }
                }
            }
        }
        Ok(())
    }

    /// Returns a copy of the value stored for `key`, or `KeyNotFound`.
    pub fn get(&self, key: &[u8]) -> (r: Result<Vec<u8>, Status>)
        requires
            self.wf(),
        ensures
            bytes_result(r) == get_step(self@, key@),
    {
        let (pos, found) = self.find(key);
        if found {
            proof {
                lemma_to_map_at(self.pairs(), pos as int);
            }
            let v = self.entries[pos].1.clone();
            assert(v@ =~= self.entries@[pos as int].1@);
            Ok(v)
        } else {
            Err(Status::KeyNotFound)
        }
    }

    /// Replaces the value stored for `key`, or fails with `KeyNotFound`,
    /// changing nothing.
    pub fn update(&mut self, key: &[u8], val: Vec<u8>) -> (r: Result<(), Status>)
        requires
            old(self).wf(),
        ensures
            final(self).wf(),
            final(self).kind() == old(self).kind(),
            (final(self)@, r) == update_step(old(self)@, key@, val@),
    {
        let (pos, found) = self.find(key);
        if !found {
            return Err(Status::KeyNotFound);
        }
        let ghost s = self.pairs();
        let ghost v = val@;
        proof {
            lemma_to_map_at(s, pos as int);
            lemma_to_map_update(s, pos as int, v);
        }
        self.entries[pos].1 = val;
        proof {
            assert(self.pairs() =~= s.update(pos as int, (s[pos as int].0, v)));
            if self.kind == ContainerType::BTree {
                let t = self.pairs();
                assert forall|i: int, j: int| 0 <= i < j < t.len() implies key_lt(
                    #[trigger] t[i].0,
                    #[trigger] t[j].0,
                ) by {
                    assert(t[i].0 == s[i].0 && t[j].0 == s[j].0);
                }
            }
        }
        Ok(())
    }

    /// Deletes `key` and its value, or fails with `KeyNotFound`, changing
    /// nothing.
    pub fn remove(&mut self, key: &[u8]) -> (r: Result<(), Status>)
        requires
            old(self).wf(),
        ensures
            final(self).wf(),
            final(self).kind() == old(self).kind(),
            (final(self)@, r) == remove_step(old(self)@, key@),
    {
        let (pos, found) = self.find(key);
        if !found {
            return Err(Status::KeyNotFound);
        }
        let ghost s = self.pairs();
        proof {
            lemma_to_map_at(s, pos as int);
            lemma_to_map_remove(s, pos as int);
        }
        self.entries.remove(pos);
        proof {
            assert(self.pairs() =~= s.remove(pos as int));
            if self.kind == ContainerType::BTree {
                let t = self.pairs();
                assert forall|i: int, j: int| 0 <= i < j < t.len() implies key_lt(
                    #[trigger] t[i].0,
                    #[trigger] t[j].0,
                ) by {
                    if j < pos {
                    } else if i < pos {
                        assert(t[j] == s[j + 1]);
                    } else {
                        assert(t[i] == s[i + 1] && t[j] == s[j + 1]);
                    }
                }
            }
        }
        Ok(())
    }

    /// A snapshot of the pairs, in iteration order: ascending key order in a
    /// `BTree` container, each key once in either kind.
    pub fn iter(&self) -> (r: InMemIterator)
        ensures
            r@ == self.pairs(),
    {
        InMemIterator::new(self)
    }

    /// Inserts the pairs of `kvs` in order and stops at the first key that
    /// is already present; the pairs inserted before it stay.
    pub fn insert_values(&mut self, kvs: Vec<(Vec<u8>, Vec<u8>)>) -> (r: Result<(), Status>)
        requires
            old(self).wf(),
        ensures
            final(self).wf(),
            final(self).kind() == old(self).kind(),
            (final(self)@, r) == insert_all_step(old(self)@, pairs_view(kvs@)),
    {
        let ghost all = pairs_view(kvs@);
        let mut rest = kvs;
        let mut pending: Vec<(Vec<u8>, Vec<u8>)> = Vec::new();
        while rest.len() > 0
            invariant
                all == pairs_view(kvs@),
                pairs_view(rest@) + pairs_view(pending@).reverse() == all,
            decreases rest@.len(),
        {
            let ghost r0 = rest@;
            let ghost p0 = pending@;
            let p = rest.pop().unwrap();
            pending.push(p);
            assert(r0 =~= rest@.push(p));
            assert(pairs_view(r0) =~= pairs_view(rest@).push((p.0@, p.1@)));
            assert(pairs_view(pending@).reverse() =~= seq![(p.0@, p.1@)] + pairs_view(
                p0,
            ).reverse());
            assert(pairs_view(rest@) + pairs_view(pending@).reverse() =~= pairs_view(r0)
                + pairs_view(p0).reverse());
        }
        assert(pairs_view(rest@) =~= Seq::<(Bytes, Bytes)>::empty());
        assert(pairs_view(pending@).reverse() =~= all);
        let ghost start = self@;
        while pending.len() > 0
            invariant
                self.wf(),
                self.kind() == old(self).kind(),
                start == old(self)@,
                all == pairs_view(kvs@),
                insert_all_step(start, all) == insert_all_step(
                    self@,
                    pairs_view(pending@).reverse(),
                ),
            decreases pending@.len(),
        {
            let ghost p0 = pending@;
            let (k, v) = pending.pop().unwrap();
            proof {
                assert(p0 =~= pending@.push((k, v)));
                assert(pairs_view(p0).reverse() =~= seq![(k@, v@)] + pairs_view(
                    pending@,
                ).reverse());
                assert(pairs_view(p0).reverse().drop_first() =~= pairs_view(pending@).reverse());
            }
            let ghost before = self@;
            let r = self.insert(k, v);
            proof {
                let q = pairs_view(p0).reverse();
                assert(q[0] == (k@, v@));
                assert(insert_all_step(before, q) == if r is Err {
                    (self@, r)
                } else {
                    insert_all_step(self@, q.drop_first())
                });
            }
            if r.is_err() {
                return r;
            }
        }
        Ok(())
    }

    /// Empties the container; its kind stays.
    pub fn clear(&mut self)
        requires
            old(self).wf(),
        ensures
            final(self).wf(),
            final(self).kind() == old(self).kind(),
            final(self).pairs() == Seq::<(Bytes, Bytes)>::empty(),
            final(self)@ == Map::<Bytes, Bytes>::empty(),
    {
        self.entries.clear();
        proof {
            assert(self.pairs() =~= Seq::<(Bytes, Bytes)>::empty());
            assert(self@ =~= Map::<Bytes, Bytes>::empty());
        }
    }
}

} // verus!
