//! Snapshot iterators over a container.
use vstd::prelude::*;

use crate::model::{Bytes, pairs_view};
use crate::storage::Storage;

verus! {

/// A snapshot of a container's pairs, taken while the container could not
/// change, handed out one pair at a time in the container's iteration order.
pub struct InMemIterator {
    /// The pairs still to come, the next one last.
    rest: Vec<(Vec<u8>, Vec<u8>)>,
}

impl View for InMemIterator {
    type V = Seq<(Bytes, Bytes)>;

    /// The pairs still to come, in the order `next` returns them.
    closed spec fn view(&self) -> Seq<(Bytes, Bytes)> {
        pairs_view(self.rest@).reverse()
    }
}

impl InMemIterator {
    /// Copies every pair of `storage`.
    pub fn new(storage: &Storage) -> (r: Self)
        ensures
            r@ == storage.pairs(),
    {
        let ghost s = storage.pairs();
        let mut rest: Vec<(Vec<u8>, Vec<u8>)> = Vec::new();
        let mut i: usize = storage.len();
        while i > 0
            invariant
                s == storage.pairs(),
                i <= s.len(),
                pairs_view(rest@) == s.subrange(i as int, s.len() as int).reverse(),
            decreases i,
        {
            i = i - 1;
            let e = storage.entry(i);
            let k = e.0.clone();
            let v = e.1.clone();
            assert(k@ =~= e.0@);
            assert(v@ =~= e.1@);
            let ghost before = rest@;
            rest.push((k, v));
            assert(pairs_view(rest@) =~= pairs_view(before).push(s[i as int]));
            assert(s.subrange(i as int, s.len() as int).reverse() =~= s.subrange(
                i + 1,
                s.len() as int,
            ).reverse().push(s[i as int]));
        }
        assert(s.subrange(0, s.len() as int) =~= s);
        assert(pairs_view(rest@).reverse() =~= s);
        InMemIterator { rest }
    }

    /// Hands out the next pair, or `None` once every pair has been handed out.
    pub fn next(&mut self) -> (r: Option<(Vec<u8>, Vec<u8>)>)
        ensures
            old(self)@.len() == 0 ==> r is None && final(self)@ == old(self)@,
            old(self)@.len() > 0 ==> (r matches Some(p) && (p.0@, p.1@) == old(self)@[0]
                && final(self)@ == old(self)@.drop_first()),
    {
        let ghost before = self.rest@;
        let r = self.rest.pop();
        proof {
            if before.len() > 0 {
                let p = r->0;
                assert(before =~= self.rest@.push(p));
                assert(pairs_view(before).reverse() =~= seq![(p.0@, p.1@)] + pairs_view(
                    self.rest@,
                ).reverse());
                assert(pairs_view(self.rest@).reverse() =~= pairs_view(before).reverse().drop_first());
            }
        }
        r
    }
}

} // verus!
