//! The mathematical model of a container's contents: a sequence of
//! key-value pairs with distinct keys, read as a map.
use vstd::prelude::*;

use crate::interface::Status;
use crate::keys::key_lt;

verus! {

/// A key or a value, as a sequence of bytes.
pub type Bytes = Seq<u8>;

/// Pairs as the library hands them out, read as byte sequences.
pub open spec fn pairs_view(v: Seq<(Vec<u8>, Vec<u8>)>) -> Seq<(Bytes, Bytes)> {
    v.map_values(|p: (Vec<u8>, Vec<u8>)| (p.0@, p.1@))
}

/// No key occurs twice.
pub open spec fn keys_distinct(s: Seq<(Bytes, Bytes)>) -> bool {
    forall|i: int, j: int| 0 <= i < j < s.len() ==> #[trigger] s[i].0 != #[trigger] s[j].0
}

/// Keys occur in strictly ascending byte-lexicographic order.
pub open spec fn keys_ascending(s: Seq<(Bytes, Bytes)>) -> bool {
    forall|i: int, j: int| 0 <= i < j < s.len() ==> key_lt(#[trigger] s[i].0, #[trigger] s[j].0)
}

/// `k` is the key of some pair of `s`.
pub open spec fn has_key(s: Seq<(Bytes, Bytes)>, k: Bytes) -> bool {
    exists|i: int| 0 <= i < s.len() && #[trigger] s[i].0 == k
}

/// The map that a sequence of pairs with distinct keys stands for.
pub open spec fn to_map(s: Seq<(Bytes, Bytes)>) -> Map<Bytes, Bytes> {
    Map::new(
        |k: Bytes| has_key(s, k),
        |k: Bytes| s[choose|i: int| 0 <= i < s.len() && #[trigger] s[i].0 == k].1,
    )
}

/// What `insert` does to a container's map, and what it returns.
pub open spec fn insert_step(m: Map<Bytes, Bytes>, k: Bytes, v: Bytes) -> (
    Map<Bytes, Bytes>,
    Result<(), Status>,
) {
    if m.contains_key(k) {
        (m, Err(Status::KeyExists))
    } else {
        (m.insert(k, v), Ok(()))
    }
}

/// What inserting `kvs` in order does to a container's map, stopping at the
/// first key that is already present, and what it returns.
pub open spec fn insert_all_step(m: Map<Bytes, Bytes>, kvs: Seq<(Bytes, Bytes)>) -> (
    Map<Bytes, Bytes>,
    Result<(), Status>,
)
    decreases kvs.len(),
{
    if kvs.len() == 0 {
        (m, Ok(()))
    } else {
        let (m1, r1) = insert_step(m, kvs[0].0, kvs[0].1);
        if r1 is Err {
            (m1, r1)
        } else {
            insert_all_step(m1, kvs.drop_first())
        }
    }
}

/// What `get` returns on a container's map.
pub open spec fn get_step(m: Map<Bytes, Bytes>, k: Bytes) -> Result<Bytes, Status> {
    if m.contains_key(k) {
        Ok(m[k])
    } else {
        Err(Status::KeyNotFound)
    }
}

/// What `update` does to a container's map, and what it returns.
pub open spec fn update_step(m: Map<Bytes, Bytes>, k: Bytes, v: Bytes) -> (
    Map<Bytes, Bytes>,
    Result<(), Status>,
) {
    if m.contains_key(k) {
        (m.insert(k, v), Ok(()))
    } else {
        (m, Err(Status::KeyNotFound))
    }
}

/// What `remove` does to a container's map, and what it returns.
pub open spec fn remove_step(m: Map<Bytes, Bytes>, k: Bytes) -> (
    Map<Bytes, Bytes>,
    Result<(), Status>,
) {
    if m.contains_key(k) {
        (m.remove(k), Ok(()))
    } else {
        (m, Err(Status::KeyNotFound))
    }
}

/// A value handed out, read as bytes.
pub open spec fn bytes_result(r: Result<Vec<u8>, Status>) -> Result<Bytes, Status> {
    match r {
        Ok(v) => Ok(v@),
        Err(e) => Err(e),
    }
}

/// The pair at position `i` is what the map holds for its key.
pub proof fn lemma_to_map_at(s: Seq<(Bytes, Bytes)>, i: int)
    requires
        keys_distinct(s),
        0 <= i < s.len(),
    ensures
        to_map(s).contains_key(s[i].0),
        to_map(s)[s[i].0] == s[i].1,
{
    let k = s[i].0;
    assert(has_key(s, k));
    let j = choose|j: int| 0 <= j < s.len() && #[trigger] s[j].0 == k;
    assert(j == i);
}

/// Every pair of the sequence is in the map, and the map has no other key.
pub proof fn lemma_to_map_pairs(s: Seq<(Bytes, Bytes)>)
    requires
        keys_distinct(s),
    ensures
        forall|i: int|
            0 <= i < s.len() ==> #[trigger] to_map(s).contains_key(s[i].0) && to_map(s)[s[i].0]
                == s[i].1,
        forall|k: Bytes| to_map(s).contains_key(k) <==> has_key(s, k),
{
    assert forall|i: int| 0 <= i < s.len() implies #[trigger] to_map(s).contains_key(s[i].0)
        && to_map(s)[s[i].0] == s[i].1 by {
        lemma_to_map_at(s, i);
    }
}

/// Putting a pair with a new key at position `p` adds it to the map.
pub proof fn lemma_to_map_insert(s: Seq<(Bytes, Bytes)>, p: int, k: Bytes, v: Bytes)
    requires
        keys_distinct(s),
        0 <= p <= s.len(),
        !has_key(s, k),
    ensures
        keys_distinct(s.insert(p, (k, v))),
        to_map(s.insert(p, (k, v))) == to_map(s).insert(k, v),
{
    let t = s.insert(p, (k, v));
    assert forall|i: int, j: int| 0 <= i < j < t.len() implies #[trigger] t[i].0
        != #[trigger] t[j].0 by {
        if i < p {
            if j < p {
            } else if j == p {
                assert(s[i].0 == t[i].0);
            } else {
                assert(t[j] == s[j - 1]);
            }
        } else if i == p {
            assert(t[j] == s[j - 1]);
        } else {
            assert(t[i] == s[i - 1] && t[j] == s[j - 1]);
        }
    }
    lemma_to_map_pairs(s);
    lemma_to_map_pairs(t);
    assert forall|kk: Bytes| #[trigger] to_map(t).contains_key(kk) == to_map(s).insert(
        k,
        v,
    ).contains_key(kk) by {
        if has_key(t, kk) {
            let j = choose|j: int| 0 <= j < t.len() && #[trigger] t[j].0 == kk;
            if j < p {
                assert(s[j].0 == kk);
            } else if j > p {
                assert(s[j - 1].0 == kk);
            }
        }
        if has_key(s, kk) {
            let i = choose|i: int| 0 <= i < s.len() && #[trigger] s[i].0 == kk;
            if i < p {
                assert(t[i].0 == kk);
            } else {
                assert(t[i + 1].0 == kk);
            }
        }
        if kk == k {
            assert(t[p].0 == kk);
        }
    }
    assert forall|kk: Bytes| #[trigger] to_map(t).contains_key(kk) implies to_map(t)[kk]
        == to_map(s).insert(k, v)[kk] by {
        if kk == k {
            assert(t[p].0 == k);
        } else {
            let i = choose|i: int| 0 <= i < s.len() && #[trigger] s[i].0 == kk;
            if i < p {
                assert(t[i] == s[i]);
            } else {
                assert(t[i + 1] == s[i]);
            }
        }
    }
    assert(to_map(t) =~= to_map(s).insert(k, v));
}

/// The map has exactly as many keys as the sequence has pairs.
pub proof fn lemma_to_map_len(s: Seq<(Bytes, Bytes)>)
    requires
        keys_distinct(s),
    ensures
        to_map(s).dom().finite(),
        to_map(s).dom().len() == s.len(),
    decreases s.len(),
{
    if s.len() == 0 {
        assert(to_map(s).dom() =~= Set::<Bytes>::empty());
    } else {
        let t = s.drop_last();
        let last = s.last();
        assert(keys_distinct(t));
        lemma_to_map_len(t);
        assert(!has_key(t, last.0)) by {
            if has_key(t, last.0) {
                let i = choose|i: int| 0 <= i < t.len() && #[trigger] t[i].0 == last.0;
                assert(s[i].0 == s[s.len() - 1].0);
            }
        }
        lemma_to_map_insert(t, t.len() as int, last.0, last.1);
        assert(t.insert(t.len() as int, last) =~= s);
        lemma_to_map_pairs(t);
        assert(to_map(s).dom() =~= to_map(t).dom().insert(last.0));
    }
}

/// Taking out the pair at position `p` removes its key from the map.
pub proof fn lemma_to_map_remove(s: Seq<(Bytes, Bytes)>, p: int)
    requires
        keys_distinct(s),
        0 <= p < s.len(),
    ensures
        keys_distinct(s.remove(p)),
        to_map(s.remove(p)) == to_map(s).remove(s[p].0),
{
    let t = s.remove(p);
    let k = s[p].0;
    assert forall|i: int, j: int| 0 <= i < j < t.len() implies #[trigger] t[i].0
        != #[trigger] t[j].0 by {
        if i < p {
            if j < p {
            } else {
                assert(t[j] == s[j + 1]);
            }
        } else {
            assert(t[i] == s[i + 1] && t[j] == s[j + 1]);
        }
    }
    lemma_to_map_pairs(s);
    lemma_to_map_pairs(t);
    assert forall|kk: Bytes| #[trigger] to_map(t).contains_key(kk) == to_map(s).remove(
        k,
    ).contains_key(kk) by {
        if has_key(t, kk) {
            let j = choose|j: int| 0 <= j < t.len() && #[trigger] t[j].0 == kk;
            if j < p {
                assert(s[j].0 == kk);
            } else {
                assert(s[j + 1].0 == kk);
            }
        }
        if has_key(s, kk) && kk != k {
            let i = choose|i: int| 0 <= i < s.len() && #[trigger] s[i].0 == kk;
            if i < p {
                assert(t[i].0 == kk);
            } else {
                assert(t[i - 1].0 == kk);
            }
        }
    }
    assert forall|kk: Bytes| #[trigger] to_map(t).contains_key(kk) implies to_map(t)[kk]
        == to_map(s).remove(k)[kk] by {
        let j = choose|j: int| 0 <= j < t.len() && #[trigger] t[j].0 == kk;
        if j < p {
            assert(t[j] == s[j]);
        } else {
            assert(t[j] == s[j + 1]);
        }
    }
    assert(to_map(t) =~= to_map(s).remove(k));
}

/// Replacing the value at position `p` replaces it in the map.
pub proof fn lemma_to_map_update(s: Seq<(Bytes, Bytes)>, p: int, v: Bytes)
    requires
        keys_distinct(s),
        0 <= p < s.len(),
    ensures
        keys_distinct(s.update(p, (s[p].0, v))),
        to_map(s.update(p, (s[p].0, v))) == to_map(s).insert(s[p].0, v),
{
    let t = s.update(p, (s[p].0, v));
    let k = s[p].0;
    assert forall|i: int, j: int| 0 <= i < j < t.len() implies #[trigger] t[i].0
        != #[trigger] t[j].0 by {
        assert(t[i].0 == s[i].0 && t[j].0 == s[j].0);
    }
    lemma_to_map_pairs(s);
    lemma_to_map_pairs(t);
    assert forall|kk: Bytes| #[trigger] to_map(t).contains_key(kk) == to_map(s).insert(
        k,
        v,
    ).contains_key(kk) by {
        if has_key(t, kk) {
            let j = choose|j: int| 0 <= j < t.len() && #[trigger] t[j].0 == kk;
            assert(s[j].0 == kk);
        }
        if has_key(s, kk) {
            let i = choose|i: int| 0 <= i < s.len() && #[trigger] s[i].0 == kk;
            assert(t[i].0 == kk);
        }
    }
    assert forall|kk: Bytes| #[trigger] to_map(t).contains_key(kk) implies to_map(t)[kk]
        == to_map(s).insert(k, v)[kk] by {
        let j = choose|j: int| 0 <= j < t.len() && #[trigger] t[j].0 == kk;
        assert(t[j].0 == s[j].0);
    }
    assert(to_map(t) =~= to_map(s).insert(k, v));
}

} // verus!
