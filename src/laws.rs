//! Properties of containers and of the engine, stated over the models that
//! the operations' contracts use, and proved.
use vstd::prelude::*;

use crate::engine::{
    ContainerList, container_ids, delete_container_outcome, list_containers_outcome,
};
use crate::interface::{ContainerId, ContainerType, DatabaseId, Status};
use crate::model::{
    Bytes, get_step, has_key, insert_all_step, insert_step, keys_ascending, keys_distinct,
    lemma_to_map_len, lemma_to_map_pairs, remove_step, update_step,
};
use crate::storage::Storage;

verus! {

/// Once `insert(k, v)` has succeeded, `get(k)` returns `v`.
pub proof fn law_get_after_insert(m: Map<Bytes, Bytes>, k: Bytes, v: Bytes)
    requires
        insert_step(m, k, v).1 is Ok,
    ensures
        get_step(insert_step(m, k, v).0, k) == Ok::<Bytes, Status>(v),
{
}

/// While `get(k)` returns `v`, it goes on returning `v` across any insert,
/// batch insert, update or remove, except an update or a remove of `k`
/// itself.
pub proof fn law_value_kept(
    m: Map<Bytes, Bytes>,
    k: Bytes,
    v: Bytes,
    k2: Bytes,
    v2: Bytes,
    kvs: Seq<(Bytes, Bytes)>,
)
    requires
        get_step(m, k) == Ok::<Bytes, Status>(v),
    ensures
        get_step(insert_step(m, k2, v2).0, k) == Ok::<Bytes, Status>(v),
        get_step(insert_all_step(m, kvs).0, k) == Ok::<Bytes, Status>(v),
        k2 != k ==> get_step(update_step(m, k2, v2).0, k) == Ok::<Bytes, Status>(v),
        k2 != k ==> get_step(remove_step(m, k2).0, k) == Ok::<Bytes, Status>(v),
    decreases kvs.len(),
{
    if kvs.len() > 0 {
        let m1 = insert_step(m, kvs[0].0, kvs[0].1).0;
        law_value_kept(m1, k, v, k2, v2, kvs.drop_first());
    }
}

/// `insert(k, v)` on a present key fails with `KeyExists` and leaves the
/// map, and so the value of `k`, as it was.
pub proof fn law_insert_existing(m: Map<Bytes, Bytes>, k: Bytes, v: Bytes)
    requires
        m.contains_key(k),
    ensures
        insert_step(m, k, v) == (m, Err::<(), Status>(Status::KeyExists)),
        get_step(insert_step(m, k, v).0, k) == get_step(m, k),
{
}

/// `update` and `remove` on an absent key fail with `KeyNotFound` and
/// leave the map as it was.
pub proof fn law_absent_key(m: Map<Bytes, Bytes>, k: Bytes, v: Bytes)
    requires
        !m.contains_key(k),
    ensures
        update_step(m, k, v) == (m, Err::<(), Status>(Status::KeyNotFound)),
        remove_step(m, k) == (m, Err::<(), Status>(Status::KeyNotFound)),
{
}

/// A deleted container is still listed, and, emptied, answers `get` on any
/// key with `KeyNotFound`.
pub proof fn law_deleted_container(
    l: ContainerList,
    db_id: DatabaseId,
    c_id: ContainerId,
    cleared: Storage,
    k: Bytes,
)
    requires
        l.wf(),
        delete_container_outcome(l.db_open(), l.kinds().len(), db_id, c_id) is Ok,
        cleared@ == Map::<Bytes, Bytes>::empty(),
    ensures
        list_containers_outcome(l.db_open(), l.kinds().len(), db_id) == Ok::<
            Set<ContainerId>,
            Status,
        >(container_ids(l.kinds().len())),
        container_ids(l.kinds().len()).contains(c_id),
        get_step(cleared@, k) == Err::<Bytes, Status>(Status::KeyNotFound),
{
}

/// Iteration over a container visits each present key exactly once, with
/// its value, and no other key; in a `BTree` container keys come in
/// strictly ascending byte-lexicographic order.
pub proof fn law_iteration_order(s: Storage)
    requires
        s.wf(),
    ensures
        keys_distinct(s.pairs()),
        s@.dom().finite(),
        s.pairs().len() == s@.dom().len(),
        forall|k: Bytes| s@.contains_key(k) <==> has_key(s.pairs(), k),
        forall|i: int|
            0 <= i < s.pairs().len() ==> #[trigger] s@[s.pairs()[i].0] == s.pairs()[i].1,
        s.kind() == ContainerType::BTree ==> keys_ascending(s.pairs()),
{
    lemma_to_map_pairs(s.pairs());
    lemma_to_map_len(s.pairs());
}

} // verus!
