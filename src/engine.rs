//! The in-memory engine: one database, a list of containers under a
//! reader-writer lock, and a reader-writer lock of its own for each container.
//!
//! Point operations and scans hold the list lock for reading, so that they
//! proceed side by side and only wait while a container is being created or
//! deleted; the work itself happens under the addressed container's lock, for
//! writing (insert, update, delete) or reading (get, check, scan). Distinct
//! containers never contend, and no operation waits on a container lock
//! while holding another one. A scan copies the container's pairs under its
//! read lock: the iterator sees the container as it was at that moment, and
//! later writers need not wait for the iterator to be dropped.
use vstd::prelude::*;
use vstd::rwlock::{RwLock, RwLockPredicate};

use std::collections::HashSet;

use crate::interface::{
    ContainerId, ContainerOptions, ContainerType, DBOptions, DatabaseId, ScanOptions, Status,
    TxnOptions, TxnStorageTrait,
};
use crate::iterator::InMemIterator;
use crate::model::{
    Bytes, bytes_result, get_step, insert_all_step, insert_step, keys_ascending, keys_distinct,
    pairs_view, remove_step, update_step,
};
use crate::storage::Storage;

verus! {

broadcast use vstd::std_specs::hash::group_hash_axioms;

/// The most containers a database can hold: ids are `u16`.
pub const MAX_CONTAINERS: usize = 65536;

/// The database with id `db_id` is open.
pub open spec fn db_valid(db_open: bool, db_id: DatabaseId) -> bool {
    db_open && db_id == 0
}

/// The ids of the first `n` containers.
pub open spec fn container_ids(n: nat) -> Set<ContainerId> {
    Set::new(|i: ContainerId| (i as nat) < n)
}

/// What `open_db` returns.
pub open spec fn open_db_outcome(db_open: bool) -> Result<DatabaseId, Status> {
    if db_open {
        Err(Status::DBExists)
    } else {
        Ok(0)
    }
}

/// What `delete_db` returns.
pub open spec fn delete_db_outcome(db_open: bool, db_id: DatabaseId) -> Result<(), Status> {
    if db_valid(db_open, db_id) {
        Ok(())
    } else {
        Err(Status::DBNotFound)
    }
}

/// What `create_container` returns when the database holds `n` containers.
pub open spec fn create_container_outcome(db_open: bool, n: nat, db_id: DatabaseId) -> Result<
    ContainerId,
    Status,
> {
    if !db_valid(db_open, db_id) {
        Err(Status::DBNotFound)
    } else if n >= MAX_CONTAINERS {
        Err(Status::Error)
    } else {
        Ok(n as ContainerId)
    }
}

/// What `delete_container` returns when the database holds `n` containers.
pub open spec fn delete_container_outcome(
    db_open: bool,
    n: nat,
    db_id: DatabaseId,
    c_id: ContainerId,
) -> Result<(), Status> {
    if !db_valid(db_open, db_id) {
        Err(Status::DBNotFound)
    } else if c_id >= n {
        Err(Status::ContainerNotFound)
    } else {
        Ok(())
    }
}

/// What `list_containers` returns when the database holds `n` containers.
pub open spec fn list_containers_outcome(db_open: bool, n: nat, db_id: DatabaseId) -> Result<
    Set<ContainerId>,
    Status,
> {
    if db_valid(db_open, db_id) {
        Ok(container_ids(n))
    } else {
        Err(Status::DBNotFound)
    }
}

/// What a container's lock guarantees of its contents: well-formed, and of
/// the kind the container was created with.
pub struct StorageInv {
    pub kind: ContainerType,
}

impl RwLockPredicate<Storage> for StorageInv {
    open spec fn inv(self, s: Storage) -> bool {
        s.wf() && s.kind() == self.kind
    }
}

/// The state that the list lock guards: whether the database is open, and
/// the containers, each behind its own lock, addressed by index.
pub struct ContainerList {
    db_created: bool,
    containers: Vec<RwLock<Storage, StorageInv>>,
}

/// What the list lock guarantees of its contents.
pub struct ListInv {}

impl RwLockPredicate<ContainerList> for ListInv {
    open spec fn inv(self, l: ContainerList) -> bool {
        l.wf()
    }
}

impl ContainerList {
    /// Whether the database is open.
    pub closed spec fn db_open(&self) -> bool {
        self.db_created
    }

    /// The kind of each container, by id.
    pub closed spec fn kinds(&self) -> Seq<ContainerType> {
        self.containers@.map_values(|l: RwLock<Storage, StorageInv>| l.pred().kind)
    }

    pub closed spec fn wf(&self) -> bool {
        self.containers@.len() <= MAX_CONTAINERS
    }

    pub fn new() -> (r: Self)
        ensures
            r.wf(),
            !r.db_open(),
            r.kinds() == Seq::<ContainerType>::empty(),
    {
        let r = ContainerList { db_created: false, containers: Vec::new() };
        assert(r.kinds() =~= Seq::<ContainerType>::empty());
        r
    }

    /// Opens the database, which must not be open yet.
    pub fn open_db(&mut self) -> (r: Result<DatabaseId, Status>)
        requires
            old(self).wf(),
        ensures
            final(self).wf(),
            r == open_db_outcome(old(self).db_open()),
            final(self).db_open(),
            final(self).kinds() == old(self).kinds(),
    {
        if self.db_created {
            return Err(Status::DBExists);
        }
        self.db_created = true;
        Ok(0)
    }

    /// Deletes the open database with every container.
    pub fn delete_db(&mut self, db_id: DatabaseId) -> (r: Result<(), Status>)
        requires
            old(self).wf(),
        ensures
            final(self).wf(),
            r == delete_db_outcome(old(self).db_open(), db_id),
            r is Ok ==> !final(self).db_open() && final(self).kinds() == Seq::<
                ContainerType,
            >::empty(),
            r is Err ==> final(self).db_open() == old(self).db_open() && final(self).kinds()
                == old(self).kinds(),
    {
        if !self.db_created || db_id != 0 {
            return Err(Status::DBNotFound);
        }
        self.db_created = false;
        self.containers.clear();
        assert(self.kinds() =~= Seq::<ContainerType>::empty());
        Ok(())
    }

    /// Appends an empty container of kind `c_type` and returns its id.
    pub fn create_container(&mut self, db_id: DatabaseId, c_type: ContainerType) -> (r: Result<
        ContainerId,
        Status,
    >)
        requires
            old(self).wf(),
        ensures
            final(self).wf(),
            r == create_container_outcome(old(self).db_open(), old(self).kinds().len(), db_id),
            final(self).db_open() == old(self).db_open(),
            r is Ok ==> final(self).kinds() == old(self).kinds().push(c_type),
            r is Err ==> final(self).kinds() == old(self).kinds(),
    {
        if !self.db_created || db_id != 0 {
            return Err(Status::DBNotFound);
        }
        if self.containers.len() >= MAX_CONTAINERS {
            return Err(Status::Error);
        }
        let id = self.containers.len() as ContainerId;
        let storage = Storage::new(c_type);
        let lock = RwLock::new(storage, Ghost(StorageInv { kind: c_type }));
        self.containers.push(lock);
        assert(self.kinds() =~= old(self).kinds().push(c_type));
        Ok(id)
    }

    /// The lock of container `c_id`.
    fn container(&self, c_id: ContainerId) -> (r: Option<&RwLock<Storage, StorageInv>>)
        ensures
            c_id >= self.kinds().len() ==> r is None,
            c_id < self.kinds().len() ==> (r matches Some(l) && l.pred() == StorageInv {
                kind: self.kinds()[c_id as int],
            }),
    {
        if (c_id as usize) < self.containers.len() {
            Some(&self.containers[c_id as usize])
        } else {
            None
        }
    }

    /// Empties container `c_id`; its id stays valid and its kind stays.
    pub fn delete_container(&self, db_id: DatabaseId, c_id: ContainerId) -> (r: Result<
        (),
        Status,
    >)
        ensures
            r == delete_container_outcome(self.db_open(), self.kinds().len(), db_id, c_id),
    {
        if !self.db_created || db_id != 0 {
            return Err(Status::DBNotFound);
        }
        match self.container(c_id) {
            None => Err(Status::ContainerNotFound),
            Some(lock) => {
                let (mut storage, handle) = lock.acquire_write();
                storage.clear();
                handle.release_write(storage);
                Ok(())
            },
        }
    }

    /// The ids of every container created since the database was opened,
    /// emptied ones included.
    pub fn list_containers(&self, db_id: DatabaseId) -> (r: Result<HashSet<ContainerId>, Status>)
        requires
            self.wf(),
        ensures
            match r {
                Ok(s) => list_containers_outcome(self.db_open(), self.kinds().len(), db_id) == Ok::<
                    Set<ContainerId>,
                    Status,
                >(s@),
                Err(e) => list_containers_outcome(self.db_open(), self.kinds().len(), db_id)
                    == Err::<Set<ContainerId>, Status>(e),
            },
    {
        if !self.db_created || db_id != 0 {
            return Err(Status::DBNotFound);
        }
        let n = self.containers.len();
        let mut ids: HashSet<ContainerId> = HashSet::new();
        let mut i: usize = 0;
        while i < n
            invariant
                n == self.kinds().len(),
                n <= MAX_CONTAINERS,
                i <= n,
                ids@ == container_ids(i as nat),
            decreases n - i,
        {
            ids.insert(i as ContainerId);
            assert(ids@ =~= container_ids((i + 1) as nat));
            i = i + 1;
        }
        Ok(ids)
    }

    /// Whether `key` is present in container `c_id`.
    pub fn check_value(&self, c_id: ContainerId, key: &[u8]) -> (r: Result<bool, Status>)
        ensures
            c_id >= self.kinds().len() ==> r == Err::<bool, Status>(Status::ContainerNotFound),
            c_id < self.kinds().len() ==> (r matches Ok(b) && exists|m: Map<Bytes, Bytes>|
                b == #[trigger] m.contains_key(key@)),
    {
        match self.container(c_id) {
            None => Err(Status::ContainerNotFound),
            Some(lock) => {
                let handle = lock.acquire_read();
                let r = handle.borrow().get(key);
                let ghost m = handle.view()@;
                handle.release_read();
                assert(r is Ok == m.contains_key(key@));
                Ok(r.is_ok())
            },
        }
    }

    /// A copy of the value stored for `key` in container `c_id`.
    pub fn get_value(&self, c_id: ContainerId, key: &[u8]) -> (r: Result<Vec<u8>, Status>)
        ensures
            c_id >= self.kinds().len() ==> r == Err::<Vec<u8>, Status>(Status::ContainerNotFound),
            c_id < self.kinds().len() ==> exists|m: Map<Bytes, Bytes>|
                bytes_result(r) == #[trigger] get_step(m, key@),
    {
        match self.container(c_id) {
            None => Err(Status::ContainerNotFound),
            Some(lock) => {
                let handle = lock.acquire_read();
                let r = handle.borrow().get(key);
                let ghost m = handle.view()@;
                handle.release_read();
                assert(bytes_result(r) == get_step(m, key@));
                r
            },
        }
    }

    /// Inserts `key` with `value` into container `c_id` if `key` is absent.
    pub fn insert_value(&self, c_id: ContainerId, key: Vec<u8>, value: Vec<u8>) -> (r: Result<
        (),
        Status,
    >)
        ensures
            c_id >= self.kinds().len() ==> r == Err::<(), Status>(Status::ContainerNotFound),
            c_id < self.kinds().len() ==> exists|m: Map<Bytes, Bytes>|
                r == (#[trigger] insert_step(m, key@, value@)).1,
    {
        match self.container(c_id) {
            None => Err(Status::ContainerNotFound),
            Some(lock) => {
                let (mut storage, handle) = lock.acquire_write();
                let ghost m = storage@;
                let ghost (k, v) = (key@, value@);
                let r = storage.insert(key, value);
                handle.release_write(storage);
                assert(r == insert_step(m, k, v).1);
                r
            },
        }
    }

    /// Inserts the pairs of `kvs` in order into container `c_id`, stopping
    /// at the first key that is already present; earlier pairs stay.
    pub fn insert_values(&self, c_id: ContainerId, kvs: Vec<(Vec<u8>, Vec<u8>)>) -> (r: Result<
        (),
        Status,
    >)
        ensures
            c_id >= self.kinds().len() ==> r == Err::<(), Status>(Status::ContainerNotFound),
            c_id < self.kinds().len() ==> exists|m: Map<Bytes, Bytes>|
                r == (#[trigger] insert_all_step(m, pairs_view(kvs@))).1,
    {
        match self.container(c_id) {
            None => Err(Status::ContainerNotFound),
            Some(lock) => {
                let (mut storage, handle) = lock.acquire_write();
                let ghost m = storage@;
                let ghost all = pairs_view(kvs@);
                let r = storage.insert_values(kvs);
                handle.release_write(storage);
                assert(r == insert_all_step(m, all).1);
                r
            },
        }
    }

    /// Replaces the value of `key` in container `c_id` if `key` is present.
    pub fn update_value(&self, c_id: ContainerId, key: &[u8], value: Vec<u8>) -> (r: Result<
        (),
        Status,
    >)
        ensures
            c_id >= self.kinds().len() ==> r == Err::<(), Status>(Status::ContainerNotFound),
            c_id < self.kinds().len() ==> exists|m: Map<Bytes, Bytes>|
                r == (#[trigger] update_step(m, key@, value@)).1,
    {
        match self.container(c_id) {
            None => Err(Status::ContainerNotFound),
            Some(lock) => {
                let (mut storage, handle) = lock.acquire_write();
                let ghost m = storage@;
                let ghost v = value@;
                let r = storage.update(key, value);
                handle.release_write(storage);
                assert(r == update_step(m, key@, v).1);
                r
            },
        }
    }

    /// Deletes `key` from container `c_id` if it is present.
    pub fn delete_value(&self, c_id: ContainerId, key: &[u8]) -> (r: Result<(), Status>)
        ensures
            c_id >= self.kinds().len() ==> r == Err::<(), Status>(Status::ContainerNotFound),
            c_id < self.kinds().len() ==> exists|m: Map<Bytes, Bytes>|
                r == (#[trigger] remove_step(m, key@)).1,
    {
        match self.container(c_id) {
            None => Err(Status::ContainerNotFound),
            Some(lock) => {
                let (mut storage, handle) = lock.acquire_write();
                let ghost m = storage@;
                let r = storage.remove(key);
                handle.release_write(storage);
                assert(r == remove_step(m, key@).1);
                r
            },
        }
    }

    /// A snapshot of container `c_id`, taken under its read lock: each key
    /// once, in ascending order for a `BTree` container.
    pub fn scan_range(&self, c_id: ContainerId) -> (r: Result<InMemIterator, Status>)
        ensures
            c_id >= self.kinds().len() ==> r is Err && r->Err_0 == Status::ContainerNotFound,
            c_id < self.kinds().len() ==> (r matches Ok(it) && exists|s: Storage|
                s.wf() && s.kind() == self.kinds()[c_id as int] && it@ == #[trigger] s.pairs()),
            c_id < self.kinds().len() ==> (r matches Ok(it) && keys_distinct(it@)),
            c_id < self.kinds().len() && self.kinds()[c_id as int] == ContainerType::BTree ==> (
            r matches Ok(it) && keys_ascending(it@)),
    {
        match self.container(c_id) {
            None => Err(Status::ContainerNotFound),
            Some(lock) => {
                let handle = lock.acquire_read();
                let it = handle.borrow().iter();
                let ghost s = handle.view();
                handle.release_read();
                assert(it@ == s.pairs());
                Ok(it)
            },
        }
    }
}

/// A transaction handle. This engine has no concurrency control: the handle
/// only records the database it was opened against.
pub struct InMemDummyTxnHandle {
    db_id: DatabaseId,
}

impl InMemDummyTxnHandle {
    pub closed spec fn spec_db_id(&self) -> DatabaseId {
        self.db_id
    }

    pub fn new(db_id: DatabaseId) -> (r: Self)
        ensures
            r.spec_db_id() == db_id,
    {
        InMemDummyTxnHandle { db_id }
    }

    pub fn db_id(&self) -> (r: DatabaseId)
        ensures
            r == self.spec_db_id(),
    {
        self.db_id
    }
}

/// The in-memory storage engine, safe to share between threads.
///
/// Opening and deleting the database, and creating and deleting containers,
/// take the list lock for writing, so they wait for operations under way and
/// hold back new ones. A container id is usable once `create_container` has
/// returned it; an id that no container has (never returned, or returned
/// before the database was deleted) gives `ContainerNotFound`.
pub struct InMemStorage {
    list: RwLock<ContainerList, ListInv>,
}

impl InMemStorage {
    /// An engine with no database.
    pub fn new() -> (r: Self) {
        InMemStorage { list: RwLock::new(ContainerList::new(), Ghost(ListInv {})) }
    }
}

impl Default for InMemStorage {
    fn default() -> (r: Self) {
        Self::new()
    }
}

/// Each operation takes the list lock, hands the work to `ContainerList`,
/// and releases the lock. Other threads may act between two calls, so what a
/// call returns is stated as the outcome on some state of the engine: the
/// one it found while it held the lock.
impl TxnStorageTrait for InMemStorage {
    type TxnHandle = InMemDummyTxnHandle;
    type IteratorHandle = InMemIterator;

    /// Opens the database; fails with `DBExists` if it is open already.
    fn open_db(&self, _options: DBOptions) -> (r: Result<DatabaseId, Status>)
        ensures
            exists|db_open: bool| r == #[trigger] open_db_outcome(db_open),
    {
        let (mut list, handle) = self.list.acquire_write();
        let ghost db_open = list.db_open();
        let r = list.open_db();
        handle.release_write(list);
        assert(r == open_db_outcome(db_open));
        r
    }

    /// Does nothing: there is no connection state to release.
    fn close_db(&self, _db_id: &DatabaseId) -> (r: Result<(), Status>)
        ensures
            r is Ok,
    {
        Ok(())
    }

    /// Deletes the open database with its containers; fails with
    /// `DBNotFound` if `db_id` is not the open database.
    fn delete_db(&self, db_id: &DatabaseId) -> (r: Result<(), Status>)
        ensures
            exists|db_open: bool| r == #[trigger] delete_db_outcome(db_open, *db_id),
    {
        let (mut list, handle) = self.list.acquire_write();
        let ghost db_open = list.db_open();
        let r = list.delete_db(*db_id);
        handle.release_write(list);
        assert(r == delete_db_outcome(db_open, *db_id));
        r
    }

    /// Appends an empty container of the kind the options name and returns
    /// its id, the number of containers before it.
    fn create_container(
        &self,
        _txn: &InMemDummyTxnHandle,
        db_id: &DatabaseId,
        options: ContainerOptions,
    ) -> (r: Result<ContainerId, Status>)
        ensures
            exists|db_open: bool, n: nat|
                n <= MAX_CONTAINERS && r == #[trigger] create_container_outcome(
                    db_open,
                    n,
                    *db_id,
                ),
    {
        let c_type = options.get_type();
        let (mut list, handle) = self.list.acquire_write();
        let ghost (db_open, n) = (list.db_open(), list.kinds().len());
        let r = list.create_container(*db_id, c_type);
        handle.release_write(list);
        assert(r == create_container_outcome(db_open, n, *db_id));
        r
    }

    /// Empties container `c_id` under the list's write lock; the id stays
    /// listed and usable.
    fn delete_container(
        &self,
        _txn: &InMemDummyTxnHandle,
        db_id: &DatabaseId,
        c_id: &ContainerId,
    ) -> (r: Result<(), Status>)
        ensures
            exists|db_open: bool, n: nat|
                r == #[trigger] delete_container_outcome(db_open, n, *db_id, *c_id),
    {
        let (list, handle) = self.list.acquire_write();
        let ghost (db_open, n) = (list.db_open(), list.kinds().len());
        let r = list.delete_container(*db_id, *c_id);
        handle.release_write(list);
        assert(r == delete_container_outcome(db_open, n, *db_id, *c_id));
        r
    }

    /// The ids of all containers created since the database was opened.
    fn list_containers(&self, _txn: &InMemDummyTxnHandle, db_id: &DatabaseId) -> (r: Result<
        HashSet<ContainerId>,
        Status,
    >)
        ensures
            exists|db_open: bool, n: nat|
                n <= MAX_CONTAINERS && match r {
                    Ok(s) => #[trigger] list_containers_outcome(db_open, n, *db_id) == Ok::<
                        Set<ContainerId>,
                        Status,
                    >(s@),
                    Err(e) => list_containers_outcome(db_open, n, *db_id) == Err::<
                        Set<ContainerId>,
                        Status,
                    >(e),
                },
    {
        let handle = self.list.acquire_read();
        let list = handle.borrow();
        let ghost (db_open, n) = (list.db_open(), list.kinds().len());
        let r = list.list_containers(*db_id);
        handle.release_read();
        r
    }

    /// A handle that records `db_id`.
    fn begin_txn(&self, db_id: &DatabaseId, _options: TxnOptions) -> (r: Result<
        InMemDummyTxnHandle,
        Status,
    >)
        ensures
            r matches Ok(h) && h.spec_db_id() == *db_id,
    {
        Ok(InMemDummyTxnHandle::new(*db_id))
    }

    /// Succeeds at once: every change is already visible.
    fn commit_txn(&self, _txn: &InMemDummyTxnHandle, _async_commit: bool) -> (r: Result<
        (),
        Status,
    >)
        ensures
            r is Ok,
    {
        Ok(())
    }

    /// Succeeds at once: nothing is rolled back.
    fn abort_txn(&self, _txn: &InMemDummyTxnHandle) -> (r: Result<(), Status>)
        ensures
            r is Ok,
    {
        Ok(())
    }

    /// Succeeds at once.
    fn wait_for_txn(&self, _txn: &InMemDummyTxnHandle) -> (r: Result<(), Status>)
        ensures
            r is Ok,
    {
        Ok(())
    }

    /// Succeeds at once.
    fn drop_txn(&self, _txn: InMemDummyTxnHandle) -> (r: Result<(), Status>)
        ensures
            r is Ok,
    {
        Ok(())
    }

    /// Whether `key` is present in container `c_id`.
    fn check_value(&self, _txn: &InMemDummyTxnHandle, c_id: &ContainerId, key: &[u8]) -> (r:
        Result<bool, Status>)
        ensures
            r is Ok || r == Err::<bool, Status>(Status::ContainerNotFound),
    {
        let handle = self.list.acquire_read();
        let r = handle.borrow().check_value(*c_id, key);
        handle.release_read();
        r
    }

    /// A copy of the value stored for `key` in container `c_id`.
    fn get_value(&self, _txn: &InMemDummyTxnHandle, c_id: &ContainerId, key: &[u8]) -> (r:
        Result<Vec<u8>, Status>)
        ensures
            r == Err::<Vec<u8>, Status>(Status::ContainerNotFound) || exists|m: Map<Bytes, Bytes>|
                bytes_result(r) == #[trigger] get_step(m, key@),
    {
        let handle = self.list.acquire_read();
        let r = handle.borrow().get_value(*c_id, key);
        handle.release_read();
        r
    }

    /// Inserts `key` with `value` into container `c_id` if `key` is absent.
    fn insert_value(
        &self,
        _txn: &InMemDummyTxnHandle,
        c_id: &ContainerId,
        key: Vec<u8>,
        value: Vec<u8>,
    ) -> (r: Result<(), Status>)
        ensures
            r == Err::<(), Status>(Status::ContainerNotFound) || exists|m: Map<Bytes, Bytes>|
                r == (#[trigger] insert_step(m, key@, value@)).1,
    {
        let handle = self.list.acquire_read();
        let r = handle.borrow().insert_value(*c_id, key, value);
        handle.release_read();
        r
    }

    /// Inserts the pairs of `kvs` in order into container `c_id`, stopping
    /// at the first key already present; earlier pairs stay.
    fn insert_values(
        &self,
        _txn: &InMemDummyTxnHandle,
        c_id: &ContainerId,
        kvs: Vec<(Vec<u8>, Vec<u8>)>,
    ) -> (r: Result<(), Status>)
        ensures
            r == Err::<(), Status>(Status::ContainerNotFound) || exists|m: Map<Bytes, Bytes>|
                r == (#[trigger] insert_all_step(m, pairs_view(kvs@))).1,
    {
        let handle = self.list.acquire_read();
        let r = handle.borrow().insert_values(*c_id, kvs);
        handle.release_read();
        r
    }

    /// Replaces the value of `key` in container `c_id` if `key` is present.
    fn update_value(
        &self,
        _txn: &InMemDummyTxnHandle,
        c_id: &ContainerId,
        key: &[u8],
        value: Vec<u8>,
    ) -> (r: Result<(), Status>)
        ensures
            r == Err::<(), Status>(Status::ContainerNotFound) || exists|m: Map<Bytes, Bytes>|
                r == (#[trigger] update_step(m, key@, value@)).1,
    {
        let handle = self.list.acquire_read();
        let r = handle.borrow().update_value(*c_id, key, value);
        handle.release_read();
        r
    }

    /// Deletes `key` from container `c_id` if it is present.
    fn delete_value(&self, _txn: &InMemDummyTxnHandle, c_id: &ContainerId, key: &[u8]) -> (r:
        Result<(), Status>)
        ensures
            r == Err::<(), Status>(Status::ContainerNotFound) || exists|m: Map<Bytes, Bytes>|
                r == (#[trigger] remove_step(m, key@)).1,
    {
        let handle = self.list.acquire_read();
        let r = handle.borrow().delete_value(*c_id, key);
        handle.release_read();
        r
    }

    /// A snapshot of container `c_id`: each present key once, in ascending
    /// order where the container is a `BTree` one.
    fn scan_range(&self, _txn: &InMemDummyTxnHandle, c_id: &ContainerId, _options: ScanOptions) -> (r:
        Result<InMemIterator, Status>)
        ensures
            r is Err ==> r->Err_0 == Status::ContainerNotFound,
            r matches Ok(it) ==> exists|s: Storage| s.wf() && it@ == #[trigger] s.pairs(),
            r matches Ok(it) ==> keys_distinct(it@),
    {
        let handle = self.list.acquire_read();
        let r = handle.borrow().scan_range(*c_id);
        handle.release_read();
        r
    }

    /// The next pair of the scan, or `None` at its end.
    fn iter_next(&self, iter: &mut InMemIterator) -> (r: Result<Option<(Vec<u8>, Vec<u8>)>, Status>)
        ensures
            r is Ok,
            old(iter)@.len() == 0 ==> r->Ok_0 is None && final(iter)@ == old(iter)@,
            old(iter)@.len() > 0 ==> (r->Ok_0 matches Some(p) && (p.0@, p.1@) == old(iter)@[0]
                && final(iter)@ == old(iter)@.drop_first()),
    {
        Ok(iter.next())
    }

    /// Drops the snapshot.
    fn drop_iterator_handle(&self, _iter: InMemIterator) -> (r: Result<(), Status>)
        ensures
            r is Ok,
    {
        Ok(())
    }
}

} // verus!
