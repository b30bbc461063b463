//! The types that callers of a storage engine see: identifiers, options and
//! the error taxonomy.
use vstd::prelude::*;

use std::collections::HashSet;

verus! {

/// Outcome of a failed storage operation.
#[derive(Debug, Clone, Copy, PartialEq, Eq, Structural)]
pub enum Status {
    // Not found
    DBNotFound,
    ContainerNotFound,
    TxNotFound,
    KeyNotFound,
    // Already exists
    DBExists,
    ContainerExists,
    KeyExists,
    // Transaction errors, reserved for a concurrency-controlled backend
    TxnConflict,
    // System errors, reserved likewise
    SystemAbort,
    // Other errors
    Error,
}

/// The text that describes each status.
pub open spec fn status_message(s: Status) -> Seq<char> {
    match s {
        Status::DBNotFound => "DB not found"@,
        Status::ContainerNotFound => "Container not found"@,
        Status::TxNotFound => "Tx not found"@,
        Status::KeyNotFound => "Key not found"@,
        Status::DBExists => "DB already exists"@,
        Status::ContainerExists => "Container already exists"@,
        Status::KeyExists => "Key already exists"@,
        Status::TxnConflict => "Txn conflict"@,
        Status::SystemAbort => "System abort"@,
        Status::Error => "Error"@,
    }
}

impl Status {
    /// The text that describes this status.
    pub fn message(&self) -> (r: String)
        ensures
            r@ == status_message(*self),
    {
        match self {
            Status::DBNotFound => "DB not found".to_owned(),
            Status::ContainerNotFound => "Container not found".to_owned(),
            Status::TxNotFound => "Tx not found".to_owned(),
            Status::KeyNotFound => "Key not found".to_owned(),
            Status::DBExists => "DB already exists".to_owned(),
            Status::ContainerExists => "Container already exists".to_owned(),
            Status::KeyExists => "Key already exists".to_owned(),
            Status::TxnConflict => "Txn conflict".to_owned(),
            Status::SystemAbort => "System abort".to_owned(),
            Status::Error => "Error".to_owned(),
        }
    }
}

impl From<Status> for String {
    fn from(status: Status) -> (r: String)
        ensures
            r@ == status_message(status),
    {
        status.message()
    }
}

impl vstd::std_specs::convert::FromSpecImpl<Status> for String {
    open spec fn obeys_from_spec() -> bool {
        false
    }

    open spec fn from_spec(v: Status) -> String {
        arbitrary()
    }
}

/// Identifies a database.
pub type DatabaseId = u16;

/// Identifies a container: the index of its slot in the engine's container list.
pub type ContainerId = u16;

/// Options for opening a database.
pub struct DBOptions {
    name: String,
}

impl DBOptions {
    pub closed spec fn spec_name(&self) -> Seq<char> {
        self.name@
    }

    pub fn new(name: &str) -> (r: Self)
        ensures
            r.spec_name() == name@,
    {
        DBOptions { name: name.to_owned() }
    }

    pub fn name(&self) -> (r: &str)
        ensures
            r@ == self.spec_name(),
    {
        self.name.as_str()
    }
}

/// The backing structure of a container.
#[derive(Debug, Clone, Copy, PartialEq, Eq, Structural)]
pub enum ContainerType {
    /// Unordered: iteration visits each key once, in no promised order.
    Hash,
    /// Ordered: iteration visits keys in ascending byte-lexicographic order.
    BTree,
}

/// Options for creating a container.
pub struct ContainerOptions {
    name: String,
    c_type: ContainerType,
}

impl ContainerOptions {
    pub closed spec fn spec_name(&self) -> Seq<char> {
        self.name@
    }

    pub closed spec fn spec_type(&self) -> ContainerType {
        self.c_type
    }

    pub fn new(name: &str, c_type: ContainerType) -> (r: Self)
        ensures
            r.spec_name() == name@,
            r.spec_type() == c_type,
    {
        ContainerOptions { name: name.to_owned(), c_type }
    }

    pub fn name(&self) -> (r: &String)
        ensures
            r@ == self.spec_name(),
    {
        &self.name
    }

    pub fn get_type(&self) -> (r: ContainerType)
        ensures
            r == self.spec_type(),
    {
        self.c_type
    }
}

/// Options for beginning a transaction (none yet).
pub struct TxnOptions {}

impl Default for TxnOptions {
    fn default() -> (r: Self)
        ensures
            r == (TxnOptions {}),
    {
        TxnOptions {}
    }
}

/// Options for a scan. Every scan currently covers the whole key space.
pub struct ScanOptions {}

impl ScanOptions {
    pub fn new() -> (r: Self)
        ensures
            r == (ScanOptions {}),
    {
        ScanOptions {}
    }
}

impl Default for ScanOptions {
    fn default() -> (r: Self)
        ensures
            r == (ScanOptions {}),
    {
        ScanOptions::new()
    }
}

/// The operations every storage backend offers. Each data operation carries
/// a transaction handle, so that a backend with real concurrency control can
/// be substituted without changing callers.
pub trait TxnStorageTrait {
    type TxnHandle;
    type IteratorHandle;

    /// Opens the database.
    fn open_db(&self, options: DBOptions) -> Result<DatabaseId, Status>;

    /// Closes a connection to the database.
    fn close_db(&self, db_id: &DatabaseId) -> Result<(), Status>;

    /// Deletes the database and every container in it.
    fn delete_db(&self, db_id: &DatabaseId) -> Result<(), Status>;

    /// Creates a container in the database and returns its id.
    fn create_container(
        &self,
        txn: &Self::TxnHandle,
        db_id: &DatabaseId,
        options: ContainerOptions,
    ) -> Result<ContainerId, Status>;

    /// Deletes a container's contents; its id stays valid.
    fn delete_container(
        &self,
        txn: &Self::TxnHandle,
        db_id: &DatabaseId,
        c_id: &ContainerId,
    ) -> Result<(), Status>;

    /// The ids of the containers of the database.
    fn list_containers(&self, txn: &Self::TxnHandle, db_id: &DatabaseId) -> Result<
        HashSet<ContainerId>,
        Status,
    >;

    /// Begins a transaction.
    fn begin_txn(&self, db_id: &DatabaseId, options: TxnOptions) -> Result<Self::TxnHandle, Status>;

    /// Commits a transaction.
    fn commit_txn(&self, txn: &Self::TxnHandle, async_commit: bool) -> Result<(), Status>;

    /// Aborts a transaction.
    fn abort_txn(&self, txn: &Self::TxnHandle) -> Result<(), Status>;

    /// Waits for a transaction to finish.
    fn wait_for_txn(&self, txn: &Self::TxnHandle) -> Result<(), Status>;

    /// Drops a transaction handle.
    fn drop_txn(&self, txn: Self::TxnHandle) -> Result<(), Status>;

    /// Whether a key is present.
    fn check_value(&self, txn: &Self::TxnHandle, c_id: &ContainerId, key: &[u8]) -> Result<
        bool,
        Status,
    >;

    /// The value stored for a key.
    fn get_value(&self, txn: &Self::TxnHandle, c_id: &ContainerId, key: &[u8]) -> Result<
        Vec<u8>,
        Status,
    >;

    /// Inserts a key that is not yet present.
    fn insert_value(
        &self,
        txn: &Self::TxnHandle,
        c_id: &ContainerId,
        key: Vec<u8>,
        value: Vec<u8>,
    ) -> Result<(), Status>;

    /// Inserts pairs in order, stopping at the first failure.
    fn insert_values(
        &self,
        txn: &Self::TxnHandle,
        c_id: &ContainerId,
        kvs: Vec<(Vec<u8>, Vec<u8>)>,
    ) -> Result<(), Status>;

    /// Replaces the value of a present key.
    fn update_value(
        &self,
        txn: &Self::TxnHandle,
        c_id: &ContainerId,
        key: &[u8],
        value: Vec<u8>,
    ) -> Result<(), Status>;

    /// Deletes a present key.
    fn delete_value(&self, txn: &Self::TxnHandle, c_id: &ContainerId, key: &[u8]) -> Result<
        (),
        Status,
    >;

    /// Starts a scan over every pair of a container.
    fn scan_range(
        &self,
        txn: &Self::TxnHandle,
        c_id: &ContainerId,
        options: ScanOptions,
    ) -> Result<Self::IteratorHandle, Status>;

    /// The next pair of a scan.
    fn iter_next(&self, iter: &mut Self::IteratorHandle) -> Result<
        Option<(Vec<u8>, Vec<u8>)>,
        Status,
    >;

    /// Drops a scan.
    fn drop_iterator_handle(&self, iter: Self::IteratorHandle) -> Result<(), Status>;
}

} // verus!
