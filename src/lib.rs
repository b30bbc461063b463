//! An in-memory, container-granular key-value storage engine.
//!
//! A database holds containers; each container maps byte-string keys to
//! byte-string values and is either unordered (`Hash`) or kept in ascending
//! byte-lexicographic key order (`BTree`). Every operation carries a
//! transaction handle, which this engine treats as a label only.
pub mod engine;
pub mod interface;
pub mod iterator;
pub mod keys;
pub mod laws;
pub mod model;
pub mod prelude;
pub mod storage;

pub use crate::engine::{InMemDummyTxnHandle, InMemStorage};
pub use crate::interface::{
    ContainerId, ContainerOptions, ContainerType, DBOptions, DatabaseId, ScanOptions, Status,
    TxnOptions, TxnStorageTrait,
};
pub use crate::iterator::InMemIterator;
