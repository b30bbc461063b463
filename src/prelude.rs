//! The names most callers need, in one place.
pub use crate::engine::{InMemDummyTxnHandle, InMemStorage};
pub use crate::interface::{
    ContainerId, ContainerOptions, ContainerType, DBOptions, DatabaseId, ScanOptions, Status,
    TxnOptions, TxnStorageTrait,
};
pub use crate::iterator::InMemIterator;
