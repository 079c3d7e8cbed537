//! What can go wrong in the change store.

use vstd::prelude::*;

verus! {

/// An error of the change store.
pub enum RedbStoreError {
    /// The change is not in the store.
    NotFound {
        /// The change asked for.
        hash: [u8; 32],
    },
    /// The store holds something that cannot be read back.
    Corrupt(String),
    /// A table that the query reads has never been created.
    MissingTable(String),
    /// No transaction could be begun.
    Transaction(redb::TransactionError),
    /// A table could not be opened, or its entries could not be counted or removed.
    Table(redb::TableError),
    /// An entry could not be read.
    Storage(redb::StorageError),
    /// The changes made could not be committed.
    Commit(redb::CommitError),
    /// Unhashed data is not JSON.
    Json(serde_json::Error),
}

/// Result of a change store operation.
pub type RedbStoreResult<T> = Result<T, RedbStoreError>;

/// A fault that lies in what the store holds, not in the database's working.
pub enum StoreFault {
    /// The named table is not there.
    MissingTable(Seq<char>),
    /// An entry cannot be read back, for the reason given.
    Corrupt(Seq<char>),
    /// An entry is not JSON.
    NotJson,
}

impl RedbStoreError {
    /// The fault in the store's contents that this error reports, if it reports one.
    pub open spec fn fault(self) -> Option<StoreFault> {
        match self {
            RedbStoreError::Corrupt(reason) => Some(StoreFault::Corrupt(reason@)),
            RedbStoreError::MissingTable(name) => Some(StoreFault::MissingTable(name@)),
            RedbStoreError::Json(_) => Some(StoreFault::NotJson),
            _ => None,
        }
    }

    /// The database itself failed while it opened a table or read or removed an entry.
    pub open spec fn is_database_failure(self) -> bool {
        self is Table || self is Storage
    }
}

} // verus!
