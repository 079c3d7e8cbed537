//! Queries on the change store, which keeps changes in the tables of a redb
//! database.

pub mod contents;
pub mod database;
pub mod error;
pub mod export;
pub mod keys;
pub mod laws;
pub mod queries;
pub mod removal;
pub mod sections;

pub use error::{RedbStoreError, RedbStoreResult};
pub use export::{FileHeader, V3Record};
pub use queries::{ChangeMeta, RedbChangeStore, StoreStats};
pub use sections::{SectionType, StoredContentChunk, StoredSection};
