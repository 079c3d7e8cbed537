//! The redb database behind the store, and the codecs of its entries.
//!
//! A read transaction is a snapshot: what it shows does not change while it is
//! held. A write transaction shows what it has changed so far. Both are described
//! here by what their tables hold, each a map from key bytes to value bytes.

use vstd::prelude::*;

verus! {

/// Declares `redb::Database`, an open database. Nothing inside it is visible here.
#[verifier::external_type_specification]
#[verifier::external_body]
pub struct ExDatabase(redb::Database);

/// Declares `redb::ReadTransaction`, a snapshot of a database.
#[verifier::external_type_specification]
#[verifier::external_body]
pub struct ExReadTransaction(redb::ReadTransaction);

/// Declares `redb::WriteTransaction`, a set of changes to a database that is not yet
/// committed.
#[verifier::external_type_specification]
#[verifier::external_body]
pub struct ExWriteTransaction(redb::WriteTransaction);

/// Declares `redb::TransactionError`, why a transaction could not be begun.
#[verifier::external_type_specification]
#[verifier::external_body]
pub struct ExTransactionError(redb::TransactionError);

/// Declares `redb::TableError`, why a table could not be opened.
#[verifier::external_type_specification]
#[verifier::external_body]
pub struct ExTableError(redb::TableError);

/// Declares `redb::StorageError`, why an entry could not be read or removed.
#[verifier::external_type_specification]
#[verifier::external_body]
pub struct ExStorageError(redb::StorageError);

/// Declares `redb::CommitError`, why a transaction could not be committed.
#[verifier::external_type_specification]
#[verifier::external_body]
pub struct ExCommitError(redb::CommitError);

/// Declares `serde_json::Value`, a JSON value.
#[verifier::external_type_specification]
#[verifier::external_body]
pub struct ExJsonValue(serde_json::Value);

/// Declares `serde_json::Error`, why a text is not JSON.
#[verifier::external_type_specification]
#[verifier::external_body]
pub struct ExJsonError(serde_json::Error);

/// What the named table of a snapshot holds; `None` where there is no such table.
pub uninterp spec fn snapshot(txn: redb::ReadTransaction, table: Seq<char>) -> Option<
    Map<Seq<u8>, Seq<u8>>,
>;

/// What the named table holds as the write transaction stands; `None` where there is
/// no such table.
pub uninterp spec fn pending(txn: redb::WriteTransaction, table: Seq<char>) -> Option<
    Map<Seq<u8>, Seq<u8>>,
>;

/// The snapshot was taken of this database.
pub uninterp spec fn reads(txn: redb::ReadTransaction, db: redb::Database) -> bool;

/// The write transaction works on this database.
pub uninterp spec fn writes(txn: redb::WriteTransaction, db: redb::Database) -> bool;

/// The write transaction stands as it did when it was begun on this database: nothing has
/// been changed in it.
pub uninterp spec fn begun(txn: redb::WriteTransaction, db: redb::Database) -> bool;

/// The write transaction was committed as it stands.
pub uninterp spec fn committed(txn: redb::WriteTransaction) -> bool;

/// A table from the parts of changes to their compressed bytes: a `redb::ReadOnlyTable`.
#[verifier::external_body]
pub struct SectionTable {
    table: redb::ReadOnlyTable<&'static [u8; 36], &'static [u8]>,
}

/// A table from the parts of changes to the hashes of content chunks: a
/// `redb::ReadOnlyTable`.
#[verifier::external_body]
pub struct ManifestTable {
    table: redb::ReadOnlyTable<&'static [u8; 36], &'static [u8; 32]>,
}

/// A table from hashes to compressed bytes: a `redb::ReadOnlyTable`.
#[verifier::external_body]
pub struct RecordTable {
    table: redb::ReadOnlyTable<&'static [u8; 32], &'static [u8]>,
}

/// What a section table holds.
pub uninterp spec fn sections(table: SectionTable) -> Map<Seq<u8>, Seq<u8>>;

/// What a manifest table holds.
pub uninterp spec fn manifest(table: ManifestTable) -> Map<Seq<u8>, Seq<u8>>;

/// What a record table holds.
pub uninterp spec fn records(table: RecordTable) -> Map<Seq<u8>, Seq<u8>>;

/// Calls `redb::Database::begin_read`: the transaction shows this database. What it shows
/// depends on what has been committed, so nothing is claimed of that.
#[verifier::external_body]
pub(crate) fn begin_read(db: &redb::Database) -> (txn: Result<
    redb::ReadTransaction,
    redb::TransactionError,
>)
    ensures
        txn matches Ok(t) ==> reads(t, *db),
{
    db.begin_read()
}

/// Calls `redb::Database::begin_write`: the transaction works on this database, and nothing
/// has been changed in it. Where it starts from depends on what has been committed, so
/// nothing is claimed of that.
#[verifier::external_body]
pub(crate) fn begin_write(db: &redb::Database) -> (txn: Result<
    redb::WriteTransaction,
    redb::TransactionError,
>)
    ensures
        txn matches Ok(t) ==> writes(t, *db) && begun(t, *db),
{
    db.begin_write()
}

/// Calls `redb::WriteTransaction::commit`, which makes what the transaction changed
/// durable: where it succeeds, the transaction was committed as it stood. Whether it
/// succeeds depends on the disk, and what a later transaction sees is not claimed.
#[verifier::external_body]
pub(crate) fn commit(txn: redb::WriteTransaction) -> (done: Result<(), redb::CommitError>)
    ensures
        done is Ok ==> committed(txn),
{
    txn.commit()
}

/// Calls `redb::ReadTransaction::open_table`: the table opened holds what the
/// snapshot's table of that name holds, and `None` comes back where redb reports
/// that the table does not exist.
#[verifier::external_body]
pub(crate) fn open_sections(txn: &redb::ReadTransaction, name: &str) -> (table: Result<
    Option<SectionTable>,
    redb::TableError,
>)
    requires
        name@.len() > 0,
    ensures
        table matches Ok(Some(t)) ==> snapshot(*txn, name@) == Some(sections(t)),
        table matches Ok(None) ==> snapshot(*txn, name@) is None,
{
    match txn.open_table(redb::TableDefinition::new(name)) {
        Ok(table) => Ok(Some(SectionTable { table })),
        Err(redb::TableError::TableDoesNotExist(_)) => Ok(None),
        Err(e) => Err(e),
    }
}

/// Calls `redb::ReadTransaction::open_table`, as `open_sections` does, for a table of
/// chunk hashes.
#[verifier::external_body]
pub(crate) fn open_manifest(txn: &redb::ReadTransaction, name: &str) -> (table: Result<
    Option<ManifestTable>,
    redb::TableError,
>)
    requires
        name@.len() > 0,
    ensures
        table matches Ok(Some(t)) ==> snapshot(*txn, name@) == Some(manifest(t)),
        table matches Ok(None) ==> snapshot(*txn, name@) is None,
{
    match txn.open_table(redb::TableDefinition::new(name)) {
        Ok(table) => Ok(Some(ManifestTable { table })),
        Err(redb::TableError::TableDoesNotExist(_)) => Ok(None),
        Err(e) => Err(e),
    }
}

/// Calls `redb::ReadTransaction::open_table`, as `open_sections` does, for a table
/// keyed by hash.
#[verifier::external_body]
pub(crate) fn open_records(txn: &redb::ReadTransaction, name: &str) -> (table: Result<
    Option<RecordTable>,
    redb::TableError,
>)
    requires
        name@.len() > 0,
    ensures
        table matches Ok(Some(t)) ==> snapshot(*txn, name@) == Some(records(t)),
        table matches Ok(None) ==> snapshot(*txn, name@) is None,
{
    match txn.open_table(redb::TableDefinition::new(name)) {
        Ok(table) => Ok(Some(RecordTable { table })),
        Err(redb::TableError::TableDoesNotExist(_)) => Ok(None),
        Err(e) => Err(e),
    }
}

impl SectionTable {
    /// Calls `redb::ReadOnlyTable::get`: the value stored under the key, or `None`
    /// where the key is not in the table.
    #[verifier::external_body]
    pub(crate) fn get(&self, key: &[u8; 36]) -> (value: Result<Option<Vec<u8>>, redb::StorageError>)
        ensures
            value matches Ok(Some(v)) ==> sections(*self).contains_pair(key@, v@),
            value matches Ok(None) ==> !sections(*self).contains_key(key@),
    {
        Ok(self.table.get(key)?.map(|v| v.value().to_vec()))
    }
}

impl ManifestTable {
    /// Calls `redb::ReadOnlyTable::get`: the hash stored under the key, or `None`
    /// where the key is not in the table.
    #[verifier::external_body]
    pub(crate) fn get(&self, key: &[u8; 36]) -> (value: Result<
        Option<[u8; 32]>,
        redb::StorageError,
    >)
        ensures
            value matches Ok(Some(v)) ==> manifest(*self).contains_pair(key@, v@),
            value matches Ok(None) ==> !manifest(*self).contains_key(key@),
    {
        Ok(self.table.get(key)?.map(|v| *v.value()))
    }
}

impl RecordTable {
    /// Calls `redb::ReadOnlyTable::get`: the value stored under the key, or `None`
    /// where the key is not in the table.
    #[verifier::external_body]
    pub(crate) fn get(&self, key: &[u8; 32]) -> (value: Result<Option<Vec<u8>>, redb::StorageError>)
        ensures
            value matches Ok(Some(v)) ==> records(*self).contains_pair(key@, v@),
            value matches Ok(None) ==> !records(*self).contains_key(key@),
    {
        Ok(self.table.get(key)?.map(|v| v.value().to_vec()))
    }
}

/// Calls `redb::ReadTransaction::open_untyped_table` and, on the table,
/// `redb::ReadableTableMetadata::len`: the number of entries of the snapshot's table
/// of that name, or `None` where redb reports that the table does not exist.
#[verifier::external_body]
pub(crate) fn count_entries(txn: &redb::ReadTransaction, name: &str) -> (count: Result<
    Option<u64>,
    redb::TableError,
>)
    requires
        name@.len() > 0,
    ensures
        count matches Ok(Some(n)) ==> (snapshot(*txn, name@) matches Some(entries)
            && entries.dom().finite() && entries.len() == n),
        count matches Ok(None) ==> snapshot(*txn, name@) is None,
{
    match txn.open_untyped_table(redb::TableDefinition::<&[u8], &[u8]>::new(name)) {
        Ok(table) => Ok(Some(redb::ReadableTableMetadata::len(&table)?)),
        Err(redb::TableError::TableDoesNotExist(_)) => Ok(None),
        Err(e) => Err(e),
    }
}

/// What a table holds once it has been opened for writing: opening creates it.
pub open spec fn created(entries: Option<Map<Seq<u8>, Seq<u8>>>) -> Map<Seq<u8>, Seq<u8>> {
    match entries {
        Some(m) => m,
        None => Map::empty(),
    }
}

/// Between the two states of a write transaction only the named table has changed, and
/// `entries` is what it now holds. The transaction works on the database that it worked on.
pub open spec fn only_changed(
    before: redb::WriteTransaction,
    after: redb::WriteTransaction,
    table: Seq<char>,
    entries: Map<Seq<u8>, Seq<u8>>,
) -> bool {
    &&& pending(after, table) == Some(entries)
    &&& forall|other: Seq<char>|
        other != table ==> #[trigger] pending(after, other) == pending(before, other)
    &&& forall|db: redb::Database| writes(before, db) ==> #[trigger] writes(after, db)
}

/// Calls `redb::WriteTransaction::open_table`, which creates the table where it does
/// not exist, and closes it again.
#[verifier::external_body]
pub(crate) fn create_sections(txn: &mut redb::WriteTransaction, name: &str) -> (done: Result<
    (),
    redb::TableError,
>)
    requires
        name@.len() > 0,
    ensures
        done is Ok ==> only_changed(
            *old(txn),
            *final(txn),
            name@,
            created(pending(*old(txn), name@)),
        ),
{
    txn.open_table(redb::TableDefinition::<&[u8; 36], &[u8]>::new(name)).map(|_| ())
}

/// Calls `redb::WriteTransaction::open_table`, as `create_sections` does, for a table
/// of chunk hashes.
#[verifier::external_body]
pub(crate) fn create_manifest(txn: &mut redb::WriteTransaction, name: &str) -> (done: Result<
    (),
    redb::TableError,
>)
    requires
        name@.len() > 0,
    ensures
        done is Ok ==> only_changed(
            *old(txn),
            *final(txn),
            name@,
            created(pending(*old(txn), name@)),
        ),
{
    txn.open_table(redb::TableDefinition::<&[u8; 36], &[u8; 32]>::new(name)).map(|_| ())
}

/// Calls `redb::Table::remove` on the named table, opened for this with
/// `redb::WriteTransaction::open_table`: the key is gone from it, and the result
/// says whether it was there.
#[verifier::external_body]
pub(crate) fn remove_section(
    txn: &mut redb::WriteTransaction,
    name: &str,
    key: &[u8; 36],
) -> (removed: Result<bool, redb::TableError>)
    requires
        name@.len() > 0,
    ensures
        removed matches Ok(there) ==> {
            let entries = created(pending(*old(txn), name@));
            &&& only_changed(*old(txn), *final(txn), name@, entries.remove(key@))
            &&& there == entries.contains_key(key@)
        },
{
    let mut table = txn.open_table(redb::TableDefinition::<&[u8; 36], &[u8]>::new(name))?;
    let there = table.remove(key)?.is_some();
    Ok(there)
}

/// Calls `redb::Table::remove`, as `remove_section` does, on a table of chunk hashes.
#[verifier::external_body]
pub(crate) fn remove_manifest_entry(
    txn: &mut redb::WriteTransaction,
    name: &str,
    key: &[u8; 36],
) -> (removed: Result<bool, redb::TableError>)
    requires
        name@.len() > 0,
    ensures
        removed matches Ok(there) ==> {
            let entries = created(pending(*old(txn), name@));
            &&& only_changed(*old(txn), *final(txn), name@, entries.remove(key@))
            &&& there == entries.contains_key(key@)
        },
{
    let mut table = txn.open_table(redb::TableDefinition::<&[u8; 36], &[u8; 32]>::new(name))?;
    let there = table.remove(key)?.is_some();
    Ok(there)
}

/// Calls `redb::Table::remove`, as `remove_section` does, on a table keyed by hash.
#[verifier::external_body]
pub(crate) fn remove_record(
    txn: &mut redb::WriteTransaction,
    name: &str,
    key: &[u8; 32],
) -> (removed: Result<bool, redb::TableError>)
    requires
        name@.len() > 0,
    ensures
        removed matches Ok(there) ==> {
            let entries = created(pending(*old(txn), name@));
            &&& only_changed(*old(txn), *final(txn), name@, entries.remove(key@))
            &&& there == entries.contains_key(key@)
        },
{
    let mut table = txn.open_table(redb::TableDefinition::<&[u8; 32], &[u8]>::new(name))?;
    let there = table.remove(key)?.is_some();
    Ok(there)
}

/// What zstd makes of a compressed value: the bytes that were compressed, or the
/// message of the error it reports.
pub uninterp spec fn zstd_decoded(compressed: Seq<u8>) -> Result<Seq<u8>, Seq<char>>;

/// Calls `zstd::decode_all`: what it returns depends on the compressed bytes alone.
#[verifier::external_body]
pub(crate) fn decode_all(compressed: &[u8]) -> (decoded: Result<Vec<u8>, String>)
    ensures
        match decoded {
            Ok(bytes) => zstd_decoded(compressed@) == Ok::<Seq<u8>, Seq<char>>(bytes@),
            Err(message) => zstd_decoded(compressed@) == Err::<Seq<u8>, Seq<char>>(message@),
        },
{
    zstd::decode_all(compressed).map_err(|e| e.to_string())
}

/// The JSON value that the bytes are the text of; `None` where they are not JSON.
pub uninterp spec fn json_value(text: Seq<u8>) -> Option<serde_json::Value>;

/// Calls `serde_json::from_slice`: what it returns depends on the bytes alone.
#[verifier::external_body]
pub(crate) fn parse_json(text: &[u8]) -> (value: Result<serde_json::Value, serde_json::Error>)
    ensures
        match value {
            Ok(v) => json_value(text@) == Some(v),
            Err(_) => json_value(text@) is None,
        },
{
    serde_json::from_slice(text)
}

} // verus!
