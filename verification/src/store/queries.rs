//! Queries and statistics of the change store.

use vstd::prelude::*;

use super::database;
use super::database::{begin_read, count_entries, decode_all, open_records, parse_json};
use super::error::{RedbStoreError, RedbStoreResult, StoreFault};
use super::keys::{
    CHANGE_CHUNKS, CHANGE_GRAPH, CHANGE_META, CHANGE_SEMANTIC, CHANGE_UNHASHED, CONTENT_CHUNKS,
};
use super::sections;
use super::sections::{
    read_chunks, read_manifest, read_sections, SectionType, StoredContentChunk, StoredSection,
};
use crate::text;
use crate::text::decimal_text;

verus! {

/// What a change's metadata says of its parts.
pub struct ChangeMeta {
    /// The header of the change, encoded.
    pub header: Vec<u8>,
    /// How many graph sections it has.
    pub graph_section_count: u32,
    /// How many semantic sections it has.
    pub semantic_section_count: u32,
    /// How many content chunks it has.
    pub content_chunk_count: u32,
    /// The hashes that the change refers to by index.
    pub hash_table: Vec<[u8; 32]>,
    /// The indices of its dependencies in the hash table.
    pub dependency_indices: Vec<u32>,
    /// It carries provenance.
    pub has_provenance: bool,
    /// It carries unhashed data.
    pub has_unhashed: bool,
}

/// Statistics about the change store.
#[derive(Clone, Debug, PartialEq, Eq)]
pub struct StoreStats {
    /// Number of changes stored.
    pub change_count: u64,
    /// Number of graph section entries.
    pub graph_section_count: u64,
    /// Number of semantic section entries.
    pub semantic_section_count: u64,
    /// Number of unique content chunks.
    pub content_chunk_count: u64,
    /// Number of change-to-chunk mappings.
    pub change_chunk_mappings: u64,
    /// Number of unhashed entries.
    pub unhashed_count: u64,
}

/// A store of changes in a redb database.
pub struct RedbChangeStore {
    db: redb::Database,
}

/// How many entries a table has; one that has never been created has none.
pub open spec fn entry_count(entries: Option<Map<Seq<u8>, Seq<u8>>>) -> nat {
    match entries {
        Some(m) => m.len(),
        None => 0,
    }
}

/// The statistics of a snapshot.
pub open spec fn stats_match(stats: StoreStats, txn: redb::ReadTransaction) -> bool {
    &&& stats.change_count == entry_count(database::snapshot(txn, CHANGE_META@))
    &&& stats.graph_section_count == entry_count(database::snapshot(txn, CHANGE_GRAPH@))
    &&& stats.semantic_section_count == entry_count(database::snapshot(txn, CHANGE_SEMANTIC@))
    &&& stats.content_chunk_count == entry_count(database::snapshot(txn, CONTENT_CHUNKS@))
    &&& stats.change_chunk_mappings == entry_count(database::snapshot(txn, CHANGE_CHUNKS@))
    &&& stats.unhashed_count == entry_count(database::snapshot(txn, CHANGE_UNHASHED@))
}

/// The entry of a record table in a snapshot, if there is one.
pub open spec fn stored_record(
    txn: redb::ReadTransaction,
    table: Seq<char>,
    key: Seq<u8>,
) -> Result<Option<Seq<u8>>, StoreFault> {
    match database::snapshot(txn, table) {
        None => Err(StoreFault::MissingTable(table)),
        Some(entries) => Ok(
            if entries.contains_key(key) {
                Some(entries[key])
            } else {
                None
            },
        ),
    }
}

/// The unhashed data of a change, decompressed, if it has any. The table is created with
/// the first such data, so where there is no table no change has any.
pub open spec fn stored_unhashed(txn: redb::ReadTransaction, hash: Seq<u8>) -> Result<
    Option<Seq<u8>>,
    StoreFault,
> {
    match stored_record(txn, CHANGE_UNHASHED@, hash) {
        Err(_) => Ok(None),
        Ok(None) => Ok(None),
        Ok(Some(compressed)) => match database::zstd_decoded(compressed) {
            Ok(bytes) => Ok(Some(bytes)),
            Err(reason) => Err(
                StoreFault::Corrupt("unhashed decompression failed: "@ + reason),
            ),
        },
    }
}

/// The unhashed data of a change as JSON, if it has any.
pub open spec fn stored_json(txn: redb::ReadTransaction, hash: Seq<u8>) -> Result<
    Option<serde_json::Value>,
    StoreFault,
> {
    match stored_unhashed(txn, hash) {
        Err(fault) => Err(fault),
        Ok(None) => Ok(None),
        Ok(Some(bytes)) => match database::json_value(bytes) {
            Some(value) => Ok(Some(value)),
            None => Err(StoreFault::NotJson),
        },
    }
}

/// The data of chunks, joined in order.
pub open spec fn joined(parts: Seq<(u32, Seq<u8>, Seq<u8>)>) -> Seq<u8>
    decreases parts.len(),
{
    if parts.len() == 0 {
        Seq::empty()
    } else {
        joined(parts.drop_last()) + parts.last().2
    }
}

/// No snapshot could be taken.
pub open spec fn unbegun<T>(found: RedbStoreResult<T>) -> bool {
    found matches Err(RedbStoreError::Transaction(_))
}

/// The encoded metadata of a change, as the snapshot calls for it: what is stored, or that
/// the change is not there.
pub open spec fn answers_meta(
    txn: redb::ReadTransaction,
    hash: Seq<u8>,
    found: RedbStoreResult<Vec<u8>>,
) -> bool {
    match found {
        Ok(bytes) => stored_record(txn, CHANGE_META@, hash) == Ok::<
            Option<Seq<u8>>,
            StoreFault,
        >(Some(bytes@)),
        Err(RedbStoreError::NotFound { hash: absent }) => absent@ == hash && stored_record(
            txn,
            CHANGE_META@,
            hash,
        ) == Ok::<Option<Seq<u8>>, StoreFault>(None),
        Err(error) => sections::error_answers(error, stored_record(txn, CHANGE_META@, hash)),
    }
}

/// The sections of one layer, as the snapshot calls for them.
pub open spec fn answers_sections(
    txn: redb::ReadTransaction,
    kind: SectionType,
    hash: Seq<u8>,
    count: u32,
    found: RedbStoreResult<Vec<StoredSection>>,
) -> bool {
    match found {
        Ok(list) => {
            &&& sections::stored_sections(txn, kind, hash, count) == Ok::<
                Seq<(u32, Seq<u8>)>,
                StoreFault,
            >(sections::section_parts(list@))
            &&& forall|i: int|
                0 <= i < list@.len() ==> (#[trigger] list@[i]).section_type == kind
                    && list@[i].path@.len() == 0
        },
        Err(error) => sections::error_answers(
            error,
            sections::stored_sections(txn, kind, hash, count),
        ),
    }
}

/// The content chunks, as the snapshot calls for them.
pub open spec fn answers_chunks(
    txn: redb::ReadTransaction,
    hash: Seq<u8>,
    count: u32,
    found: RedbStoreResult<Vec<StoredContentChunk>>,
) -> bool {
    match found {
        Ok(list) => sections::stored_chunks(txn, hash, count) == Ok::<
            Seq<(u32, Seq<u8>, Seq<u8>)>,
            StoreFault,
        >(sections::chunk_parts(list@)),
        Err(error) => sections::error_answers(error, sections::stored_chunks(txn, hash, count)),
    }
}

/// The full content, as the snapshot calls for it.
pub open spec fn answers_content(
    txn: redb::ReadTransaction,
    hash: Seq<u8>,
    count: u32,
    found: RedbStoreResult<Vec<u8>>,
) -> bool {
    match found {
        Ok(content) => sections::stored_chunks(txn, hash, count) matches Ok(parts) && content@
            == joined(parts),
        Err(error) => sections::error_answers(error, sections::stored_chunks(txn, hash, count)),
    }
}

/// The chunk manifest, as the snapshot calls for it.
pub open spec fn answers_manifest(
    txn: redb::ReadTransaction,
    hash: Seq<u8>,
    count: u32,
    found: RedbStoreResult<Vec<(u32, [u8; 32])>>,
) -> bool {
    match found {
        Ok(list) => sections::stored_manifest(txn, hash, count) == Ok::<
            Seq<(u32, Seq<u8>)>,
            StoreFault,
        >(sections::manifest_parts(list@)),
        Err(error) => sections::error_answers(error, sections::stored_manifest(txn, hash, count)),
    }
}

/// Whether there is a content chunk with this hash, as the snapshot calls for it.
pub open spec fn answers_presence(
    txn: redb::ReadTransaction,
    chunk_hash: Seq<u8>,
    found: RedbStoreResult<bool>,
) -> bool {
    match found {
        Ok(there) => database::snapshot(txn, CONTENT_CHUNKS@) matches Some(contents) && there
            == contents.contains_key(chunk_hash),
        Err(error) => sections::error_answers(
            error,
            stored_record(txn, CONTENT_CHUNKS@, chunk_hash),
        ),
    }
}

/// The unhashed data as JSON, as the snapshot calls for it.
pub open spec fn answers_json(
    txn: redb::ReadTransaction,
    hash: Seq<u8>,
    found: RedbStoreResult<Option<serde_json::Value>>,
) -> bool {
    match found {
        Ok(value) => stored_json(txn, hash) == Ok::<Option<serde_json::Value>, StoreFault>(value),
        Err(error) => sections::error_answers(error, stored_json(txn, hash)),
    }
}

/// The entry of a record table in a snapshot, if there is one.
pub fn read_record(txn: &redb::ReadTransaction, table: &str, key: &[u8; 32]) -> (found:
    RedbStoreResult<Option<Vec<u8>>>)
    requires
        table@.len() > 0,
    ensures
        match found {
            Ok(Some(bytes)) => stored_record(*txn, table@, key@) == Ok::<
                Option<Seq<u8>>,
                StoreFault,
            >(Some(bytes@)),
            Ok(None) => stored_record(*txn, table@, key@) == Ok::<Option<Seq<u8>>, StoreFault>(
                None,
            ),
            Err(error) => sections::error_answers(error, stored_record(*txn, table@, key@)),
        },
{
    match open_records(txn, table) {
        Err(e) => Err(RedbStoreError::Table(e)),
        Ok(None) => Err(RedbStoreError::MissingTable(table.to_string())),
        Ok(Some(records)) => match records.get(key) {
            Err(e) => Err(RedbStoreError::Storage(e)),
            Ok(value) => Ok(value),
        },
    }
}

/// The unhashed data whose entry decompressed like this: its bytes, or why there are none.
pub fn unhashed_from(decoded: Result<Vec<u8>, String>) -> (bytes: RedbStoreResult<Vec<u8>>)
    ensures
        match decoded {
            Ok(data) => bytes == Ok::<Vec<u8>, RedbStoreError>(data),
            Err(reason) => bytes matches Err(error) && error.fault() == Some(
                StoreFault::Corrupt("unhashed decompression failed: "@ + reason@),
            ),
        },
{
    match decoded {
        Ok(data) => Ok(data),
        Err(reason) => {
            let mut message = "unhashed decompression failed: ".to_string();
            message.append(reason.as_str());
            Err(RedbStoreError::Corrupt(message))
        },
    }
}

/// The unhashed data whose bytes were parsed like this: its JSON value, or why there is none.
pub fn json_from(parsed: Result<serde_json::Value, serde_json::Error>) -> (value: RedbStoreResult<
    Option<serde_json::Value>,
>)
    ensures
        match parsed {
            Ok(v) => value == Ok::<Option<serde_json::Value>, RedbStoreError>(Some(v)),
            Err(e) => value == Err::<Option<serde_json::Value>, RedbStoreError>(
                RedbStoreError::Json(e),
            ),
        },
{
    match parsed {
        Ok(v) => Ok(Some(v)),
        Err(e) => Err(RedbStoreError::Json(e)),
    }
}

/// The unhashed data of the change `hash` in a snapshot, decompressed, if it has any.
pub fn read_unhashed_bytes(txn: &redb::ReadTransaction, hash: &[u8; 32]) -> (found:
    RedbStoreResult<Option<Vec<u8>>>)
    ensures
        match found {
            Ok(Some(data)) => stored_unhashed(*txn, hash@) == Ok::<Option<Seq<u8>>, StoreFault>(
                Some(data@),
            ),
            Ok(None) => stored_unhashed(*txn, hash@) == Ok::<Option<Seq<u8>>, StoreFault>(None),
            Err(error) => sections::error_answers(error, stored_unhashed(*txn, hash@)),
        },
{
    proof {
        reveal_strlit("change_unhashed");
    }
    match open_records(txn, CHANGE_UNHASHED) {
        Err(e) => Err(RedbStoreError::Table(e)),
        Ok(None) => Ok(None),
        Ok(Some(table)) => match table.get(hash) {
            Err(e) => Err(RedbStoreError::Storage(e)),
            Ok(None) => Ok(None),
            Ok(Some(compressed)) => match unhashed_from(decode_all(compressed.as_slice())) {
                Ok(data) => Ok(Some(data)),
                Err(e) => Err(e),
            },
        },
    }
}

/// The unhashed data of the change `hash` in a snapshot, as JSON, if it has any.
pub fn read_unhashed(txn: &redb::ReadTransaction, hash: &[u8; 32]) -> (found: RedbStoreResult<
    Option<serde_json::Value>,
>)
    ensures
        match found {
            Ok(value) => stored_json(*txn, hash@) == Ok::<Option<serde_json::Value>, StoreFault>(
                value,
            ),
            Err(error) => sections::error_answers(error, stored_json(*txn, hash@)),
        },
{
    match read_unhashed_bytes(txn, hash) {
        Err(e) => Err(e),
        Ok(None) => Ok(None),
        Ok(Some(bytes)) => json_from(parse_json(bytes.as_slice())),
    }
}

/// The number of entries of the named table in a snapshot.
pub fn count_table_entries(txn: &redb::ReadTransaction, table: &str) -> (count: RedbStoreResult<
    u64,
>)
    requires
        table@.len() > 0,
    ensures
        match count {
            Ok(n) => n == entry_count(database::snapshot(*txn, table@)),
            Err(error) => error is Table,
        },
{
    match count_entries(txn, table) {
        Err(e) => Err(RedbStoreError::Table(e)),
        Ok(None) => Ok(0),
        Ok(Some(n)) => Ok(n),
    }
}

/// The statistics of a snapshot.
pub fn read_stats(txn: &redb::ReadTransaction) -> (stats: RedbStoreResult<StoreStats>)
    ensures
        match stats {
            Ok(s) => stats_match(s, *txn),
            Err(error) => error is Table,
        },
{
    proof {
        reveal_strlit("change_meta");
        reveal_strlit("change_graph");
        reveal_strlit("change_semantic");
        reveal_strlit("content_chunks");
        reveal_strlit("change_chunks");
        reveal_strlit("change_unhashed");
    }
    let change_count: u64 = match count_table_entries(txn, CHANGE_META) {
        Ok(n) => n,
        Err(e) => return Err(e),
    };
    let graph_section_count: u64 = match count_table_entries(txn, CHANGE_GRAPH) {
        Ok(n) => n,
        Err(e) => return Err(e),
    };
    let semantic_section_count: u64 = match count_table_entries(txn, CHANGE_SEMANTIC) {
        Ok(n) => n,
        Err(e) => return Err(e),
    };
    let content_chunk_count: u64 = match count_table_entries(txn, CONTENT_CHUNKS) {
        Ok(n) => n,
        Err(e) => return Err(e),
    };
    let change_chunk_mappings: u64 = match count_table_entries(txn, CHANGE_CHUNKS) {
        Ok(n) => n,
        Err(e) => return Err(e),
    };
    let unhashed_count: u64 = match count_table_entries(txn, CHANGE_UNHASHED) {
        Ok(n) => n,
        Err(e) => return Err(e),
    };
    Ok(
        StoreStats {
            change_count,
            graph_section_count,
            semantic_section_count,
            content_chunk_count,
            change_chunk_mappings,
            unhashed_count,
        },
    )
}

/// The data of `chunks`, joined in order.
pub fn join_chunks(chunks: &Vec<StoredContentChunk>) -> (content: Vec<u8>)
    ensures
        content@ == joined(sections::chunk_parts(chunks@)),
{
    let mut content: Vec<u8> = Vec::new();
    let ghost parts = sections::chunk_parts(chunks@);
    let mut i: usize = 0;
    assert(parts.take(0) =~= Seq::empty());
    while i < chunks.len()
        invariant
            i <= chunks@.len(),
            parts == sections::chunk_parts(chunks@),
            content@ == joined(parts.take(i as int)),
        decreases chunks@.len() - i,
    {
        let ghost before = content@;
        content.extend_from_slice(chunks[i].data.as_slice());
        assert(content@ =~= before + chunks@[i as int].data@);
        assert(parts.take(i + 1).drop_last() =~= parts.take(i as int));
        i = i + 1;
    }
    assert(parts.take(i as int) =~= parts);
    content
}

impl StoreStats {
    /// The statistics of an empty store.
    pub fn empty() -> (stats: StoreStats)
        ensures
            stats.change_count == 0,
            stats.graph_section_count == 0,
            stats.semantic_section_count == 0,
            stats.content_chunk_count == 0,
            stats.change_chunk_mappings == 0,
            stats.unhashed_count == 0,
    {
        StoreStats {
            change_count: 0,
            graph_section_count: 0,
            semantic_section_count: 0,
            content_chunk_count: 0,
            change_chunk_mappings: 0,
            unhashed_count: 0,
        }
    }

    /// The statistics as one line.
    pub open spec fn line(self) -> Seq<char> {
        text::decimal(self.change_count as nat) + " changes, "@ + text::decimal(
            self.graph_section_count as nat,
        ) + " graph sections, "@ + text::decimal(self.semantic_section_count as nat)
            + " semantic sections, "@ + text::decimal(self.content_chunk_count as nat)
            + " unique chunks ("@ + text::decimal(self.change_chunk_mappings as nat)
            + " mappings), "@ + text::decimal(self.unhashed_count as nat) + " unhashed"@
    }

    /// The statistics as one line.
    pub fn to_text(&self) -> (line: String)
        ensures
            line@ == self.line(),
    {
        let mut line = decimal_text(self.change_count);
        line.append(" changes, ");
        line.append(decimal_text(self.graph_section_count).as_str());
        line.append(" graph sections, ");
        line.append(decimal_text(self.semantic_section_count).as_str());
        line.append(" semantic sections, ");
        line.append(decimal_text(self.content_chunk_count).as_str());
        line.append(" unique chunks (");
        line.append(decimal_text(self.change_chunk_mappings).as_str());
        line.append(" mappings), ");
        line.append(decimal_text(self.unhashed_count).as_str());
        line.append(" unhashed");
        line
    }
}

impl Default for StoreStats {
    fn default() -> (stats: StoreStats)
        ensures
            stats.change_count == 0,
            stats.graph_section_count == 0,
            stats.semantic_section_count == 0,
            stats.content_chunk_count == 0,
            stats.change_chunk_mappings == 0,
            stats.unhashed_count == 0,
    {
        StoreStats::empty()
    }
}

impl RedbChangeStore {
    /// A store in the given database.
    pub fn new(db: redb::Database) -> (store: RedbChangeStore)
        ensures
            store.database() == db,
    {
        RedbChangeStore { db }
    }

    /// The database that holds the store.
    pub closed spec fn database(self) -> redb::Database {
        self.db
    }

    /// The database that holds the store.
    pub fn db(&self) -> (db: &redb::Database)
        ensures
            *db == self.database(),
    {
        &self.db
    }

    /// The snapshot was taken of this store.
    pub open spec fn shows(self, txn: redb::ReadTransaction) -> bool {
        database::reads(txn, self.database())
    }

    fn snapshot(&self) -> (txn: RedbStoreResult<redb::ReadTransaction>)
        ensures
            match txn {
                Ok(t) => self.shows(t),
                Err(error) => error is Transaction,
            },
    {
        match begin_read(&self.db) {
            Ok(txn) => Ok(txn),
            Err(e) => Err(RedbStoreError::Transaction(e)),
        }
    }

    /// The encoded metadata of the change `hash`, as stored.
    pub fn load_meta_bytes(&self, hash: &[u8; 32]) -> (found: RedbStoreResult<Vec<u8>>)
        ensures
            unbegun(found) || exists|txn: redb::ReadTransaction|
                self.shows(txn) && #[trigger] answers_meta(txn, hash@, found),
    {
        proof {
            reveal_strlit("change_meta");
        }
        let txn = match self.snapshot() {
            Ok(txn) => txn,
            Err(e) => return Err(e),
        };
        let found = match read_record(&txn, CHANGE_META, hash) {
            Err(e) => Err(e),
            Ok(None) => Err(RedbStoreError::NotFound { hash: *hash }),
            Ok(Some(bytes)) => Ok(bytes),
        };
        assert(answers_meta(txn, hash@, found));
        found
    }

    /// All graph sections of a change, ordered by file index: what applying the change
    /// needs, without loading anything else of it. `meta` is the change's metadata, or the
    /// reason why there is none. The paths of the files are left to `with_paths`.
    pub fn load_graph_sections(&self, hash: &[u8; 32], meta: RedbStoreResult<ChangeMeta>) -> (found:
        RedbStoreResult<Vec<StoredSection>>)
        ensures
            match meta {
                Err(error) => found == Err::<Vec<StoredSection>, RedbStoreError>(error),
                Ok(m) => unbegun(found) || exists|txn: redb::ReadTransaction|
                    self.shows(txn) && #[trigger] answers_sections(
                        txn,
                        SectionType::Graph,
                        hash@,
                        m.graph_section_count,
                        found,
                    ),
            },
    {
        let meta = match meta {
            Ok(meta) => meta,
            Err(e) => return Err(e),
        };
        let txn = match self.snapshot() {
            Ok(txn) => txn,
            Err(e) => return Err(e),
        };
        let found = read_sections(&txn, SectionType::Graph, hash, meta.graph_section_count);
        assert(answers_sections(
            txn,
            SectionType::Graph,
            hash@,
            meta.graph_section_count,
            found,
        ));
        found
    }

    /// All semantic sections of a change, ordered by file index: what code review needs,
    /// without loading graph operations. `meta` is the change's metadata, or the reason why
    /// there is none.
    pub fn load_semantic_sections(
        &self,
        hash: &[u8; 32],
        meta: RedbStoreResult<ChangeMeta>,
    ) -> (found: RedbStoreResult<Vec<StoredSection>>)
        ensures
            match meta {
                Err(error) => found == Err::<Vec<StoredSection>, RedbStoreError>(error),
                Ok(m) => unbegun(found) || exists|txn: redb::ReadTransaction|
                    self.shows(txn) && #[trigger] answers_sections(
                        txn,
                        SectionType::Semantic,
                        hash@,
                        m.semantic_section_count,
                        found,
                    ),
            },
    {
        let meta = match meta {
            Ok(meta) => meta,
            Err(e) => return Err(e),
        };
        let txn = match self.snapshot() {
            Ok(txn) => txn,
            Err(e) => return Err(e),
        };
        let found = read_sections(&txn, SectionType::Semantic, hash, meta.semantic_section_count);
        assert(answers_sections(
            txn,
            SectionType::Semantic,
            hash@,
            meta.semantic_section_count,
            found,
        ));
        found
    }

    /// All content chunks of a change, in order. `meta` is the change's metadata, or the
    /// reason why there is none.
    pub fn load_content_chunks(&self, hash: &[u8; 32], meta: RedbStoreResult<ChangeMeta>) -> (found:
        RedbStoreResult<Vec<StoredContentChunk>>)
        ensures
            match meta {
                Err(error) => found == Err::<Vec<StoredContentChunk>, RedbStoreError>(error),
                Ok(m) => unbegun(found) || exists|txn: redb::ReadTransaction|
                    self.shows(txn) && #[trigger] answers_chunks(
                        txn,
                        hash@,
                        m.content_chunk_count,
                        found,
                    ),
            },
    {
        let meta = match meta {
            Ok(meta) => meta,
            Err(e) => return Err(e),
        };
        let txn = match self.snapshot() {
            Ok(txn) => txn,
            Err(e) => return Err(e),
        };
        let found = read_chunks(&txn, hash, meta.content_chunk_count);
        assert(answers_chunks(txn, hash@, meta.content_chunk_count, found));
        found
    }

    /// What a load of the full content of a change gives, where `meta` is its metadata or
    /// the reason why there is none: that reason, or what a snapshot of the store calls for.
    pub open spec fn loads_content(
        self,
        hash: Seq<u8>,
        meta: RedbStoreResult<ChangeMeta>,
        found: RedbStoreResult<Vec<u8>>,
    ) -> bool {
        match meta {
            Err(error) => found == Err::<Vec<u8>, RedbStoreError>(error),
            Ok(m) => unbegun(found) || exists|txn: redb::ReadTransaction|
                self.shows(txn) && #[trigger] answers_content(
                    txn,
                    hash,
                    m.content_chunk_count,
                    found,
                ),
        }
    }

    /// The full content of a change: its chunks, joined in order. `meta` is the change's
    /// metadata, or the reason why there is none.
    pub fn load_full_content(&self, hash: &[u8; 32], meta: RedbStoreResult<ChangeMeta>) -> (found:
        RedbStoreResult<Vec<u8>>)
        ensures
            self.loads_content(hash@, meta, found),
    {
        let ghost given = meta;
        let chunks = self.load_content_chunks(hash, meta);
        let ghost listed = chunks;
        let found = match chunks {
            Err(e) => Err(e),
            Ok(list) => Ok(join_chunks(&list)),
        };
        proof {
            if given is Ok && !unbegun(listed) {
                let count = given->Ok_0.content_chunk_count;
                let txn = choose|txn: redb::ReadTransaction|
                    self.shows(txn) && #[trigger] answers_chunks(txn, hash@, count, listed);
                assert(answers_content(txn, hash@, count, found));
            }
        }
        found
    }

    /// The unhashed data of a change; `None` where none is stored for it.
    pub fn load_unhashed(&self, hash: &[u8; 32]) -> (found: RedbStoreResult<
        Option<serde_json::Value>,
    >)
        ensures
            unbegun(found) || exists|txn: redb::ReadTransaction|
                self.shows(txn) && #[trigger] answers_json(txn, hash@, found),
    {
        let txn = match self.snapshot() {
            Ok(txn) => txn,
            Err(e) => return Err(e),
        };
        let found = read_unhashed(&txn, hash);
        assert(answers_json(txn, hash@, found));
        found
    }

    /// Statistics about the store.
    pub fn stats(&self) -> (stats: RedbStoreResult<StoreStats>)
        ensures
            match stats {
                Ok(s) => exists|txn: redb::ReadTransaction|
                    self.shows(txn) && #[trigger] stats_match(s, txn),
                Err(error) => error is Transaction || error is Table,
            },
    {
        let txn = match self.snapshot() {
            Ok(txn) => txn,
            Err(e) => return Err(e),
        };
        read_stats(&txn)
    }

    /// Whether the store holds the content chunk with this hash.
    pub fn has_content_chunk(&self, chunk_hash: &[u8; 32]) -> (found: RedbStoreResult<bool>)
        ensures
            unbegun(found) || exists|txn: redb::ReadTransaction|
                self.shows(txn) && #[trigger] answers_presence(txn, chunk_hash@, found),
    {
        proof {
            reveal_strlit("content_chunks");
        }
        let txn = match self.snapshot() {
            Ok(txn) => txn,
            Err(e) => return Err(e),
        };
        let found = match read_record(&txn, CONTENT_CHUNKS, chunk_hash) {
            Err(e) => Err(e),
            Ok(record) => Ok(record.is_some()),
        };
        assert(answers_presence(txn, chunk_hash@, found));
        found
    }

    /// The chunk manifest of a change: its chunk indices and hashes, in order. `meta` is the
    /// change's metadata, or the reason why there is none.
    pub fn get_chunk_manifest(&self, hash: &[u8; 32], meta: RedbStoreResult<ChangeMeta>) -> (found:
        RedbStoreResult<Vec<(u32, [u8; 32])>>)
        ensures
            match meta {
                Err(error) => found == Err::<Vec<(u32, [u8; 32])>, RedbStoreError>(error),
                Ok(m) => unbegun(found) || exists|txn: redb::ReadTransaction|
                    self.shows(txn) && #[trigger] answers_manifest(
                        txn,
                        hash@,
                        m.content_chunk_count,
                        found,
                    ),
            },
    {
        let meta = match meta {
            Ok(meta) => meta,
            Err(e) => return Err(e),
        };
        let txn = match self.snapshot() {
            Ok(txn) => txn,
            Err(e) => return Err(e),
        };
        let found = read_manifest(&txn, hash, meta.content_chunk_count);
        assert(answers_manifest(txn, hash@, meta.content_chunk_count, found));
        found
    }
}

} // verus!
