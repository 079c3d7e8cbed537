//! Reading the parts of a change out of a snapshot: its sections, its content
//! chunks and its chunk manifest.

use vstd::prelude::*;

use super::database;
use super::database::{
    decode_all, open_manifest, open_records, open_sections, ManifestTable, RecordTable,
    SectionTable,
};
use super::error::{RedbStoreError, RedbStoreResult, StoreFault};
use super::keys;
use super::keys::{
    encode_change_file_key, CHANGE_CHUNKS, CHANGE_GRAPH, CHANGE_SEMANTIC, CONTENT_CHUNKS,
};
use crate::text;
use crate::text::decimal_text;

verus! {

/// The layer of a change that a section belongs to.
#[derive(Clone, Copy, Debug, PartialEq, Eq, Structural)]
pub enum SectionType {
    /// Graph operations: what applying the change needs.
    Graph,
    /// Semantic data: what diffs and blame need.
    Semantic,
}

/// A section of a change, decompressed.
#[derive(Clone, Debug)]
pub struct StoredSection {
    /// The layer it belongs to.
    pub section_type: SectionType,
    /// Its decompressed bytes.
    pub payload: Vec<u8>,
    /// The path of its file; empty until it is filled in from the decoded payload.
    pub path: String,
    /// Its place among the sections of its layer.
    pub file_index: u32,
}

/// A content chunk of a change.
#[derive(Clone, Debug)]
pub struct StoredContentChunk {
    /// Its place in the change.
    pub index: u32,
    /// The hash of its uncompressed content.
    pub hash: [u8; 32],
    /// Its decompressed bytes.
    pub data: Vec<u8>,
}

impl SectionType {
    /// The table that holds the sections of this layer.
    pub open spec fn table(self) -> Seq<char> {
        match self {
            SectionType::Graph => CHANGE_GRAPH@,
            SectionType::Semantic => CHANGE_SEMANTIC@,
        }
    }

    /// The layer's name in messages.
    pub open spec fn label(self) -> Seq<char> {
        match self {
            SectionType::Graph => "graph section "@,
            SectionType::Semantic => "semantic section "@,
        }
    }

    /// The layer's name in messages.
    fn label_text(self) -> (label: &'static str)
        ensures
            label@ == self.label(),
    {
        match self {
            SectionType::Graph => "graph section ",
            SectionType::Semantic => "semantic section ",
        }
    }
}

/// What is said of a part that cannot be decompressed.
pub open spec fn undecodable(label: Seq<char>, index: nat, reason: Seq<char>) -> Seq<char> {
    label + text::decimal(index) + " decompression failed: "@ + reason
}

/// The first `count` sections of the change `hash`, as far as `entries` holds them, in
/// the order of their indices, each with its decompressed bytes; or the first that
/// cannot be decompressed.
pub open spec fn section_run(
    entries: Map<Seq<u8>, Seq<u8>>,
    label: Seq<char>,
    hash: Seq<u8>,
    count: nat,
) -> Result<Seq<(u32, Seq<u8>)>, StoreFault>
    decreases count,
{
    if count == 0 {
        Ok(Seq::empty())
    } else {
        let index = (count - 1) as u32;
        let key = keys::file_key(hash, index);
        match section_run(entries, label, hash, (count - 1) as nat) {
            Err(fault) => Err(fault),
            Ok(before) => if entries.contains_key(key) {
                match database::zstd_decoded(entries[key]) {
                    Ok(payload) => Ok(before.push((index, payload))),
                    Err(reason) => Err(
                        StoreFault::Corrupt(undecodable(label, index as nat, reason)),
                    ),
                }
            } else {
                Ok(before)
            },
        }
    }
}

/// The first `count` content chunks of the change `hash` whose manifest entry and whose
/// content the tables hold, in order, each with its hash and its decompressed bytes; or
/// the first that cannot be decompressed.
pub open spec fn chunk_run(
    manifest: Map<Seq<u8>, Seq<u8>>,
    contents: Map<Seq<u8>, Seq<u8>>,
    hash: Seq<u8>,
    count: nat,
) -> Result<Seq<(u32, Seq<u8>, Seq<u8>)>, StoreFault>
    decreases count,
{
    if count == 0 {
        Ok(Seq::empty())
    } else {
        let index = (count - 1) as u32;
        let key = keys::file_key(hash, index);
        match chunk_run(manifest, contents, hash, (count - 1) as nat) {
            Err(fault) => Err(fault),
            Ok(before) => if manifest.contains_key(key) && contents.contains_key(manifest[key]) {
                match database::zstd_decoded(contents[manifest[key]]) {
                    Ok(data) => Ok(before.push((index, manifest[key], data))),
                    Err(reason) => Err(
                        StoreFault::Corrupt(undecodable("content chunk "@, index as nat, reason)),
                    ),
                }
            } else {
                Ok(before)
            },
        }
    }
}

/// The first `count` entries of the change's chunk manifest, as far as there are any.
pub open spec fn manifest_run(
    manifest: Map<Seq<u8>, Seq<u8>>,
    hash: Seq<u8>,
    count: nat,
) -> Seq<(u32, Seq<u8>)>
    decreases count,
{
    if count == 0 {
        Seq::empty()
    } else {
        let index = (count - 1) as u32;
        let key = keys::file_key(hash, index);
        let before = manifest_run(manifest, hash, (count - 1) as nat);
        if manifest.contains_key(key) {
            before.push((index, manifest[key]))
        } else {
            before
        }
    }
}

/// The sections of one layer of a change in a snapshot.
pub open spec fn stored_sections(
    txn: redb::ReadTransaction,
    kind: SectionType,
    hash: Seq<u8>,
    count: u32,
) -> Result<Seq<(u32, Seq<u8>)>, StoreFault> {
    match database::snapshot(txn, kind.table()) {
        None => Err(StoreFault::MissingTable(kind.table())),
        Some(entries) => section_run(entries, kind.label(), hash, count as nat),
    }
}

/// The content chunks of a change in a snapshot.
pub open spec fn stored_chunks(txn: redb::ReadTransaction, hash: Seq<u8>, count: u32) -> Result<
    Seq<(u32, Seq<u8>, Seq<u8>)>,
    StoreFault,
> {
    match (database::snapshot(txn, CHANGE_CHUNKS@), database::snapshot(txn, CONTENT_CHUNKS@)) {
        (None, _) => Err(StoreFault::MissingTable(CHANGE_CHUNKS@)),
        (_, None) => Err(StoreFault::MissingTable(CONTENT_CHUNKS@)),
        (Some(manifest), Some(contents)) => chunk_run(manifest, contents, hash, count as nat),
    }
}

/// The chunk manifest of a change in a snapshot.
pub open spec fn stored_manifest(txn: redb::ReadTransaction, hash: Seq<u8>, count: u32) -> Result<
    Seq<(u32, Seq<u8>)>,
    StoreFault,
> {
    match database::snapshot(txn, CHANGE_CHUNKS@) {
        None => Err(StoreFault::MissingTable(CHANGE_CHUNKS@)),
        Some(manifest) => Ok(manifest_run(manifest, hash, count as nat)),
    }
}

/// The indices and payloads of sections.
pub open spec fn section_parts(sections: Seq<StoredSection>) -> Seq<(u32, Seq<u8>)> {
    sections.map_values(|s: StoredSection| (s.file_index, s.payload@))
}

/// The indices, hashes and data of chunks.
pub open spec fn chunk_parts(chunks: Seq<StoredContentChunk>) -> Seq<(u32, Seq<u8>, Seq<u8>)> {
    chunks.map_values(|c: StoredContentChunk| (c.index, c.hash@, c.data@))
}

/// The indices and hashes of a manifest.
pub open spec fn manifest_parts(manifest: Seq<(u32, [u8; 32])>) -> Seq<(u32, Seq<u8>)> {
    manifest.map_values(|m: (u32, [u8; 32])| (m.0, m.1@))
}

/// An error that comes back where `expected` is what the snapshot calls for: either the
/// very fault that lies in the snapshot, or a failure of the database.
pub open spec fn error_answers<T>(error: RedbStoreError, expected: Result<T, StoreFault>) -> bool {
    match error.fault() {
        Some(fault) => expected == Err::<T, StoreFault>(fault),
        None => error.is_database_failure(),
    }
}

/// A section that cannot be read ends the reading there.
proof fn lemma_section_run_stops(
    entries: Map<Seq<u8>, Seq<u8>>,
    label: Seq<char>,
    hash: Seq<u8>,
    k: nat,
    n: nat,
)
    requires
        k <= n,
        section_run(entries, label, hash, k) is Err,
    ensures
        section_run(entries, label, hash, n) == section_run(entries, label, hash, k),
    decreases n - k,
{
    if k < n {
        lemma_section_run_stops(entries, label, hash, k, (n - 1) as nat);
    }
}

/// A chunk that cannot be read ends the reading there.
proof fn lemma_chunk_run_stops(
    manifest: Map<Seq<u8>, Seq<u8>>,
    contents: Map<Seq<u8>, Seq<u8>>,
    hash: Seq<u8>,
    k: nat,
    n: nat,
)
    requires
        k <= n,
        chunk_run(manifest, contents, hash, k) is Err,
    ensures
        chunk_run(manifest, contents, hash, n) == chunk_run(manifest, contents, hash, k),
    decreases n - k,
{
    if k < n {
        lemma_chunk_run_stops(manifest, contents, hash, k, (n - 1) as nat);
    }
}

fn corrupt(label: &str, index: u32, reason: &str) -> (error: RedbStoreError)
    ensures
        error.fault() == Some(
            StoreFault::Corrupt(undecodable(label@, index as nat, reason@)),
        ),
{
    let mut message = label.to_string();
    message.append(decimal_text(index as u64).as_str());
    message.append(" decompression failed: ");
    message.append(reason);
    RedbStoreError::Corrupt(message)
}

/// The section whose entry decompressed like this: its bytes, or why there are none.
pub fn section_from(kind: SectionType, index: u32, decoded: Result<Vec<u8>, String>) -> (section:
    RedbStoreResult<StoredSection>)
    ensures
        match decoded {
            Ok(payload) => section matches Ok(s) && s.section_type == kind && s.payload == payload
                && s.path@.len() == 0 && s.file_index == index,
            Err(reason) => section matches Err(error) && error.fault() == Some(
                StoreFault::Corrupt(undecodable(kind.label(), index as nat, reason@)),
            ),
        },
{
    match decoded {
        Ok(payload) => Ok(
            StoredSection { section_type: kind, payload, path: String::new(), file_index: index },
        ),
        Err(reason) => Err(corrupt(kind.label_text(), index, reason.as_str())),
    }
}

/// The sections, each with the path of its file: the paths that their payloads name, in the
/// order of the sections.
pub fn with_paths(sections: Vec<StoredSection>, paths: &Vec<String>) -> (named: Vec<StoredSection>)
    requires
        paths@.len() == sections@.len(),
    ensures
        named@.len() == sections@.len(),
        forall|i: int|
            0 <= i < named@.len() ==> #[trigger] named@[i] == (StoredSection {
                path: paths@[i],
                ..sections@[i]
            }),
        section_parts(named@) == section_parts(sections@),
{
    let ghost all = sections@;
    let mut named: Vec<StoredSection> = Vec::new();
    let mut i: usize = 0;
    for section in iter: sections
        invariant
            iter.seq() == all,
            i == iter.index(),
            paths@.len() == all.len(),
            named@.len() == i,
            forall|j: int|
                0 <= j < i ==> #[trigger] named@[j] == (StoredSection {
                    path: paths@[j],
                    ..all[j]
                }),
    {
        named.push(
            StoredSection {
                section_type: section.section_type,
                payload: section.payload,
                path: paths[i].clone(),
                file_index: section.file_index,
            },
        );
        assert(i < paths.len());
        i = i + 1;
    }
    assert(section_parts(named@) =~= section_parts(all));
    named
}

/// The chunk whose content decompressed like this: its bytes, or why there are none.
pub fn chunk_from(index: u32, hash: [u8; 32], decoded: Result<Vec<u8>, String>) -> (chunk:
    RedbStoreResult<StoredContentChunk>)
    ensures
        match decoded {
            Ok(data) => chunk == Ok::<StoredContentChunk, RedbStoreError>(
                StoredContentChunk { index, hash, data },
            ),
            Err(reason) => chunk matches Err(error) && error.fault() == Some(
                StoreFault::Corrupt(undecodable("content chunk "@, index as nat, reason@)),
            ),
        },
{
    match decoded {
        Ok(data) => Ok(StoredContentChunk { index, hash, data }),
        Err(reason) => Err(corrupt("content chunk ", index, reason.as_str())),
    }
}

fn missing_table(name: &str) -> (error: RedbStoreError)
    ensures
        error.fault() == Some(StoreFault::MissingTable(name@)),
{
    RedbStoreError::MissingTable(name.to_string())
}

fn decode_sections(
    table: &SectionTable,
    kind: SectionType,
    hash: &[u8; 32],
    count: u32,
) -> (found: RedbStoreResult<Vec<StoredSection>>)
    ensures
        match found {
            Ok(list) => {
                &&& section_run(database::sections(*table), kind.label(), hash@, count as nat)
                    == Ok::<Seq<(u32, Seq<u8>)>, StoreFault>(section_parts(list@))
                &&& forall|i: int|
                    0 <= i < list@.len() ==> (#[trigger] list@[i]).section_type == kind
                        && list@[i].path@.len() == 0
            },
            Err(error) => error_answers(
                error,
                section_run(database::sections(*table), kind.label(), hash@, count as nat),
            ),
        },
{
    let ghost entries = database::sections(*table);
    let mut list: Vec<StoredSection> = Vec::new();
    let mut index: u32 = 0;
    assert(section_parts(list@) =~= Seq::empty());
    while index < count
        invariant
            index <= count,
            entries == database::sections(*table),
            section_run(entries, kind.label(), hash@, index as nat) == Ok::<
                Seq<(u32, Seq<u8>)>,
                StoreFault,
            >(section_parts(list@)),
            forall|i: int|
                0 <= i < list@.len() ==> (#[trigger] list@[i]).section_type == kind
                    && list@[i].path@.len() == 0,
        decreases count - index,
    {
        let key = encode_change_file_key(hash, index);
        match table.get(&key) {
            Err(e) => return Err(RedbStoreError::Storage(e)),
            Ok(None) => {},
            Ok(Some(compressed)) => {
                match section_from(kind, index, decode_all(compressed.as_slice())) {
                    Err(e) => {
                        proof {
                            lemma_section_run_stops(
                                entries,
                                kind.label(),
                                hash@,
                                (index + 1) as nat,
                                count as nat,
                            );
                        }
                        return Err(e);
                    },
                    Ok(section) => {
                        let ghost before = list@;
                        list.push(section);
                        assert(section_parts(list@) =~= section_parts(before).push(
                            (index, section.payload@),
                        ));
                    },
                }
            },
        }
        index = index + 1;
    }
    Ok(list)
}

/// The sections of one layer of the change `hash` in a snapshot, as many as `count`.
pub fn read_sections(
    txn: &redb::ReadTransaction,
    kind: SectionType,
    hash: &[u8; 32],
    count: u32,
) -> (found: RedbStoreResult<Vec<StoredSection>>)
    ensures
        match found {
            Ok(list) => {
                &&& stored_sections(*txn, kind, hash@, count) == Ok::<
                    Seq<(u32, Seq<u8>)>,
                    StoreFault,
                >(section_parts(list@))
                &&& forall|i: int|
                    0 <= i < list@.len() ==> (#[trigger] list@[i]).section_type == kind
                        && list@[i].path@.len() == 0
            },
            Err(error) => error_answers(error, stored_sections(*txn, kind, hash@, count)),
        },
{
    proof {
        reveal_strlit("change_graph");
        reveal_strlit("change_semantic");
    }
    let name: &str = match kind {
        SectionType::Graph => CHANGE_GRAPH,
        SectionType::Semantic => CHANGE_SEMANTIC,
    };
    match open_sections(txn, name) {
        Err(e) => Err(RedbStoreError::Table(e)),
        Ok(None) => Err(missing_table(name)),
        Ok(Some(table)) => decode_sections(&table, kind, hash, count),
    }
}

fn open_chunk_tables(txn: &redb::ReadTransaction) -> (tables: RedbStoreResult<
    (ManifestTable, RecordTable),
>)
    ensures
        match tables {
            Ok((m, c)) => {
                &&& database::snapshot(*txn, CHANGE_CHUNKS@) == Some(database::manifest(m))
                &&& database::snapshot(*txn, CONTENT_CHUNKS@) == Some(database::records(c))
            },
            Err(error) => forall|hash: Seq<u8>, count: u32|
                error_answers(error, #[trigger] stored_chunks(*txn, hash, count)),
        },
{
    proof {
        reveal_strlit("change_chunks");
        reveal_strlit("content_chunks");
    }
    match open_manifest(txn, CHANGE_CHUNKS) {
        Err(e) => Err(RedbStoreError::Table(e)),
        Ok(None) => Err(missing_table(CHANGE_CHUNKS)),
        Ok(Some(manifest)) => match open_records(txn, CONTENT_CHUNKS) {
            Err(e) => Err(RedbStoreError::Table(e)),
            Ok(None) => Err(missing_table(CONTENT_CHUNKS)),
            Ok(Some(contents)) => Ok((manifest, contents)),
        },
    }
}

/// The content chunks of the change `hash` in a snapshot, as many as `count`.
pub fn read_chunks(txn: &redb::ReadTransaction, hash: &[u8; 32], count: u32) -> (found:
    RedbStoreResult<Vec<StoredContentChunk>>)
    ensures
        match found {
            Ok(list) => stored_chunks(*txn, hash@, count) == Ok::<
                Seq<(u32, Seq<u8>, Seq<u8>)>,
                StoreFault,
            >(chunk_parts(list@)),
            Err(error) => error_answers(error, stored_chunks(*txn, hash@, count)),
        },
{
    let (manifest_table, content_table) = match open_chunk_tables(txn) {
        Ok(tables) => tables,
        Err(e) => return Err(e),
    };
    let ghost manifest = database::manifest(manifest_table);
    let ghost contents = database::records(content_table);
    let mut list: Vec<StoredContentChunk> = Vec::new();
    let mut index: u32 = 0;
    assert(chunk_parts(list@) =~= Seq::empty());
    while index < count
        invariant
            index <= count,
            manifest == database::manifest(manifest_table),
            contents == database::records(content_table),
            stored_chunks(*txn, hash@, count) == chunk_run(
                manifest,
                contents,
                hash@,
                count as nat,
            ),
            chunk_run(manifest, contents, hash@, index as nat) == Ok::<
                Seq<(u32, Seq<u8>, Seq<u8>)>,
                StoreFault,
            >(chunk_parts(list@)),
        decreases count - index,
    {
        let key = encode_change_file_key(hash, index);
        match manifest_table.get(&key) {
            Err(e) => return Err(RedbStoreError::Storage(e)),
            Ok(None) => {},
            Ok(Some(chunk_hash)) => match content_table.get(&chunk_hash) {
                Err(e) => return Err(RedbStoreError::Storage(e)),
                Ok(None) => {},
                Ok(Some(compressed)) => match chunk_from(
                    index,
                    chunk_hash,
                    decode_all(compressed.as_slice()),
                ) {
                    Err(e) => {
                        proof {
                            lemma_chunk_run_stops(
                                manifest,
                                contents,
                                hash@,
                                (index + 1) as nat,
                                count as nat,
                            );
                        }
                        return Err(e);
                    },
                    Ok(chunk) => {
                        let ghost before = list@;
                        list.push(chunk);
                        assert(chunk_parts(list@) =~= chunk_parts(before).push(
                            (index, chunk_hash@, chunk.data@),
                        ));
                    },
                },
            },
        }
        index = index + 1;
    }
    Ok(list)
}

/// The chunk manifest of the change `hash` in a snapshot, as far as `count` entries.
pub fn read_manifest(txn: &redb::ReadTransaction, hash: &[u8; 32], count: u32) -> (found:
    RedbStoreResult<Vec<(u32, [u8; 32])>>)
    ensures
        match found {
            Ok(list) => stored_manifest(*txn, hash@, count) == Ok::<
                Seq<(u32, Seq<u8>)>,
                StoreFault,
            >(manifest_parts(list@)),
            Err(error) => error_answers(error, stored_manifest(*txn, hash@, count)),
        },
{
    proof {
        reveal_strlit("change_chunks");
    }
    let table = match open_manifest(txn, CHANGE_CHUNKS) {
        Err(e) => return Err(RedbStoreError::Table(e)),
        Ok(None) => return Err(missing_table(CHANGE_CHUNKS)),
        Ok(Some(table)) => table,
    };
    let ghost manifest = database::manifest(table);
    let mut list: Vec<(u32, [u8; 32])> = Vec::new();
    let mut index: u32 = 0;
    assert(manifest_parts(list@) =~= Seq::empty());
    while index < count
        invariant
            index <= count,
            manifest == database::manifest(table),
            manifest_run(manifest, hash@, index as nat) == manifest_parts(list@),
        decreases count - index,
    {
        let key = encode_change_file_key(hash, index);
        match table.get(&key) {
            Err(e) => return Err(RedbStoreError::Storage(e)),
            Ok(None) => {},
            Ok(Some(chunk_hash)) => {
                let ghost before = list@;
                list.push((index, chunk_hash));
                assert(manifest_parts(list@) =~= manifest_parts(before).push((index, chunk_hash@)));
            },
        }
        index = index + 1;
    }
    Ok(list)
}

/// The sections read are those the table holds below `count`, each once, in the order
/// of their indices, and each payload is what its entry decompresses to.
pub proof fn law_sections_complete_and_ordered(
    entries: Map<Seq<u8>, Seq<u8>>,
    label: Seq<char>,
    hash: Seq<u8>,
    count: u32,
)
    requires
        section_run(entries, label, hash, count as nat) is Ok,
    ensures
        ({
            let parts = section_run(entries, label, hash, count as nat)->Ok_0;
            &&& forall|i: int, j: int| 0 <= i < j < parts.len() ==> parts[i].0 < parts[j].0
            &&& forall|i: int|
                0 <= i < parts.len() ==> (#[trigger] parts[i]).0 < count && entries.contains_key(
                    keys::file_key(hash, parts[i].0),
                ) && database::zstd_decoded(entries[keys::file_key(hash, parts[i].0)]) == Ok::<
                    Seq<u8>,
                    Seq<char>,
                >(parts[i].1)
            &&& forall|index: u32|
                index < count && entries.contains_key(#[trigger] keys::file_key(hash, index))
                    ==> exists|i: int| 0 <= i < parts.len() && (#[trigger] parts[i]).0 == index
        }),
    decreases count,
{
    if count > 0 {
        let n = (count - 1) as u32;
        law_sections_complete_and_ordered(entries, label, hash, n);
        let before = section_run(entries, label, hash, n as nat)->Ok_0;
        let parts = section_run(entries, label, hash, count as nat)->Ok_0;
        assert forall|index: u32|
            index < count && entries.contains_key(
                #[trigger] keys::file_key(hash, index),
            ) implies exists|i: int| 0 <= i < parts.len() && (#[trigger] parts[i]).0 == index by {
            if index == n {
                assert(parts[parts.len() - 1].0 == index);
            } else {
                let i = choose|i: int| 0 <= i < before.len() && (#[trigger] before[i]).0 == index;
                assert(parts[i].0 == index);
            }
        }
    }
}

/// The chunks read are those whose manifest entry lies below `count` and whose content
/// the store holds, each once, in the order of their indices, and each chunk's data is
/// what the content under its hash decompresses to.
pub proof fn law_chunks_complete_and_ordered(
    manifest: Map<Seq<u8>, Seq<u8>>,
    contents: Map<Seq<u8>, Seq<u8>>,
    hash: Seq<u8>,
    count: u32,
)
    requires
        chunk_run(manifest, contents, hash, count as nat) is Ok,
    ensures
        ({
            let parts = chunk_run(manifest, contents, hash, count as nat)->Ok_0;
            &&& forall|i: int, j: int| 0 <= i < j < parts.len() ==> parts[i].0 < parts[j].0
            &&& forall|i: int|
                0 <= i < parts.len() ==> (#[trigger] parts[i]).0 < count
                    && manifest.contains_pair(keys::file_key(hash, parts[i].0), parts[i].1)
                    && contents.contains_key(parts[i].1) && database::zstd_decoded(
                    contents[parts[i].1],
                ) == Ok::<Seq<u8>, Seq<char>>(parts[i].2)
            &&& forall|index: u32|
                index < count && manifest.contains_key(#[trigger] keys::file_key(hash, index))
                    && contents.contains_key(manifest[keys::file_key(hash, index)]) ==> exists|
                    i: int,
                |
                    0 <= i < parts.len() && (#[trigger] parts[i]).0 == index
        }),
    decreases count,
{
    if count > 0 {
        let n = (count - 1) as u32;
        law_chunks_complete_and_ordered(manifest, contents, hash, n);
        let before = chunk_run(manifest, contents, hash, n as nat)->Ok_0;
        let parts = chunk_run(manifest, contents, hash, count as nat)->Ok_0;
        assert forall|index: u32|
            index < count && manifest.contains_key(#[trigger] keys::file_key(hash, index))
                && contents.contains_key(
                manifest[keys::file_key(hash, index)],
            ) implies exists|i: int| 0 <= i < parts.len() && (#[trigger] parts[i]).0 == index by {
            if index == n {
                assert(parts[parts.len() - 1].0 == index);
            } else {
                let i = choose|i: int| 0 <= i < before.len() && (#[trigger] before[i]).0 == index;
                assert(parts[i].0 == index);
            }
        }
    }
}

/// The manifest read is made of the entries that the table holds below `count`, each once,
/// in the order of their indices.
pub proof fn law_manifest_complete_and_ordered(
    manifest: Map<Seq<u8>, Seq<u8>>,
    hash: Seq<u8>,
    count: u32,
)
    ensures
        ({
            let parts = manifest_run(manifest, hash, count as nat);
            &&& forall|i: int, j: int| 0 <= i < j < parts.len() ==> parts[i].0 < parts[j].0
            &&& forall|i: int|
                0 <= i < parts.len() ==> (#[trigger] parts[i]).0 < count && manifest.contains_pair(
                    keys::file_key(hash, parts[i].0),
                    parts[i].1,
                )
            &&& forall|index: u32|
                index < count && manifest.contains_key(#[trigger] keys::file_key(hash, index))
                    ==> exists|i: int| 0 <= i < parts.len() && (#[trigger] parts[i]).0 == index
        }),
    decreases count,
{
    if count > 0 {
        let n = (count - 1) as u32;
        law_manifest_complete_and_ordered(manifest, hash, n);
        let before = manifest_run(manifest, hash, n as nat);
        let parts = manifest_run(manifest, hash, count as nat);
        assert forall|index: u32|
            index < count && manifest.contains_key(
                #[trigger] keys::file_key(hash, index),
            ) implies exists|i: int| 0 <= i < parts.len() && (#[trigger] parts[i]).0 == index by {
            if index == n {
                assert(parts[parts.len() - 1].0 == index);
            } else {
                let i = choose|i: int| 0 <= i < before.len() && (#[trigger] before[i]).0 == index;
                assert(parts[i].0 == index);
            }
        }
    }
}

/// The chunks read are the entries of the change's manifest whose content the store holds,
/// in the manifest's order.
pub proof fn law_chunks_follow_manifest(
    manifest: Map<Seq<u8>, Seq<u8>>,
    contents: Map<Seq<u8>, Seq<u8>>,
    hash: Seq<u8>,
    count: u32,
)
    requires
        chunk_run(manifest, contents, hash, count as nat) is Ok,
    ensures
        chunk_run(manifest, contents, hash, count as nat)->Ok_0.map_values(
            |part: (u32, Seq<u8>, Seq<u8>)| (part.0, part.1),
        ) == manifest_run(manifest, hash, count as nat).filter(
            |entry: (u32, Seq<u8>)| contents.contains_key(entry.1),
        ),
    decreases count,
{
    reveal(Seq::filter);
    let parts = chunk_run(manifest, contents, hash, count as nat)->Ok_0;
    let entries = manifest_run(manifest, hash, count as nat);
    let project = |part: (u32, Seq<u8>, Seq<u8>)| (part.0, part.1);
    let present = |entry: (u32, Seq<u8>)| contents.contains_key(entry.1);
    if count > 0 {
        let n = (count - 1) as u32;
        law_chunks_follow_manifest(manifest, contents, hash, n);
        let before = chunk_run(manifest, contents, hash, n as nat)->Ok_0;
        let earlier = manifest_run(manifest, hash, n as nat);
        let key = keys::file_key(hash, n);
        if manifest.contains_key(key) {
            assert(entries.drop_last() =~= earlier);
            assert(entries.last() == (n, manifest[key]));
            if contents.contains_key(manifest[key]) {
                assert(parts.map_values(project) =~= before.map_values(project).push(
                    (n, manifest[key]),
                ));
            }
        }
    } else {
        assert(parts.map_values(project) =~= Seq::empty());
        assert(entries.filter(present) =~= Seq::empty());
    }
}

} // verus!
