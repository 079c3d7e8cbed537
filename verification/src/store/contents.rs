//! What the reads, the removal and the export of the store give, entry by entry.

use vstd::prelude::*;

use crate::text;

use super::database;
use super::error::{RedbStoreError, RedbStoreResult, StoreFault};
use super::export;
use super::export::{V3Part, V3Record};
use super::keys;
use super::queries;
use super::queries::{ChangeMeta, RedbChangeStore, StoreStats};
use super::removal;
use super::sections;
use super::sections::{SectionType, StoredContentChunk, StoredSection};

verus! {

/// What the table of this name holds in the snapshot.
pub open spec fn table(txn: redb::ReadTransaction, name: Seq<char>) -> Map<Seq<u8>, Seq<u8>> {
    database::snapshot(txn, name)->Some_0
}

/// The table of this name is in the snapshot.
pub open spec fn has_table(txn: redb::ReadTransaction, name: Seq<char>) -> bool {
    database::snapshot(txn, name) is Some
}

/// The table that holds the sections of a layer.
pub open spec fn layer_table(kind: SectionType) -> Seq<char> {
    if kind is Graph {
        "change_graph"@
    } else {
        "change_semantic"@
    }
}

/// What a layer is called where something is wrong with it.
pub open spec fn layer_name(kind: SectionType) -> Seq<char> {
    if kind is Graph {
        "graph section "@
    } else {
        "semantic section "@
    }
}

/// Compressed bytes that decompress to these.
pub open spec fn decodes_to(compressed: Seq<u8>, bytes: Seq<u8>) -> bool {
    database::zstd_decoded(compressed) == Ok::<Seq<u8>, Seq<char>>(bytes)
}

/// The sections that are loaded of a layer are what its table holds for the change: they have
/// the layer and no path; their indices ascend and lie below the count; each payload is what
/// the entry of its index decompresses to; and no entry below the count is left out.
pub proof fn law_sections_are_read_back(
    txn: redb::ReadTransaction,
    kind: SectionType,
    hash: Seq<u8>,
    count: u32,
    list: Vec<StoredSection>,
)
    requires
        queries::answers_sections(
            txn,
            kind,
            hash,
            count,
            Ok::<Vec<StoredSection>, RedbStoreError>(list),
        ),
    ensures
        has_table(txn, layer_table(kind)),
        forall|i: int|
            0 <= i < list@.len() ==> {
                let section = #[trigger] list@[i];
                let key = keys::file_key(hash, section.file_index);
                &&& section.section_type == kind
                &&& section.path@.len() == 0
                &&& section.file_index < count
                &&& table(txn, layer_table(kind)).contains_key(key)
                &&& decodes_to(table(txn, layer_table(kind))[key], section.payload@)
            },
        forall|i: int, j: int|
            0 <= i < j < list@.len() ==> (#[trigger] list@[i]).file_index < (
            #[trigger] list@[j]).file_index,
        forall|index: u32|
            index < count && table(txn, layer_table(kind)).contains_key(
                #[trigger] keys::file_key(hash, index),
            ) ==> exists|i: int| 0 <= i < list@.len() && (#[trigger] list@[i]).file_index == index,
{
    let entries = table(txn, layer_table(kind));
    sections::law_sections_complete_and_ordered(entries, kind.label(), hash, count);
    let parts = sections::section_parts(list@);
    assert forall|i: int| 0 <= i < list@.len() implies (#[trigger] list@[i]).file_index
        == parts[i].0 && list@[i].payload@ == parts[i].1 by {}
    assert forall|index: u32|
        index < count && entries.contains_key(
            #[trigger] keys::file_key(hash, index),
        ) implies exists|i: int|
            0 <= i < list@.len() && (#[trigger] list@[i]).file_index == index by {
        let i = choose|i: int| 0 <= i < parts.len() && (#[trigger] parts[i]).0 == index;
        assert(list@[i].file_index == index);
    }
}

/// The first part of the change below the count that cannot be decompressed is this one, for
/// this reason.
pub open spec fn is_first_bad(
    entries: Map<Seq<u8>, Seq<u8>>,
    hash: Seq<u8>,
    count: nat,
    index: u32,
    reason: Seq<char>,
) -> bool {
    &&& index < count
    &&& entries.contains_key(keys::file_key(hash, index))
    &&& database::zstd_decoded(entries[keys::file_key(hash, index)]) == Err::<
        Seq<u8>,
        Seq<char>,
    >(reason)
    &&& forall|i: u32|
        i < index && entries.contains_key(#[trigger] keys::file_key(hash, i))
            ==> database::zstd_decoded(entries[keys::file_key(hash, i)]) is Ok
}

/// A run of sections stops at the first that cannot be decompressed, and says which and why.
proof fn lemma_first_bad(
    entries: Map<Seq<u8>, Seq<u8>>,
    label: Seq<char>,
    hash: Seq<u8>,
    count: u32,
)
    ensures
        match sections::section_run(entries, label, hash, count as nat) {
            Ok(_) => forall|i: u32|
                i < count && entries.contains_key(#[trigger] keys::file_key(hash, i))
                    ==> database::zstd_decoded(entries[keys::file_key(hash, i)]) is Ok,
            Err(fault) => exists|index: u32, reason: Seq<char>|
                #[trigger] is_first_bad(entries, hash, count as nat, index, reason) && fault
                    == StoreFault::Corrupt(
                    label + text::decimal(index as nat) + " decompression failed: "@ + reason,
                ),
        },
    decreases count,
{
    if count > 0 {
        let n = (count - 1) as u32;
        lemma_first_bad(entries, label, hash, n);
        match sections::section_run(entries, label, hash, n as nat) {
            Ok(_) => {
                let key = keys::file_key(hash, n);
                if entries.contains_key(key) {
                    if let Err(reason) = database::zstd_decoded(entries[key]) {
                        assert(is_first_bad(entries, hash, count as nat, n, reason));
                    }
                }
            },
            Err(fault) => {
                let (index, reason) = choose|index: u32, reason: Seq<char>|
                    #[trigger] is_first_bad(entries, hash, n as nat, index, reason) && fault
                        == StoreFault::Corrupt(
                        label + text::decimal(index as nat) + " decompression failed: "@ + reason,
                    );
                assert(is_first_bad(entries, hash, count as nat, index, reason));
            },
        }
    }
}

/// Where sections cannot be loaded for what the store holds, the error names it: the table of
/// the layer where that is missing, else the first section that cannot be decompressed, with
/// its index and the reason.
pub proof fn law_section_faults_are_named(
    txn: redb::ReadTransaction,
    kind: SectionType,
    hash: Seq<u8>,
    count: u32,
    error: RedbStoreError,
)
    requires
        queries::answers_sections(
            txn,
            kind,
            hash,
            count,
            Err::<Vec<StoredSection>, RedbStoreError>(error),
        ),
    ensures
        match error {
            RedbStoreError::MissingTable(name) => name@ == layer_table(kind) && !has_table(
                txn,
                layer_table(kind),
            ),
            RedbStoreError::Corrupt(said) => has_table(txn, layer_table(kind)) && exists|
                index: u32,
                reason: Seq<char>,
            |
                #[trigger] is_first_bad(
                    table(txn, layer_table(kind)),
                    hash,
                    count as nat,
                    index,
                    reason,
                ) && said@ == layer_name(kind) + text::decimal(index as nat)
                    + " decompression failed: "@ + reason,
            RedbStoreError::Table(_) => true,
            RedbStoreError::Storage(_) => true,
            _ => false,
        },
{
    if has_table(txn, layer_table(kind)) {
        lemma_first_bad(table(txn, layer_table(kind)), kind.label(), hash, count);
    }
}

/// The content chunks that are loaded are what the tables hold for the change: their indices
/// ascend and lie below the count; the hash of each is what the manifest has under its index,
/// and its data what the content under that hash decompresses to; and no manifest entry below
/// the count whose content is there is left out.
pub proof fn law_chunks_are_read_back(
    txn: redb::ReadTransaction,
    hash: Seq<u8>,
    count: u32,
    list: Vec<StoredContentChunk>,
)
    requires
        queries::answers_chunks(
            txn,
            hash,
            count,
            Ok::<Vec<StoredContentChunk>, RedbStoreError>(list),
        ),
    ensures
        has_table(txn, "change_chunks"@) && has_table(txn, "content_chunks"@),
        forall|i: int|
            0 <= i < list@.len() ==> {
                let chunk = #[trigger] list@[i];
                let key = keys::file_key(hash, chunk.index);
                &&& chunk.index < count
                &&& table(txn, "change_chunks"@).contains_pair(key, chunk.hash@)
                &&& table(txn, "content_chunks"@).contains_key(chunk.hash@)
                &&& decodes_to(table(txn, "content_chunks"@)[chunk.hash@], chunk.data@)
            },
        forall|i: int, j: int|
            0 <= i < j < list@.len() ==> (#[trigger] list@[i]).index < (#[trigger] list@[j]).index,
        forall|index: u32|
            index < count && table(txn, "change_chunks"@).contains_key(
                #[trigger] keys::file_key(hash, index),
            ) && table(txn, "content_chunks"@).contains_key(
                table(txn, "change_chunks"@)[keys::file_key(hash, index)],
            ) ==> exists|i: int| 0 <= i < list@.len() && (#[trigger] list@[i]).index == index,
{
    let manifest = table(txn, "change_chunks"@);
    let contents = table(txn, "content_chunks"@);
    sections::law_chunks_complete_and_ordered(manifest, contents, hash, count);
    let parts = sections::chunk_parts(list@);
    assert forall|i: int| 0 <= i < list@.len() implies (#[trigger] list@[i]).index == parts[i].0
        && list@[i].hash@ == parts[i].1 && list@[i].data@ == parts[i].2 by {}
    assert forall|index: u32|
        index < count && manifest.contains_key(#[trigger] keys::file_key(hash, index))
            && contents.contains_key(manifest[keys::file_key(hash, index)]) implies exists|i: int|
        0 <= i < list@.len() && (#[trigger] list@[i]).index == index by {
        let i = choose|i: int| 0 <= i < parts.len() && (#[trigger] parts[i]).0 == index;
        assert(list@[i].index == index);
    }
}

/// The chunk manifest that is loaded is what the table holds for the change: its indices ascend
/// and lie below the count, the hash of each is what the table has under its index, and no
/// entry below the count is left out.
pub proof fn law_manifest_is_read_back(
    txn: redb::ReadTransaction,
    hash: Seq<u8>,
    count: u32,
    list: Vec<(u32, [u8; 32])>,
)
    requires
        queries::answers_manifest(
            txn,
            hash,
            count,
            Ok::<Vec<(u32, [u8; 32])>, RedbStoreError>(list),
        ),
    ensures
        has_table(txn, "change_chunks"@),
        forall|i: int|
            0 <= i < list@.len() ==> (#[trigger] list@[i]).0 < count && table(
                txn,
                "change_chunks"@,
            ).contains_pair(keys::file_key(hash, list@[i].0), list@[i].1@),
        forall|i: int, j: int|
            0 <= i < j < list@.len() ==> (#[trigger] list@[i]).0 < (#[trigger] list@[j]).0,
        forall|index: u32|
            index < count && table(txn, "change_chunks"@).contains_key(
                #[trigger] keys::file_key(hash, index),
            ) ==> exists|i: int| 0 <= i < list@.len() && (#[trigger] list@[i]).0 == index,
{
    let manifest = table(txn, "change_chunks"@);
    sections::law_manifest_complete_and_ordered(manifest, hash, count);
    let parts = sections::manifest_parts(list@);
    assert forall|i: int| 0 <= i < list@.len() implies (#[trigger] list@[i]).0 == parts[i].0
        && list@[i].1@ == parts[i].1 by {}
    assert forall|index: u32|
        index < count && manifest.contains_key(
            #[trigger] keys::file_key(hash, index),
        ) implies exists|i: int| 0 <= i < list@.len() && (#[trigger] list@[i]).0 == index by {
        let i = choose|i: int| 0 <= i < parts.len() && (#[trigger] parts[i]).0 == index;
        assert(list@[i].0 == index);
    }
}

/// The first manifest entry of the change below the count whose content is there and cannot be
/// decompressed is this one, for this reason.
pub open spec fn is_first_bad_chunk(
    manifest: Map<Seq<u8>, Seq<u8>>,
    contents: Map<Seq<u8>, Seq<u8>>,
    hash: Seq<u8>,
    count: nat,
    index: u32,
    reason: Seq<char>,
) -> bool {
    &&& index < count
    &&& is_stored_chunk(manifest, contents, hash, index)
    &&& database::zstd_decoded(contents[manifest[keys::file_key(hash, index)]]) == Err::<
        Seq<u8>,
        Seq<char>,
    >(reason)
    &&& forall|i: u32|
        i < index && #[trigger] is_stored_chunk(manifest, contents, hash, i)
            ==> database::zstd_decoded(contents[manifest[keys::file_key(hash, i)]]) is Ok
}

/// The manifest has the index, and its content is there.
pub open spec fn is_stored_chunk(
    manifest: Map<Seq<u8>, Seq<u8>>,
    contents: Map<Seq<u8>, Seq<u8>>,
    hash: Seq<u8>,
    index: u32,
) -> bool {
    manifest.contains_key(keys::file_key(hash, index)) && contents.contains_key(
        manifest[keys::file_key(hash, index)],
    )
}

/// A run of chunks stops at the first that cannot be decompressed, and says which and why.
proof fn lemma_first_bad_chunk(
    manifest: Map<Seq<u8>, Seq<u8>>,
    contents: Map<Seq<u8>, Seq<u8>>,
    hash: Seq<u8>,
    count: u32,
)
    ensures
        match sections::chunk_run(manifest, contents, hash, count as nat) {
            Ok(_) => forall|i: u32|
                i < count && #[trigger] is_stored_chunk(manifest, contents, hash, i)
                    ==> database::zstd_decoded(contents[manifest[keys::file_key(hash, i)]]) is Ok,
            Err(fault) => exists|index: u32, reason: Seq<char>|
                #[trigger] is_first_bad_chunk(
                    manifest,
                    contents,
                    hash,
                    count as nat,
                    index,
                    reason,
                ) && fault == StoreFault::Corrupt(
                    "content chunk "@ + text::decimal(index as nat) + " decompression failed: "@
                        + reason,
                ),
        },
    decreases count,
{
    if count > 0 {
        let n = (count - 1) as u32;
        lemma_first_bad_chunk(manifest, contents, hash, n);
        match sections::chunk_run(manifest, contents, hash, n as nat) {
            Ok(_) => {
                let key = keys::file_key(hash, n);
                if is_stored_chunk(manifest, contents, hash, n) {
                    if let Err(reason) = database::zstd_decoded(contents[manifest[key]]) {
                        assert(is_first_bad_chunk(
                            manifest,
                            contents,
                            hash,
                            count as nat,
                            n,
                            reason,
                        ));
                    }
                }
            },
            Err(fault) => {
                let (index, reason) = choose|index: u32, reason: Seq<char>|
                    #[trigger] is_first_bad_chunk(
                        manifest,
                        contents,
                        hash,
                        n as nat,
                        index,
                        reason,
                    ) && fault == StoreFault::Corrupt(
                        "content chunk "@ + text::decimal(index as nat)
                            + " decompression failed: "@ + reason,
                    );
                assert(is_first_bad_chunk(manifest, contents, hash, count as nat, index, reason));
            },
        }
    }
}

/// Where content chunks cannot be loaded for what the store holds, the error names it: the
/// table that is missing, else the first chunk that cannot be decompressed, with its index and
/// the reason.
pub proof fn law_chunk_faults_are_named(
    txn: redb::ReadTransaction,
    hash: Seq<u8>,
    count: u32,
    error: RedbStoreError,
)
    requires
        queries::answers_chunks(
            txn,
            hash,
            count,
            Err::<Vec<StoredContentChunk>, RedbStoreError>(error),
        ),
    ensures
        match error {
            RedbStoreError::MissingTable(name) => {
                ||| name@ == "change_chunks"@ && !has_table(txn, "change_chunks"@)
                ||| name@ == "content_chunks"@ && has_table(txn, "change_chunks"@) && !has_table(
                    txn,
                    "content_chunks"@,
                )
            },
            RedbStoreError::Corrupt(said) => has_table(txn, "change_chunks"@) && has_table(
                txn,
                "content_chunks"@,
            ) && exists|index: u32, reason: Seq<char>|
                #[trigger] is_first_bad_chunk(
                    table(txn, "change_chunks"@),
                    table(txn, "content_chunks"@),
                    hash,
                    count as nat,
                    index,
                    reason,
                ) && said@ == "content chunk "@ + text::decimal(index as nat)
                    + " decompression failed: "@ + reason,
            RedbStoreError::Table(_) => true,
            RedbStoreError::Storage(_) => true,
            _ => false,
        },
{
    if has_table(txn, "change_chunks"@) && has_table(txn, "content_chunks"@) {
        lemma_first_bad_chunk(
            table(txn, "change_chunks"@),
            table(txn, "content_chunks"@),
            hash,
            count,
        );
    }
}

/// The metadata that is loaded of a change is what its table holds under the change's hash; that
/// it is not found is said exactly of a hash that the table does not hold.
pub proof fn law_metadata_is_read_back(
    txn: redb::ReadTransaction,
    hash: Seq<u8>,
    found: RedbStoreResult<Vec<u8>>,
)
    requires
        queries::answers_meta(txn, hash, found),
    ensures
        match found {
            Ok(bytes) => has_table(txn, "change_meta"@) && table(
                txn,
                "change_meta"@,
            ).contains_pair(hash, bytes@),
            Err(RedbStoreError::NotFound { hash: absent }) => absent@ == hash && has_table(
                txn,
                "change_meta"@,
            ) && !table(txn, "change_meta"@).contains_key(hash),
            Err(RedbStoreError::MissingTable(name)) => name@ == "change_meta"@ && !has_table(
                txn,
                "change_meta"@,
            ),
            Err(error) => error is Table || error is Storage,
        },
{
}

/// The unhashed data that is loaded of a change is the JSON value of what the entry under the
/// change's hash decompresses to. Where there is no entry, or no table yet, there is none.
pub proof fn law_unhashed_is_read_back(
    txn: redb::ReadTransaction,
    hash: Seq<u8>,
    found: RedbStoreResult<Option<serde_json::Value>>,
)
    requires
        queries::answers_json(txn, hash, found),
    ensures
        ({
            let name = "change_unhashed"@;
            let there = has_table(txn, name) && table(txn, name).contains_key(hash);
            match found {
                Ok(None) => !there,
                Ok(Some(value)) => there && exists|bytes: Seq<u8>| #[trigger]
                    decodes_to(table(txn, name)[hash], bytes) && database::json_value(bytes)
                        == Some(value),
                Err(RedbStoreError::Corrupt(said)) => there && exists|reason: Seq<char>| #[trigger]
                    fails_to_decode(table(txn, name)[hash], reason) && said@
                        == "unhashed decompression failed: "@ + reason,
                Err(RedbStoreError::Json(_)) => there && exists|bytes: Seq<u8>| #[trigger]
                    decodes_to(table(txn, name)[hash], bytes) && database::json_value(bytes)
                        is None,
                Err(error) => error is Table || error is Storage,
            }
        }),
{
    let name = "change_unhashed"@;
    if has_table(txn, name) && table(txn, name).contains_key(hash) {
        match database::zstd_decoded(table(txn, name)[hash]) {
            Ok(bytes) => {
                assert(decodes_to(table(txn, name)[hash], bytes));
            },
            Err(reason) => {
                assert(fails_to_decode(table(txn, name)[hash], reason));
            },
        }
    }
}

/// Compressed bytes that cannot be decompressed, for this reason.
pub open spec fn fails_to_decode(compressed: Seq<u8>, reason: Seq<char>) -> bool {
    database::zstd_decoded(compressed) == Err::<Seq<u8>, Seq<char>>(reason)
}

/// Whether a content chunk is there is whether its table holds its hash.
pub proof fn law_presence_is_that_of_the_entry(
    txn: redb::ReadTransaction,
    chunk_hash: Seq<u8>,
    found: RedbStoreResult<bool>,
)
    requires
        queries::answers_presence(txn, chunk_hash, found),
    ensures
        match found {
            Ok(there) => has_table(txn, "content_chunks"@) && there == table(
                txn,
                "content_chunks"@,
            ).contains_key(chunk_hash),
            Err(RedbStoreError::MissingTable(name)) => name@ == "content_chunks"@ && !has_table(
                txn,
                "content_chunks"@,
            ),
            Err(error) => error is Table || error is Storage,
        },
{
}

/// How many entries the table of this name has; none where there is no such table.
pub open spec fn size(txn: redb::ReadTransaction, name: Seq<char>) -> nat {
    if has_table(txn, name) {
        table(txn, name).len()
    } else {
        0
    }
}

/// The statistics of a store are the sizes of its tables, each under its own name, and they are
/// told in that order.
pub proof fn law_statistics_are_the_sizes(stats: StoreStats, txn: redb::ReadTransaction)
    requires
        queries::stats_match(stats, txn),
    ensures
        stats.change_count == size(txn, "change_meta"@),
        stats.graph_section_count == size(txn, "change_graph"@),
        stats.semantic_section_count == size(txn, "change_semantic"@),
        stats.content_chunk_count == size(txn, "content_chunks"@),
        stats.change_chunk_mappings == size(txn, "change_chunks"@),
        stats.unhashed_count == size(txn, "change_unhashed"@),
        stats.line() == text::decimal(size(txn, "change_meta"@)) + " changes, "@ + text::decimal(
            size(txn, "change_graph"@),
        ) + " graph sections, "@ + text::decimal(size(txn, "change_semantic"@))
            + " semantic sections, "@ + text::decimal(size(txn, "content_chunks"@))
            + " unique chunks ("@ + text::decimal(size(txn, "change_chunks"@)) + " mappings), "@
            + text::decimal(size(txn, "change_unhashed"@)) + " unhashed"@,
{
}

/// How many graph sections a file holds.
pub open spec fn graph_records(file: Seq<V3Part>) -> nat {
    file.filter(|part: V3Part| part is GraphSection).len()
}

/// How many semantic sections a file holds.
pub open spec fn semantic_records(file: Seq<V3Part>) -> nat {
    file.filter(|part: V3Part| part is SemanticSection).len()
}

/// How many content chunks a file holds.
pub open spec fn chunk_records(file: Seq<V3Part>) -> nat {
    file.filter(|part: V3Part| part is ContentChunk).len()
}

/// How many parts of unhashed data a file holds.
pub open spec fn unhashed_records(file: Seq<V3Part>) -> nat {
    file.filter(|part: V3Part| part is Unhashed).len()
}

/// The change has all parts that its metadata counts.
pub open spec fn is_complete(
    txn: redb::ReadTransaction,
    hash: Seq<u8>,
    meta: ChangeMeta,
) -> bool {
    &&& forall|i: u32|
        i < meta.graph_section_count ==> table(txn, "change_graph"@).contains_key(
            #[trigger] keys::file_key(hash, i),
        )
    &&& forall|i: u32|
        i < meta.semantic_section_count ==> table(txn, "change_semantic"@).contains_key(
            #[trigger] keys::file_key(hash, i),
        )
    &&& forall|i: u32|
        i < meta.content_chunk_count ==> #[trigger] is_stored_chunk(
            table(txn, "change_chunks"@),
            table(txn, "content_chunks"@),
            hash,
            i,
        )
}

/// A run over sections that are all there has one for each index.
proof fn lemma_full_sections(
    entries: Map<Seq<u8>, Seq<u8>>,
    label: Seq<char>,
    hash: Seq<u8>,
    count: u32,
)
    requires
        sections::section_run(entries, label, hash, count as nat) is Ok,
        forall|i: u32| i < count ==> entries.contains_key(#[trigger] keys::file_key(hash, i)),
    ensures
        sections::section_run(entries, label, hash, count as nat)->Ok_0.len() == count,
    decreases count,
{
    if count > 0 {
        let n = (count - 1) as u32;
        assert(entries.contains_key(keys::file_key(hash, n)));
        lemma_full_sections(entries, label, hash, n);
    }
}

/// A run over chunks that are all there has one for each index.
proof fn lemma_full_chunks(
    manifest: Map<Seq<u8>, Seq<u8>>,
    contents: Map<Seq<u8>, Seq<u8>>,
    hash: Seq<u8>,
    count: u32,
)
    requires
        sections::chunk_run(manifest, contents, hash, count as nat) is Ok,
        forall|i: u32| i < count ==> #[trigger] is_stored_chunk(manifest, contents, hash, i),
    ensures
        sections::chunk_run(manifest, contents, hash, count as nat)->Ok_0.len() == count,
    decreases count,
{
    if count > 0 {
        let n = (count - 1) as u32;
        assert(is_stored_chunk(manifest, contents, hash, n));
        lemma_full_chunks(manifest, contents, hash, n);
    }
}

/// Counting the records of two files one after the other.
proof fn lemma_counts_add(one: Seq<V3Part>, two: Seq<V3Part>)
    ensures
        graph_records(one + two) == graph_records(one) + graph_records(two),
        semantic_records(one + two) == semantic_records(one) + semantic_records(two),
        chunk_records(one + two) == chunk_records(one) + chunk_records(two),
        unhashed_records(one + two) == unhashed_records(one) + unhashed_records(two),
{
    Seq::filter_distributes_over_add(one, two, |part: V3Part| part is GraphSection);
    Seq::filter_distributes_over_add(one, two, |part: V3Part| part is SemanticSection);
    Seq::filter_distributes_over_add(one, two, |part: V3Part| part is ContentChunk);
    Seq::filter_distributes_over_add(one, two, |part: V3Part| part is Unhashed);
}

/// Counting records that are all of one kind.
proof fn lemma_counts_of_one_kind(file: Seq<V3Part>)
    ensures
        (forall|i: int| 0 <= i < file.len() ==> #[trigger] file[i] is GraphSection) ==> {
            &&& graph_records(file) == file.len()
            &&& semantic_records(file) == 0
            &&& chunk_records(file) == 0
            &&& unhashed_records(file) == 0
        },
        (forall|i: int| 0 <= i < file.len() ==> #[trigger] file[i] is SemanticSection) ==> {
            &&& graph_records(file) == 0
            &&& semantic_records(file) == file.len()
            &&& chunk_records(file) == 0
            &&& unhashed_records(file) == 0
        },
        (forall|i: int| 0 <= i < file.len() ==> #[trigger] file[i] is ContentChunk) ==> {
            &&& graph_records(file) == 0
            &&& semantic_records(file) == 0
            &&& chunk_records(file) == file.len()
            &&& unhashed_records(file) == 0
        },
        (forall|i: int| 0 <= i < file.len() ==> #[trigger] file[i] is Unhashed) ==> {
            &&& graph_records(file) == 0
            &&& semantic_records(file) == 0
            &&& chunk_records(file) == 0
            &&& unhashed_records(file) == file.len()
        },
        (forall|i: int|
            0 <= i < file.len() ==> !(#[trigger] file[i] is GraphSection) && !(file[i]
                is SemanticSection) && !(file[i] is ContentChunk) && !(file[i] is Unhashed)) ==> {
            &&& graph_records(file) == 0
            &&& semantic_records(file) == 0
            &&& chunk_records(file) == 0
            &&& unhashed_records(file) == 0
        },
    decreases file.len(),
{
    reveal(Seq::filter);
    if file.len() > 0 {
        let rest = file.drop_last();
        lemma_counts_of_one_kind(rest);
        assert(forall|i: int| 0 <= i < rest.len() ==> #[trigger] rest[i] == file[i]);
        assert(file.last() == file[file.len() - 1]);
    }
}

/// The header of an exported file says, field by field, what the metadata says; and where the
/// store has all parts that the metadata counts, each count of the header is the number of
/// records of that kind in the file. Unhashed data is in the file exactly where the metadata
/// says that the change carries some and the store has it.
pub proof fn law_export_header_describes_the_file(
    txn: redb::ReadTransaction,
    hash: Seq<u8>,
    meta: ChangeMeta,
    hash_table_entries: usize,
    records: Vec<V3Record>,
)
    requires
        export::answers_export(
            txn,
            hash,
            meta,
            hash_table_entries,
            Ok::<Vec<V3Record>, RedbStoreError>(records),
        ),
    ensures
        records@.len() >= 5,
        records@[0] matches V3Record::FileHeader(header) && {
            &&& header.hash_table_entries == hash_table_entries as u32
            &&& header.graph_section_count == meta.graph_section_count
            &&& header.semantic_section_count == meta.semantic_section_count
            &&& header.contents_chunks == meta.content_chunk_count
            &&& header.provenance == meta.has_provenance
            &&& header.unhashed == meta.has_unhashed
            &&& is_complete(txn, hash, meta) ==> {
                &&& graph_records(export::parts(records@)) == header.graph_section_count
                &&& semantic_records(export::parts(records@)) == header.semantic_section_count
                &&& chunk_records(export::parts(records@)) == header.contents_chunks
            }
        },
        records@[1] matches V3Record::HashTable(hashes) && hashes@ == meta.hash_table@,
        records@[2] matches V3Record::ChangeHeader(header) && header@ == meta.header@,
        records@[3] matches V3Record::Dependencies(indices) && indices@ == meta.dependency_indices@,
        records@.last() is End,
        unhashed_records(export::parts(records@)) == if meta.has_unhashed && has_table(
            txn,
            "change_unhashed"@,
        ) && table(txn, "change_unhashed"@).contains_key(hash) {
            1nat
        } else {
            0nat
        },
{
    let file = export::parts(records@);
    let graph = sections::stored_sections(
        txn,
        SectionType::Graph,
        hash,
        meta.graph_section_count,
    )->Ok_0;
    let semantic = sections::stored_sections(
        txn,
        SectionType::Semantic,
        hash,
        meta.semantic_section_count,
    )->Ok_0;
    let chunks = sections::stored_chunks(txn, hash, meta.content_chunk_count)->Ok_0;
    let unhashed = export::unhashed_records(txn, hash, meta)->Ok_0;
    let a = export::preamble(meta, hash_table_entries);
    let b = export::section_records(SectionType::Graph, graph);
    let c = export::section_records(SectionType::Semantic, semantic);
    let d = export::chunk_records(chunks);
    let f = seq![V3Part::End];
    assert(file == a + b + c + d + unhashed + f);
    lemma_counts_add(a, b);
    lemma_counts_add(a + b, c);
    lemma_counts_add(a + b + c, d);
    lemma_counts_add(a + b + c + d, unhashed);
    lemma_counts_add(a + b + c + d + unhashed, f);
    lemma_counts_of_one_kind(a);
    lemma_counts_of_one_kind(b);
    lemma_counts_of_one_kind(c);
    lemma_counts_of_one_kind(d);
    lemma_counts_of_one_kind(unhashed);
    lemma_counts_of_one_kind(f);
    assert(file[0] == records@[0]@ && file[1] == records@[1]@ && file[2] == records@[2]@ && file[3]
        == records@[3]@);
    assert(file.last() == records@.last()@);
    if is_complete(txn, hash, meta) {
        lemma_full_sections(
            table(txn, "change_graph"@),
            SectionType::Graph.label(),
            hash,
            meta.graph_section_count,
        );
        lemma_full_sections(
            table(txn, "change_semantic"@),
            SectionType::Semantic.label(),
            hash,
            meta.semantic_section_count,
        );
        lemma_full_chunks(
            table(txn, "change_chunks"@),
            table(txn, "content_chunks"@),
            hash,
            meta.content_chunk_count,
        );
    }
}

/// The number of entries in the hash table of an exported file is none where the change refers
/// to no hash, and else what came of building the table, which may have failed.
pub proof fn law_hash_table_size_is_that_of_the_hashes(
    hashes: Seq<[u8; 32]>,
    rebuilt: Result<usize, String>,
)
    ensures
        hashes.len() == 0 ==> export::table_size(hashes, rebuilt) == Ok::<usize, StoreFault>(0),
        hashes.len() > 0 && rebuilt is Ok ==> export::table_size(hashes, rebuilt) == Ok::<
            usize,
            StoreFault,
        >(rebuilt->Ok_0),
        hashes.len() > 0 && rebuilt is Err ==> export::table_size(hashes, rebuilt) == Err::<
            usize,
            StoreFault,
        >(StoreFault::Corrupt("hash table reconstruction failed: "@ + rebuilt->Err_0@)),
{
}

/// What the table of this name holds as the write transaction stands; nothing where there is no
/// such table.
pub open spec fn held(txn: redb::WriteTransaction, name: Seq<char>) -> Map<Seq<u8>, Seq<u8>> {
    match database::pending(txn, name) {
        Some(entries) => entries,
        None => Map::empty(),
    }
}

/// The entry of this table belongs to the change: its metadata, its unhashed data, or one of the
/// parts that its metadata counts.
pub open spec fn belongs_to(
    name: Seq<char>,
    key: Seq<u8>,
    hash: Seq<u8>,
    meta: ChangeMeta,
) -> bool {
    ||| name == "change_meta"@ && key == hash
    ||| name == "change_unhashed"@ && key == hash
    ||| name == "change_graph"@ && is_part(key, hash, meta.graph_section_count)
    ||| name == "change_semantic"@ && is_part(key, hash, meta.semantic_section_count)
    ||| name == "change_chunks"@ && is_part(key, hash, meta.content_chunk_count)
}

/// The key is that of a part of the change below the count.
pub open spec fn is_part(key: Seq<u8>, hash: Seq<u8>, count: u32) -> bool {
    exists|i: u32| i < count && key == #[trigger] keys::file_key(hash, i)
}

/// Removing a change takes away the entries that belong to it, in every table, and leaves every
/// other entry of every table as it is.
pub proof fn law_removal_takes_what_belongs_to_the_change(
    before: redb::WriteTransaction,
    after: redb::WriteTransaction,
    hash: Seq<u8>,
    meta: ChangeMeta,
    name: Seq<char>,
    key: Seq<u8>,
)
    requires
        removal::removes(before, after, hash, meta),
    ensures
        belongs_to(name, key, hash, meta) ==> !held(after, name).contains_key(key),
        !belongs_to(name, key, hash, meta) ==> {
            &&& held(after, name).contains_key(key) == held(before, name).contains_key(key)
            &&& held(before, name).contains_key(key) ==> held(after, name)[key] == held(
                before,
                name,
            )[key]
        },
{
    removal::lemma_tables_are_distinct();
    assert(database::pending(after, name) == removal::after_removal(
        name,
        database::pending(before, name),
        hash,
        meta,
    ));
    if name == "change_graph"@ {
        assert(removal::part_keys(hash, meta.graph_section_count as nat).contains(key)
            <==> is_part(key, hash, meta.graph_section_count));
    }
    if name == "change_semantic"@ {
        assert(removal::part_keys(hash, meta.semantic_section_count as nat).contains(key)
            <==> is_part(key, hash, meta.semantic_section_count));
    }
    if name == "change_chunks"@ {
        assert(removal::part_keys(hash, meta.content_chunk_count as nat).contains(key)
            <==> is_part(key, hash, meta.content_chunk_count));
    }
}

/// What a deletion answers: nothing was there exactly where the change was not found; any other
/// error about its metadata comes back as it is; and what was deleted was removed in one
/// transaction on the store's database, which was committed.
pub proof fn law_deletion_answers_by_the_metadata(
    store: RedbChangeStore,
    hash: Seq<u8>,
    meta: RedbStoreResult<ChangeMeta>,
    deleted: RedbStoreResult<bool>,
)
    requires
        store.deletes(hash, meta, deleted),
    ensures
        deleted matches Ok(false) <==> meta matches Err(RedbStoreError::NotFound { .. }),
        meta is Err && !(meta->Err_0 is NotFound) ==> deleted == Err::<bool, RedbStoreError>(
            meta->Err_0,
        ),
        deleted matches Ok(true) ==> meta is Ok && exists|
            before: redb::WriteTransaction,
            after: redb::WriteTransaction,
        |
            {
                &&& database::begun(before, store.database())
                &&& database::writes(after, store.database())
                &&& database::committed(after)
                &&& #[trigger] removal::removes(before, after, hash, meta->Ok_0)
            },
{
    if let Ok(true) = deleted {
        let (before, after) = choose|before: redb::WriteTransaction, after: redb::WriteTransaction|
            #[trigger] removal::removed_by(store.database(), before, after, hash, meta->Ok_0);
        assert(removal::removes(before, after, hash, meta->Ok_0));
    }
}

/// What the chunks of a change below an index hold, one after the other: each is what its
/// content decompresses to, and one that the store lacks adds nothing.
pub open spec fn content_below(
    manifest: Map<Seq<u8>, Seq<u8>>,
    contents: Map<Seq<u8>, Seq<u8>>,
    hash: Seq<u8>,
    count: nat,
) -> Seq<u8>
    decreases count,
{
    if count == 0 {
        Seq::empty()
    } else {
        let index = (count - 1) as u32;
        let before = content_below(manifest, contents, hash, (count - 1) as nat);
        if is_stored_chunk(manifest, contents, hash, index) {
            before + database::zstd_decoded(contents[manifest[keys::file_key(hash, index)]])->Ok_0
        } else {
            before
        }
    }
}

/// The data of a run of chunks, joined, is the content below its end.
proof fn lemma_content_below(
    manifest: Map<Seq<u8>, Seq<u8>>,
    contents: Map<Seq<u8>, Seq<u8>>,
    hash: Seq<u8>,
    count: nat,
)
    requires
        sections::chunk_run(manifest, contents, hash, count) is Ok,
    ensures
        queries::joined(sections::chunk_run(manifest, contents, hash, count)->Ok_0)
            == content_below(manifest, contents, hash, count),
    decreases count,
{
    if count > 0 {
        lemma_content_below(manifest, contents, hash, (count - 1) as nat);
        let before = sections::chunk_run(manifest, contents, hash, (count - 1) as nat)->Ok_0;
        let all = sections::chunk_run(manifest, contents, hash, count)->Ok_0;
        if is_stored_chunk(manifest, contents, hash, (count - 1) as u32) {
            assert(all.drop_last() =~= before);
        }
    }
}

/// The bytes are the content that the snapshot holds for so many chunks of the change.
pub open spec fn is_content_of(
    txn: redb::ReadTransaction,
    hash: Seq<u8>,
    count: u32,
    bytes: Seq<u8>,
) -> bool {
    &&& has_table(txn, "change_chunks"@)
    &&& has_table(txn, "content_chunks"@)
    &&& bytes == content_below(
        table(txn, "change_chunks"@),
        table(txn, "content_chunks"@),
        hash,
        count as nat,
    )
}

/// The full content that is loaded of a change is all that a snapshot of the store holds for as
/// many chunks as the metadata counts. Without metadata the load gives the reason for that.
pub proof fn law_full_content_has_every_chunk(
    store: RedbChangeStore,
    hash: Seq<u8>,
    meta: RedbStoreResult<ChangeMeta>,
    found: RedbStoreResult<Vec<u8>>,
)
    requires
        store.loads_content(hash, meta, found),
    ensures
        meta is Err ==> found is Err && found->Err_0 == meta->Err_0,
        meta is Ok && found is Ok ==> exists|txn: redb::ReadTransaction|
            store.shows(txn) && #[trigger] is_content_of(
                txn,
                hash,
                meta->Ok_0.content_chunk_count,
                found->Ok_0@,
            ),
{
    if meta is Ok && found is Ok {
        let count = meta->Ok_0.content_chunk_count;
        let txn = choose|txn: redb::ReadTransaction|
            store.shows(txn) && #[trigger] queries::answers_content(txn, hash, count, found);
        lemma_content_below(
            table(txn, "change_chunks"@),
            table(txn, "content_chunks"@),
            hash,
            count as nat,
        );
        assert(is_content_of(txn, hash, count, found->Ok_0@));
    }
}

/// Where a change carries unhashed data and the store has it, the last record before the end of
/// an exported file is that data, decompressed.
pub proof fn law_exported_unhashed_data_is_decompressed(
    txn: redb::ReadTransaction,
    hash: Seq<u8>,
    meta: ChangeMeta,
    hash_table_entries: usize,
    records: Vec<V3Record>,
)
    requires
        export::answers_export(
            txn,
            hash,
            meta,
            hash_table_entries,
            Ok::<Vec<V3Record>, RedbStoreError>(records),
        ),
        meta.has_unhashed,
        has_table(txn, "change_unhashed"@),
        table(txn, "change_unhashed"@).contains_key(hash),
    ensures
        records@.len() >= 6,
        records@[records@.len() - 2] matches V3Record::Unhashed(data) && decodes_to(
            table(txn, "change_unhashed"@)[hash],
            data@,
        ),
{
    let file = export::parts(records@);
    assert(file[file.len() - 2] == records@[records@.len() - 2]@);
}

/// An export that fails for what the store holds fails as one of its reads does: that of the
/// graph layer, of the semantic layer, of the content chunks or, where the change carries some,
/// of the unhashed data.
pub proof fn law_export_fails_as_its_reads_do(
    txn: redb::ReadTransaction,
    hash: Seq<u8>,
    meta: ChangeMeta,
    hash_table_entries: usize,
    error: RedbStoreError,
)
    requires
        export::answers_export(
            txn,
            hash,
            meta,
            hash_table_entries,
            Err::<Vec<V3Record>, RedbStoreError>(error),
        ),
        !error.is_database_failure(),
    ensures
        ({
            let none = Err::<Vec<StoredSection>, RedbStoreError>(error);
            let graph = queries::answers_sections(
                txn,
                SectionType::Graph,
                hash,
                meta.graph_section_count,
                none,
            );
            let semantic = queries::answers_sections(
                txn,
                SectionType::Semantic,
                hash,
                meta.semantic_section_count,
                none,
            );
            let chunks = queries::answers_chunks(
                txn,
                hash,
                meta.content_chunk_count,
                Err::<Vec<StoredContentChunk>, RedbStoreError>(error),
            );
            ||| graph
            ||| semantic
            ||| chunks
            ||| meta.has_unhashed && has_table(txn, "change_unhashed"@) && table(
                txn,
                "change_unhashed"@,
            ).contains_key(hash) && database::zstd_decoded(
                table(txn, "change_unhashed"@)[hash],
            ) is Err && error.fault() == Some(
                StoreFault::Corrupt(
                    "unhashed decompression failed: "@ + database::zstd_decoded(
                        table(txn, "change_unhashed"@)[hash],
                    )->Err_0,
                ),
            )
        }),
{
}

} // verus!
