//! What holds between several calls on one store.
//!
//! Each call reads its own snapshot. The laws say what the results have to do with each other
//! where the snapshots show the same rows, or where one was taken before a change was removed
//! and one shows what was committed then. What the database itself may refuse to do is set
//! apart everywhere.

use vstd::prelude::*;

use super::database;
use super::error::{RedbStoreError, RedbStoreResult};
use super::export;
use super::export::V3Record;
use super::keys::{CHANGE_CHUNKS, CHANGE_UNHASHED, CONTENT_CHUNKS};
use super::queries;
use super::queries::{ChangeMeta, RedbChangeStore};
use super::removal;
use super::sections;
use super::sections::{SectionType, StoredContentChunk, StoredSection};

verus! {

/// The two snapshots show the same chunk manifests and the same content chunks.
pub open spec fn same_chunks(one: redb::ReadTransaction, two: redb::ReadTransaction) -> bool {
    &&& database::snapshot(one, CHANGE_CHUNKS@) == database::snapshot(two, CHANGE_CHUNKS@)
    &&& database::snapshot(one, CONTENT_CHUNKS@) == database::snapshot(two, CONTENT_CHUNKS@)
}

/// The database failed in the call.
pub open spec fn refused<T>(found: RedbStoreResult<T>) -> bool {
    found matches Err(error) && error.is_database_failure()
}

/// How many bytes the chunks have together.
pub open spec fn data_len(chunks: Seq<StoredContentChunk>) -> nat
    decreases chunks.len(),
{
    if chunks.len() == 0 {
        0
    } else {
        data_len(chunks.drop_last()) + chunks.last().data@.len()
    }
}

/// The data of the chunks one after the other.
pub open spec fn data_of(chunks: Seq<StoredContentChunk>) -> Seq<u8>
    decreases chunks.len(),
{
    if chunks.len() == 0 {
        Seq::empty()
    } else {
        data_of(chunks.drop_last()) + chunks.last().data@
    }
}

proof fn lemma_data(chunks: Seq<StoredContentChunk>)
    ensures
        queries::joined(sections::chunk_parts(chunks)) == data_of(chunks),
        data_of(chunks).len() == data_len(chunks),
    decreases chunks.len(),
{
    if chunks.len() > 0 {
        lemma_data(chunks.drop_last());
        assert(sections::chunk_parts(chunks).drop_last() =~= sections::chunk_parts(
            chunks.drop_last(),
        ));
    }
}

/// The full content of a change is the data of its content chunks, in the order in which they
/// are loaded and with nothing between; where the chunks cannot be loaded, neither can the
/// content, and for the same reason.
pub proof fn law_full_content_is_the_chunks_joined(
    one: redb::ReadTransaction,
    two: redb::ReadTransaction,
    hash: Seq<u8>,
    count: u32,
    chunks: RedbStoreResult<Vec<StoredContentChunk>>,
    content: RedbStoreResult<Vec<u8>>,
)
    requires
        same_chunks(one, two),
        queries::answers_chunks(one, hash, count, chunks),
        queries::answers_content(two, hash, count, content),
        !refused(chunks),
        !refused(content),
    ensures
        match (chunks, content) {
            (Ok(list), Ok(bytes)) => bytes@ == data_of(list@) && bytes@.len() == data_len(list@),
            (Err(one), Err(two)) => one.fault() == two.fault() && one.fault() is Some,
            _ => false,
        },
{
    if let Ok(list) = chunks {
        lemma_data(list@);
    }
}

/// The indices of a chunk manifest strictly increase and lie below the count of the change's
/// chunks, and the content chunks that are loaded are the entries of the manifest whose
/// content is in the store, in the same order.
pub proof fn law_chunks_are_what_the_manifest_lists(
    one: redb::ReadTransaction,
    two: redb::ReadTransaction,
    hash: Seq<u8>,
    count: u32,
    chunks: Vec<StoredContentChunk>,
    manifest: Vec<(u32, [u8; 32])>,
)
    requires
        same_chunks(one, two),
        queries::answers_chunks(
            one,
            hash,
            count,
            Ok::<Vec<StoredContentChunk>, RedbStoreError>(chunks),
        ),
        queries::answers_manifest(
            two,
            hash,
            count,
            Ok::<Vec<(u32, [u8; 32])>, RedbStoreError>(manifest),
        ),
    ensures
        forall|i: int, j: int|
            0 <= i < j < manifest@.len() ==> (#[trigger] manifest@[i]).0 < (
            #[trigger] manifest@[j]).0,
        forall|i: int| 0 <= i < manifest@.len() ==> (#[trigger] manifest@[i]).0 < count,
        sections::chunk_parts(chunks@).map_values(
            |part: (u32, Seq<u8>, Seq<u8>)| (part.0, part.1),
        ) == sections::manifest_parts(manifest@).filter(
            |entry: (u32, Seq<u8>)|
                queries::answers_presence(two, entry.1, Ok::<bool, RedbStoreError>(true)),
        ),
{
    let entries = database::snapshot(two, CHANGE_CHUNKS@)->Some_0;
    let contents = database::snapshot(two, CONTENT_CHUNKS@)->Some_0;
    sections::law_manifest_complete_and_ordered(entries, hash, count);
    sections::law_chunks_follow_manifest(entries, contents, hash, count);
    let parts = sections::manifest_parts(manifest@);
    assert forall|i: int| 0 <= i < manifest@.len() implies (#[trigger] manifest@[i]).0
        == parts[i].0 by {}
    assert((|entry: (u32, Seq<u8>)|
        queries::answers_presence(two, entry.1, Ok::<bool, RedbStoreError>(true))) =~= (|
        entry: (u32, Seq<u8>),
    | contents.contains_key(entry.1)));
}

/// An export holds what the metadata gives, the change's own header among it, and then what
/// the loads of the change's parts give: the graph sections, the semantic sections and the
/// content chunks, each in the order of the load; then the unhashed data, where there is any.
pub proof fn law_export_is_made_of_what_is_loaded(
    one: redb::ReadTransaction,
    two: redb::ReadTransaction,
    hash: Seq<u8>,
    meta: ChangeMeta,
    hash_table_entries: usize,
    records: Vec<V3Record>,
    graph: Vec<StoredSection>,
    semantic: Vec<StoredSection>,
    chunks: Vec<StoredContentChunk>,
)
    requires
        forall|table: Seq<char>| #[trigger]
            database::snapshot(one, table) == database::snapshot(two, table),
        export::answers_export(
            one,
            hash,
            meta,
            hash_table_entries,
            Ok::<Vec<V3Record>, RedbStoreError>(records),
        ),
        queries::answers_sections(
            two,
            SectionType::Graph,
            hash,
            meta.graph_section_count,
            Ok::<Vec<StoredSection>, RedbStoreError>(graph),
        ),
        queries::answers_sections(
            two,
            SectionType::Semantic,
            hash,
            meta.semantic_section_count,
            Ok::<Vec<StoredSection>, RedbStoreError>(semantic),
        ),
        queries::answers_chunks(
            two,
            hash,
            meta.content_chunk_count,
            Ok::<Vec<StoredContentChunk>, RedbStoreError>(chunks),
        ),
    ensures
        export::unhashed_records(two, hash, meta) matches Ok(unhashed) && export::parts(records@)
            == export::preamble(meta, hash_table_entries) + export::section_records(
            SectionType::Graph,
            sections::section_parts(graph@),
        ) + export::section_records(
            SectionType::Semantic,
            sections::section_parts(semantic@),
        ) + export::chunk_records(sections::chunk_parts(chunks@)) + unhashed + seq![
            export::V3Part::End,
        ],
{
    assert(database::snapshot(one, SectionType::Graph.table()) == database::snapshot(
        two,
        SectionType::Graph.table(),
    ));
    assert(database::snapshot(one, SectionType::Semantic.table()) == database::snapshot(
        two,
        SectionType::Semantic.table(),
    ));
    assert(database::snapshot(one, CHANGE_CHUNKS@) == database::snapshot(two, CHANGE_CHUNKS@));
    assert(database::snapshot(one, CONTENT_CHUNKS@) == database::snapshot(two, CONTENT_CHUNKS@));
    assert(database::snapshot(one, CHANGE_UNHASHED@) == database::snapshot(two, CHANGE_UNHASHED@));
}

/// After a change has been deleted its metadata is not found. Whoever hands that on gets it
/// back from a load of the full content: the change can no longer be loaded.
pub proof fn law_deleted_change_cannot_be_loaded(
    store: RedbChangeStore,
    before: redb::WriteTransaction,
    after: redb::WriteTransaction,
    later: redb::ReadTransaction,
    hash: Seq<u8>,
    meta: ChangeMeta,
    stored: RedbStoreResult<Vec<u8>>,
    decoded: RedbStoreResult<ChangeMeta>,
    content: RedbStoreResult<Vec<u8>>,
)
    requires
        removal::removed_by(store.database(), before, after, hash, meta),
        removal::shows_pending(later, after),
        queries::answers_meta(later, hash, stored),
        stored matches Err(error) ==> decoded == Err::<ChangeMeta, RedbStoreError>(error),
        store.loads_content(hash, decoded, content),
    ensures
        content is Err,
        !refused(stored) ==> (content matches Err(RedbStoreError::NotFound { hash: absent })
            && absent@ == hash),
{
    removal::law_removed_change_is_not_found(before, after, later, hash, meta);
}

/// A deletion that follows one which removed the change finds nothing to delete.
pub proof fn law_second_deletion_finds_nothing(
    store: RedbChangeStore,
    before: redb::WriteTransaction,
    after: redb::WriteTransaction,
    later: redb::ReadTransaction,
    hash: Seq<u8>,
    meta: ChangeMeta,
    stored: RedbStoreResult<Vec<u8>>,
    decoded: RedbStoreResult<ChangeMeta>,
    deleted: RedbStoreResult<bool>,
)
    requires
        removal::removed_by(store.database(), before, after, hash, meta),
        removal::shows_pending(later, after),
        queries::answers_meta(later, hash, stored),
        !refused(stored),
        stored matches Err(error) ==> decoded == Err::<ChangeMeta, RedbStoreError>(error),
        store.deletes(hash, decoded, deleted),
    ensures
        deleted == Ok::<bool, RedbStoreError>(false),
{
    removal::law_removed_change_is_not_found(before, after, later, hash, meta);
}

/// Deleting a change leaves the full content of every other change as it was, whether or not
/// the two share chunks.
pub proof fn law_other_content_is_loaded_as_before(
    store: RedbChangeStore,
    before: redb::WriteTransaction,
    after: redb::WriteTransaction,
    earlier: redb::ReadTransaction,
    later: redb::ReadTransaction,
    hash: Seq<u8>,
    meta: ChangeMeta,
    other: Seq<u8>,
    count: u32,
    first: Vec<u8>,
    second: RedbStoreResult<Vec<u8>>,
)
    requires
        removal::removed_by(store.database(), before, after, hash, meta),
        removal::shows_pending(earlier, before),
        removal::shows_pending(later, after),
        hash.len() == 32,
        other.len() == 32,
        other != hash,
        queries::answers_content(earlier, other, count, Ok::<Vec<u8>, RedbStoreError>(first)),
        queries::answers_content(later, other, count, second),
        !refused(second),
    ensures
        second matches Ok(content) && content@ == first@,
{
    removal::law_other_changes_are_read_as_before(
        before,
        after,
        earlier,
        later,
        hash,
        meta,
        other,
        SectionType::Graph,
        count,
    );
}

} // verus!
