//! Removing a change from the store.

use vstd::prelude::*;

use super::database;
use super::database::{
    begin_write, commit, create_manifest, create_sections, remove_manifest_entry, remove_record,
    remove_section,
};
use super::error::{RedbStoreError, RedbStoreResult};
use super::keys;
use super::keys::{
    encode_change_file_key, CHANGE_CHUNKS, CHANGE_GRAPH, CHANGE_META, CHANGE_SEMANTIC,
    CHANGE_UNHASHED, CONTENT_CHUNKS,
};
use super::queries;
use super::queries::{ChangeMeta, RedbChangeStore};
use super::sections;
use super::sections::SectionType;

verus! {

/// The keys of the first `count` parts of the change `hash`.
pub open spec fn part_keys(hash: Seq<u8>, count: nat) -> Set<Seq<u8>> {
    Set::new(|key: Seq<u8>| exists|i: u32| i < count && key == #[trigger] keys::file_key(hash, i))
}

/// What is left of a table without the first `count` parts of the change `hash`.
pub open spec fn without_parts(
    entries: Map<Seq<u8>, Seq<u8>>,
    hash: Seq<u8>,
    count: nat,
) -> Map<Seq<u8>, Seq<u8>> {
    entries.remove_keys(part_keys(hash, count))
}

/// What the named table holds after the change has been removed, given what it held:
/// the change's own entries are gone, and nothing else is.
pub open spec fn after_removal(
    table: Seq<char>,
    entries: Option<Map<Seq<u8>, Seq<u8>>>,
    hash: Seq<u8>,
    meta: ChangeMeta,
) -> Option<Map<Seq<u8>, Seq<u8>>> {
    if table == CHANGE_META@ || table == CHANGE_UNHASHED@ {
        Some(database::created(entries).remove(hash))
    } else if table == CHANGE_GRAPH@ {
        Some(without_parts(database::created(entries), hash, meta.graph_section_count as nat))
    } else if table == CHANGE_SEMANTIC@ {
        Some(without_parts(database::created(entries), hash, meta.semantic_section_count as nat))
    } else if table == CHANGE_CHUNKS@ {
        Some(without_parts(database::created(entries), hash, meta.content_chunk_count as nat))
    } else {
        entries
    }
}

/// Between the two states of a write transaction the change has been removed, and nothing
/// else has happened.
pub open spec fn removes(
    before: redb::WriteTransaction,
    after: redb::WriteTransaction,
    hash: Seq<u8>,
    meta: ChangeMeta,
) -> bool {
    &&& forall|table: Seq<char>| #[trigger]
        database::pending(after, table) == after_removal(
            table,
            database::pending(before, table),
            hash,
            meta,
        )
    &&& forall|db: redb::Database|
        database::writes(before, db) ==> #[trigger] database::writes(after, db)
}

/// Removing one part more.
proof fn lemma_without_next(entries: Map<Seq<u8>, Seq<u8>>, hash: Seq<u8>, index: u32)
    ensures
        without_parts(entries, hash, index as nat).remove(keys::file_key(hash, index))
            == without_parts(entries, hash, (index + 1) as nat),
{
    let less = without_parts(entries, hash, index as nat).remove(keys::file_key(hash, index));
    let all = without_parts(entries, hash, (index + 1) as nat);
    assert forall|key: Seq<u8>| part_keys(hash, (index + 1) as nat).contains(key) <==> (part_keys(
        hash,
        index as nat,
    ).contains(key) || key == keys::file_key(hash, index)) by {
        if part_keys(hash, (index + 1) as nat).contains(key) {
            let i = choose|i: u32| i < index + 1 && key == #[trigger] keys::file_key(hash, i);
            if i < index {
                assert(part_keys(hash, index as nat).contains(key));
            }
        }
        if part_keys(hash, index as nat).contains(key) {
            let i = choose|i: u32| i < index && key == #[trigger] keys::file_key(hash, i);
            assert(i < index + 1);
        }
    }
    assert(less =~= all);
}

fn remove_sections(
    txn: &mut redb::WriteTransaction,
    table: &str,
    hash: &[u8; 32],
    count: u32,
) -> (done: RedbStoreResult<()>)
    requires
        table@.len() > 0,
    ensures
        match done {
            Ok(_) => database::only_changed(
                *old(txn),
                *final(txn),
                table@,
                without_parts(
                    database::created(database::pending(*old(txn), table@)),
                    hash@,
                    count as nat,
                ),
            ),
            Err(error) => error is Table,
        },
{
    let ghost before = *txn;
    let ghost entries = database::created(database::pending(*txn, table@));
    if let Err(e) = create_sections(txn, table) {
        return Err(RedbStoreError::Table(e));
    }
    let mut index: u32 = 0;
    assert(without_parts(entries, hash@, 0) =~= entries) by {
        assert(part_keys(hash@, 0) =~= Set::empty());
    }
    while index < count
        invariant
            index <= count,
            table@.len() > 0,
            database::only_changed(
                before,
                *txn,
                table@,
                without_parts(entries, hash@, index as nat),
            ),
        decreases count - index,
    {
        let key = encode_change_file_key(hash, index);
        if let Err(e) = remove_section(txn, table, &key) {
            return Err(RedbStoreError::Table(e));
        }
        proof {
            lemma_without_next(entries, hash@, index);
        }
        index = index + 1;
    }
    Ok(())
}

fn remove_manifest(
    txn: &mut redb::WriteTransaction,
    table: &str,
    hash: &[u8; 32],
    count: u32,
) -> (done: RedbStoreResult<()>)
    requires
        table@.len() > 0,
    ensures
        match done {
            Ok(_) => database::only_changed(
                *old(txn),
                *final(txn),
                table@,
                without_parts(
                    database::created(database::pending(*old(txn), table@)),
                    hash@,
                    count as nat,
                ),
            ),
            Err(error) => error is Table,
        },
{
    let ghost before = *txn;
    let ghost entries = database::created(database::pending(*txn, table@));
    if let Err(e) = create_manifest(txn, table) {
        return Err(RedbStoreError::Table(e));
    }
    let mut index: u32 = 0;
    assert(without_parts(entries, hash@, 0) =~= entries) by {
        assert(part_keys(hash@, 0) =~= Set::empty());
    }
    while index < count
        invariant
            index <= count,
            table@.len() > 0,
            database::only_changed(
                before,
                *txn,
                table@,
                without_parts(entries, hash@, index as nat),
            ),
        decreases count - index,
    {
        let key = encode_change_file_key(hash, index);
        if let Err(e) = remove_manifest_entry(txn, table, &key) {
            return Err(RedbStoreError::Table(e));
        }
        proof {
            lemma_without_next(entries, hash@, index);
        }
        index = index + 1;
    }
    Ok(())
}

/// Remove the entries of the change `hash` from every table but the shared content
/// chunks.
pub fn delete_entries(
    txn: &mut redb::WriteTransaction,
    hash: &[u8; 32],
    meta: &ChangeMeta,
) -> (done: RedbStoreResult<()>)
    ensures
        match done {
            Ok(_) => removes(*old(txn), *final(txn), hash@, *meta),
            Err(error) => error is Table,
        },
{
    proof {
        lemma_tables_are_distinct();
        reveal_strlit("change_meta");
        reveal_strlit("change_graph");
        reveal_strlit("change_semantic");
        reveal_strlit("change_chunks");
        reveal_strlit("change_unhashed");
    }
    if let Err(e) = remove_record(txn, CHANGE_META, hash) {
        return Err(RedbStoreError::Table(e));
    }
    if let Err(e) = remove_sections(txn, CHANGE_GRAPH, hash, meta.graph_section_count) {
        return Err(e);
    }
    if let Err(e) = remove_sections(txn, CHANGE_SEMANTIC, hash, meta.semantic_section_count) {
        return Err(e);
    }
    if let Err(e) = remove_manifest(txn, CHANGE_CHUNKS, hash, meta.content_chunk_count) {
        return Err(e);
    }
    if let Err(e) = remove_record(txn, CHANGE_UNHASHED, hash) {
        return Err(RedbStoreError::Table(e));
    }
    Ok(())
}

/// No two tables have the same name.
pub proof fn lemma_tables_are_distinct()
    ensures
        CHANGE_META@ != CHANGE_GRAPH@,
        CHANGE_META@ != CHANGE_SEMANTIC@,
        CHANGE_META@ != CHANGE_CHUNKS@,
        CHANGE_META@ != CHANGE_UNHASHED@,
        CHANGE_META@ != CONTENT_CHUNKS@,
        CHANGE_GRAPH@ != CHANGE_SEMANTIC@,
        CHANGE_GRAPH@ != CHANGE_CHUNKS@,
        CHANGE_GRAPH@ != CHANGE_UNHASHED@,
        CHANGE_GRAPH@ != CONTENT_CHUNKS@,
        CHANGE_SEMANTIC@ != CHANGE_CHUNKS@,
        CHANGE_SEMANTIC@ != CHANGE_UNHASHED@,
        CHANGE_SEMANTIC@ != CONTENT_CHUNKS@,
        CHANGE_CHUNKS@ != CHANGE_UNHASHED@,
        CHANGE_CHUNKS@ != CONTENT_CHUNKS@,
        CHANGE_UNHASHED@ != CONTENT_CHUNKS@,
{
    reveal_strlit("change_meta");
    reveal_strlit("change_graph");
    reveal_strlit("change_semantic");
    reveal_strlit("change_chunks");
    reveal_strlit("change_unhashed");
    reveal_strlit("content_chunks");
    assert(CHANGE_META@.len() == 11);
    assert(CHANGE_GRAPH@.len() == 12);
    assert(CHANGE_CHUNKS@.len() == 13);
    assert(CONTENT_CHUNKS@.len() == 14);
    assert(CHANGE_SEMANTIC@.len() == 15);
    assert(CHANGE_UNHASHED@.len() == 15);
    assert(CHANGE_SEMANTIC@[7] != CHANGE_UNHASHED@[7]);
}

/// A write transaction on the database that began as `before` removed the change and was
/// committed as `after`.
pub open spec fn removed_by(
    db: redb::Database,
    before: redb::WriteTransaction,
    after: redb::WriteTransaction,
    hash: Seq<u8>,
    meta: ChangeMeta,
) -> bool {
    &&& database::begun(before, db)
    &&& database::writes(after, db)
    &&& removes(before, after, hash, meta)
    &&& database::committed(after)
}

impl RedbChangeStore {
    /// What a deletion of a change gives, where `meta` is its metadata or the reason why
    /// there is none: without a change there is nothing to delete, any other reason is handed
    /// on, and with metadata the change is removed or the database fails.
    pub open spec fn deletes(
        self,
        hash: Seq<u8>,
        meta: RedbStoreResult<ChangeMeta>,
        deleted: RedbStoreResult<bool>,
    ) -> bool {
        match meta {
            Err(RedbStoreError::NotFound { .. }) => deleted == Ok::<bool, RedbStoreError>(false),
            Err(error) => deleted == Err::<bool, RedbStoreError>(error),
            Ok(m) => match deleted {
                Ok(done) => done && exists|
                    before: redb::WriteTransaction,
                    after: redb::WriteTransaction,
                | #[trigger]
                    removed_by(self.database(), before, after, hash, m),
                Err(error) => error is Transaction || error is Table || error is Commit,
            },
        }
    }

    /// Delete a change from the store, given its metadata or the reason why there is
    /// none. The result says whether there was such a change. Content chunks stay, since
    /// other changes may share them.
    pub fn delete_change(&self, hash: &[u8; 32], meta: RedbStoreResult<ChangeMeta>) -> (deleted:
        RedbStoreResult<bool>)
        ensures
            self.deletes(hash@, meta, deleted),
    {
        let meta = match meta {
            Ok(meta) => meta,
            Err(RedbStoreError::NotFound { .. }) => return Ok(false),
            Err(e) => return Err(e),
        };
        let mut txn = match begin_write(self.db()) {
            Ok(txn) => txn,
            Err(e) => return Err(RedbStoreError::Transaction(e)),
        };
        let ghost before = txn;
        if let Err(e) = delete_entries(&mut txn, hash, &meta) {
            return Err(e);
        }
        let ghost after = txn;
        match commit(txn) {
            Ok(_) => {
                assert(removed_by(self.database(), before, after, hash@, meta));
                Ok(true)
            },
            Err(e) => Err(RedbStoreError::Commit(e)),
        }
    }
}

/// Removing a change leaves the shared content chunks as they are.
pub proof fn law_removal_spares_content(
    entries: Option<Map<Seq<u8>, Seq<u8>>>,
    hash: Seq<u8>,
    meta: ChangeMeta,
)
    ensures
        after_removal(CONTENT_CHUNKS@, entries, hash, meta) == entries,
{
    lemma_tables_are_distinct();
}

/// Removing a change leaves every entry of every other change as it is: the records
/// under the other's hash, and its parts.
pub proof fn law_removal_spares_other_changes(
    table: Seq<char>,
    entries: Map<Seq<u8>, Seq<u8>>,
    hash: Seq<u8>,
    meta: ChangeMeta,
    other: Seq<u8>,
    index: u32,
)
    requires
        hash.len() == 32,
        other.len() == 32,
        other != hash,
    ensures
        after_removal(table, Some(entries), hash, meta) matches Some(rest) && {
            &&& rest.contains_key(other) == entries.contains_key(other)
            &&& entries.contains_key(other) ==> rest[other] == entries[other]
            &&& rest.contains_key(keys::file_key(other, index)) == entries.contains_key(
                keys::file_key(other, index),
            )
            &&& entries.contains_key(keys::file_key(other, index)) ==> rest[keys::file_key(
                other,
                index,
            )] == entries[keys::file_key(other, index)]
        },
{
    assert(keys::file_key(other, index).len() == 36);
    assert forall|count: nat| !#[trigger] part_keys(hash, count).contains(other) by {
        if part_keys(hash, count).contains(other) {
            let i = choose|i: u32| i < count && other == #[trigger] keys::file_key(hash, i);
            assert(keys::file_key(hash, i).len() == 36);
        }
    }
    assert forall|count: nat|
        !#[trigger] part_keys(hash, count).contains(keys::file_key(other, index)) by {
        if part_keys(hash, count).contains(keys::file_key(other, index)) {
            let i = choose|i: u32|
                i < count && keys::file_key(other, index) == #[trigger] keys::file_key(hash, i);
            keys::law_file_keys_are_distinct(other, index, hash, i);
        }
    }
}

/// After a change has been removed, none of its sections can be read back.
pub proof fn law_removed_sections_are_gone(
    entries: Map<Seq<u8>, Seq<u8>>,
    label: Seq<char>,
    hash: Seq<u8>,
    count: u32,
    upto: u32,
)
    requires
        upto <= count,
    ensures
        sections::section_run(
            without_parts(entries, hash, count as nat),
            label,
            hash,
            upto as nat,
        ) == Ok::<Seq<(u32, Seq<u8>)>, super::error::StoreFault>(Seq::empty()),
    decreases upto,
{
    if upto > 0 {
        let index = (upto - 1) as u32;
        law_removed_sections_are_gone(entries, label, hash, count, index);
        let key = keys::file_key(hash, index);
        assert(part_keys(hash, count as nat).contains(key));
        assert(!without_parts(entries, hash, count as nat).contains_key(key));
    }
}

/// After a change has been removed, its chunk manifest is empty and none of its content can
/// be read back.
pub proof fn law_removed_chunks_are_gone(
    manifest: Map<Seq<u8>, Seq<u8>>,
    contents: Map<Seq<u8>, Seq<u8>>,
    hash: Seq<u8>,
    count: u32,
    upto: u32,
)
    requires
        upto <= count,
    ensures
        sections::manifest_run(
            without_parts(manifest, hash, count as nat),
            hash,
            upto as nat,
        ).len() == 0,
        sections::chunk_run(
            without_parts(manifest, hash, count as nat),
            contents,
            hash,
            upto as nat,
        ) == Ok::<Seq<(u32, Seq<u8>, Seq<u8>)>, super::error::StoreFault>(Seq::empty()),
    decreases upto,
{
    if upto > 0 {
        let index = (upto - 1) as u32;
        law_removed_chunks_are_gone(manifest, contents, hash, count, index);
        let key = keys::file_key(hash, index);
        assert(part_keys(hash, count as nat).contains(key));
        assert(!without_parts(manifest, hash, count as nat).contains_key(key));
    }
}

/// After a change has been removed, neither its metadata nor its unhashed data is there.
pub proof fn law_removed_records_are_gone(
    entries: Option<Map<Seq<u8>, Seq<u8>>>,
    hash: Seq<u8>,
    meta: ChangeMeta,
)
    ensures
        after_removal(CHANGE_META@, entries, hash, meta) matches Some(rest)
            && !rest.contains_key(hash),
        after_removal(CHANGE_UNHASHED@, entries, hash, meta) matches Some(rest)
            && !rest.contains_key(hash),
{
}

/// Removing a change does not touch the parts of another.
proof fn lemma_parts_of_another(
    entries: Map<Seq<u8>, Seq<u8>>,
    hash: Seq<u8>,
    count: nat,
    other: Seq<u8>,
    index: u32,
)
    requires
        hash.len() == 32,
        other.len() == 32,
        other != hash,
    ensures
        ({
            let key = keys::file_key(other, index);
            let rest = without_parts(entries, hash, count);
            &&& rest.contains_key(key) == entries.contains_key(key)
            &&& entries.contains_key(key) ==> rest[key] == entries[key]
        }),
{
    let key = keys::file_key(other, index);
    if part_keys(hash, count).contains(key) {
        let i = choose|i: u32| i < count && key == #[trigger] keys::file_key(hash, i);
        keys::law_file_keys_are_distinct(other, index, hash, i);
    }
}

/// Removing a change leaves what is read of another: its sections, its chunk manifest and
/// its content chunks are the same, whether or not the two share chunks.
pub proof fn law_removal_spares_parts_of_others(
    entries: Map<Seq<u8>, Seq<u8>>,
    contents: Map<Seq<u8>, Seq<u8>>,
    label: Seq<char>,
    hash: Seq<u8>,
    count: nat,
    other: Seq<u8>,
    upto: nat,
)
    requires
        hash.len() == 32,
        other.len() == 32,
        other != hash,
    ensures
        sections::section_run(without_parts(entries, hash, count), label, other, upto)
            == sections::section_run(entries, label, other, upto),
        sections::manifest_run(without_parts(entries, hash, count), other, upto)
            == sections::manifest_run(entries, other, upto),
        sections::chunk_run(without_parts(entries, hash, count), contents, other, upto)
            == sections::chunk_run(entries, contents, other, upto),
    decreases upto,
{
    if upto > 0 {
        let before = (upto - 1) as nat;
        law_removal_spares_parts_of_others(entries, contents, label, hash, count, other, before);
        lemma_parts_of_another(entries, hash, count, other, before as u32);
    }
}

/// What is removed once is removed: a second removal of the same change changes nothing.
pub proof fn law_second_removal_changes_nothing(
    table: Seq<char>,
    entries: Option<Map<Seq<u8>, Seq<u8>>>,
    hash: Seq<u8>,
    meta: ChangeMeta,
)
    ensures
        after_removal(table, after_removal(table, entries, hash, meta), hash, meta)
            == after_removal(table, entries, hash, meta),
{
    let once = after_removal(table, entries, hash, meta);
    let twice = after_removal(table, once, hash, meta);
    if once is Some && twice is Some {
        assert(twice->0 =~= once->0);
    }
}

/// The snapshot shows what the write transaction holds as it stands.
pub open spec fn shows_pending(
    txn: redb::ReadTransaction,
    written: redb::WriteTransaction,
) -> bool {
    forall|table: Seq<char>| #[trigger]
        database::snapshot(txn, table) == database::pending(written, table)
}

/// Of a change that has been removed no metadata is found, so that a further removal of it
/// finds nothing to remove, and no unhashed data.
pub proof fn law_removed_change_is_not_found(
    before: redb::WriteTransaction,
    after: redb::WriteTransaction,
    later: redb::ReadTransaction,
    hash: Seq<u8>,
    meta: ChangeMeta,
)
    requires
        removes(before, after, hash, meta),
        shows_pending(later, after),
    ensures
        queries::stored_record(later, CHANGE_META@, hash) == Ok::<
            Option<Seq<u8>>,
            super::error::StoreFault,
        >(None),
        queries::stored_unhashed(later, hash) == Ok::<
            Option<Seq<u8>>,
            super::error::StoreFault,
        >(None),
{
    assert(database::snapshot(later, CHANGE_META@) == database::pending(after, CHANGE_META@));
    assert(database::snapshot(later, CHANGE_UNHASHED@) == database::pending(
        after,
        CHANGE_UNHASHED@,
    ));
}

/// What can be read of a change before another is removed is read of it afterwards: its
/// content chunks, and with them its full content, its chunk manifest, its sections, its
/// metadata and its unhashed data.
pub proof fn law_other_changes_are_read_as_before(
    before: redb::WriteTransaction,
    after: redb::WriteTransaction,
    earlier: redb::ReadTransaction,
    later: redb::ReadTransaction,
    hash: Seq<u8>,
    meta: ChangeMeta,
    other: Seq<u8>,
    kind: SectionType,
    count: u32,
)
    requires
        removes(before, after, hash, meta),
        shows_pending(earlier, before),
        shows_pending(later, after),
        hash.len() == 32,
        other.len() == 32,
        other != hash,
    ensures
        sections::stored_chunks(earlier, other, count) is Ok ==> sections::stored_chunks(
            later,
            other,
            count,
        ) == sections::stored_chunks(earlier, other, count),
        sections::stored_manifest(earlier, other, count) is Ok ==> sections::stored_manifest(
            later,
            other,
            count,
        ) == sections::stored_manifest(earlier, other, count),
        sections::stored_sections(earlier, kind, other, count) is Ok ==> sections::stored_sections(
            later,
            kind,
            other,
            count,
        ) == sections::stored_sections(earlier, kind, other, count),
        queries::stored_record(earlier, CHANGE_META@, other) is Ok ==> queries::stored_record(
            later,
            CHANGE_META@,
            other,
        ) == queries::stored_record(earlier, CHANGE_META@, other),
        queries::stored_unhashed(later, other) == queries::stored_unhashed(earlier, other),
{
    lemma_tables_are_distinct();
    assert forall|table: Seq<char>| true implies {
        &&& #[trigger] database::snapshot(earlier, table) == database::pending(before, table)
        &&& database::snapshot(later, table) == after_removal(
            table,
            database::snapshot(earlier, table),
            hash,
            meta,
        )
    } by {
        assert(database::snapshot(later, table) == database::pending(after, table));
    }
    if let Some(entries) = database::snapshot(earlier, CHANGE_CHUNKS@) {
        if let Some(contents) = database::snapshot(earlier, CONTENT_CHUNKS@) {
            law_removal_spares_parts_of_others(
                entries,
                contents,
                kind.label(),
                hash,
                meta.content_chunk_count as nat,
                other,
                count as nat,
            );
        }
        law_removal_spares_parts_of_others(
            entries,
            Map::empty(),
            kind.label(),
            hash,
            meta.content_chunk_count as nat,
            other,
            count as nat,
        );
    }
    if let Some(entries) = database::snapshot(earlier, kind.table()) {
        let removed = match kind {
            SectionType::Graph => meta.graph_section_count,
            SectionType::Semantic => meta.semantic_section_count,
        };
        law_removal_spares_parts_of_others(
            entries,
            Map::empty(),
            kind.label(),
            hash,
            removed as nat,
            other,
            count as nat,
        );
    }
}

} // verus!
