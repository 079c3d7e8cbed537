//! Export of a change: what a complete V3 change file is made of, in order.

use vstd::prelude::*;

use super::database::begin_read;
use super::error::{RedbStoreError, RedbStoreResult, StoreFault};
use super::queries;
use super::queries::{read_unhashed_bytes, ChangeMeta, RedbChangeStore};
use super::sections;
use super::sections::{
    read_chunks, read_sections, SectionType, StoredContentChunk, StoredSection,
};

verus! {

/// How many entries the hash table of a change's file has, where `rebuilt` is what came of
/// building one from the hashes: none without hashes; or why there is no such table.
pub open spec fn table_size(hashes: Seq<[u8; 32]>, rebuilt: Result<usize, String>) -> Result<
    usize,
    StoreFault,
> {
    if hashes.len() == 0 {
        Ok(0)
    } else {
        match rebuilt {
            Ok(entries) => Ok(entries),
            Err(reason) => Err(
                StoreFault::Corrupt("hash table reconstruction failed: "@ + reason@),
            ),
        }
    }
}

/// The number of entries of the hash table built from these hashes. `rebuilt` is what came
/// of building it; it does not matter where there are no hashes.
pub fn judge_hash_table(hashes: &Vec<[u8; 32]>, rebuilt: Result<usize, String>) -> (entries:
    RedbStoreResult<usize>)
    ensures
        match table_size(hashes@, rebuilt) {
            Ok(n) => entries == Ok::<usize, RedbStoreError>(n),
            Err(fault) => entries matches Err(error) && error.fault() == Some(fault),
        },
{
    if hashes.len() == 0 {
        return Ok(0);
    }
    match rebuilt {
        Ok(entries) => Ok(entries),
        Err(reason) => {
            let mut message = "hash table reconstruction failed: ".to_string();
            message.append(reason.as_str());
            Err(RedbStoreError::Corrupt(message))
        },
    }
}

/// The header of a V3 change file.
#[derive(Clone, Copy, Debug, PartialEq, Eq, Structural)]
pub struct FileHeader {
    /// Number of entries of the hash table.
    pub hash_table_entries: u32,
    /// Number of graph sections.
    pub graph_section_count: u32,
    /// Number of semantic sections.
    pub semantic_section_count: u32,
    /// Number of content chunks.
    pub contents_chunks: u32,
    /// The file carries provenance.
    pub provenance: bool,
    /// The file carries unhashed data.
    pub unhashed: bool,
}

/// A part of a V3 change file.
pub enum V3Record {
    /// The file header.
    FileHeader(FileHeader),
    /// The table of the hashes that the change refers to.
    HashTable(Vec<[u8; 32]>),
    /// The change's own header, encoded.
    ChangeHeader(Vec<u8>),
    /// The dependencies, as indices in the hash table.
    Dependencies(Vec<u32>),
    /// A graph section.
    GraphSection(Vec<u8>),
    /// A semantic section.
    SemanticSection(Vec<u8>),
    /// A content chunk.
    ContentChunk {
        /// Its place in the change.
        index: u32,
        /// Its bytes.
        data: Vec<u8>,
    },
    /// The unhashed data.
    Unhashed(Vec<u8>),
    /// The end of the file.
    End,
}

/// A part of a V3 change file, by its contents.
pub enum V3Part {
    /// The file header.
    FileHeader(FileHeader),
    /// The table of the hashes that the change refers to.
    HashTable(Seq<[u8; 32]>),
    /// The change's own header, encoded.
    ChangeHeader(Seq<u8>),
    /// The dependencies, as indices in the hash table.
    Dependencies(Seq<u32>),
    /// A graph section.
    GraphSection(Seq<u8>),
    /// A semantic section.
    SemanticSection(Seq<u8>),
    /// A content chunk.
    ContentChunk(u32, Seq<u8>),
    /// The unhashed data.
    Unhashed(Seq<u8>),
    /// The end of the file.
    End,
}

impl View for V3Record {
    type V = V3Part;

    open spec fn view(&self) -> V3Part {
        match *self {
            V3Record::FileHeader(header) => V3Part::FileHeader(header),
            V3Record::HashTable(hashes) => V3Part::HashTable(hashes@),
            V3Record::ChangeHeader(header) => V3Part::ChangeHeader(header@),
            V3Record::Dependencies(indices) => V3Part::Dependencies(indices@),
            V3Record::GraphSection(payload) => V3Part::GraphSection(payload@),
            V3Record::SemanticSection(payload) => V3Part::SemanticSection(payload@),
            V3Record::ContentChunk { index, data } => V3Part::ContentChunk(index, data@),
            V3Record::Unhashed(data) => V3Part::Unhashed(data@),
            V3Record::End => V3Part::End,
        }
    }
}

/// The contents of records.
pub open spec fn parts(records: Seq<V3Record>) -> Seq<V3Part> {
    records.map_values(|r: V3Record| r@)
}

/// The file header of a change with the given metadata.
pub open spec fn file_header(meta: ChangeMeta, hash_table_entries: usize) -> FileHeader {
    FileHeader {
        hash_table_entries: hash_table_entries as u32,
        graph_section_count: meta.graph_section_count,
        semantic_section_count: meta.semantic_section_count,
        contents_chunks: meta.content_chunk_count,
        provenance: meta.has_provenance,
        unhashed: meta.has_unhashed,
    }
}

/// What precedes the sections.
pub open spec fn preamble(meta: ChangeMeta, hash_table_entries: usize) -> Seq<V3Part> {
    seq![
        V3Part::FileHeader(file_header(meta, hash_table_entries)),
        V3Part::HashTable(meta.hash_table@),
        V3Part::ChangeHeader(meta.header@),
        V3Part::Dependencies(meta.dependency_indices@),
    ]
}

/// A section as a part of the file.
pub open spec fn section_part(kind: SectionType, payload: Seq<u8>) -> V3Part {
    match kind {
        SectionType::Graph => V3Part::GraphSection(payload),
        SectionType::Semantic => V3Part::SemanticSection(payload),
    }
}

/// Sections as parts of the file.
pub open spec fn section_records(kind: SectionType, found: Seq<(u32, Seq<u8>)>) -> Seq<V3Part> {
    found.map_values(|s: (u32, Seq<u8>)| section_part(kind, s.1))
}

/// Chunks as parts of the file.
pub open spec fn chunk_records(found: Seq<(u32, Seq<u8>, Seq<u8>)>) -> Seq<V3Part> {
    found.map_values(|c: (u32, Seq<u8>, Seq<u8>)| V3Part::ContentChunk(c.0, c.2))
}

/// The unhashed part of the file: none where the change carries no unhashed data or the
/// store has none for it.
pub open spec fn unhashed_records(
    txn: redb::ReadTransaction,
    hash: Seq<u8>,
    meta: ChangeMeta,
) -> Result<Seq<V3Part>, StoreFault> {
    if !meta.has_unhashed {
        Ok(Seq::empty())
    } else {
        match queries::stored_unhashed(txn, hash) {
            Err(fault) => Err(fault),
            Ok(None) => Ok(Seq::empty()),
            Ok(Some(data)) => Ok(seq![V3Part::Unhashed(data)]),
        }
    }
}

/// The parts of the V3 file of a change in a snapshot: the preamble, the graph sections,
/// the semantic sections, the content chunks, the unhashed data and the end.
pub open spec fn v3_parts(
    txn: redb::ReadTransaction,
    hash: Seq<u8>,
    meta: ChangeMeta,
    hash_table_entries: usize,
) -> Result<Seq<V3Part>, StoreFault> {
    match sections::stored_sections(txn, SectionType::Graph, hash, meta.graph_section_count) {
        Err(fault) => Err(fault),
        Ok(graph) => match sections::stored_sections(
            txn,
            SectionType::Semantic,
            hash,
            meta.semantic_section_count,
        ) {
            Err(fault) => Err(fault),
            Ok(semantic) => match sections::stored_chunks(txn, hash, meta.content_chunk_count) {
                Err(fault) => Err(fault),
                Ok(chunks) => match unhashed_records(txn, hash, meta) {
                    Err(fault) => Err(fault),
                    Ok(unhashed) => Ok(
                        preamble(meta, hash_table_entries) + section_records(
                            SectionType::Graph,
                            graph,
                        ) + section_records(SectionType::Semantic, semantic) + chunk_records(
                            chunks,
                        ) + unhashed + seq![V3Part::End],
                    ),
                },
            },
        },
    }
}

fn copy_hashes(hashes: &Vec<[u8; 32]>) -> (copy: Vec<[u8; 32]>)
    ensures
        copy@ == hashes@,
{
    let mut copy: Vec<[u8; 32]> = Vec::new();
    let mut i: usize = 0;
    while i < hashes.len()
        invariant
            i <= hashes@.len(),
            copy@ == hashes@.take(i as int),
        decreases hashes@.len() - i,
    {
        copy.push(hashes[i]);
        assert(hashes@.take(i + 1) =~= hashes@.take(i as int).push(hashes@[i as int]));
        i = i + 1;
    }
    assert(hashes@.take(i as int) =~= hashes@);
    copy
}

fn copy_indices(indices: &Vec<u32>) -> (copy: Vec<u32>)
    ensures
        copy@ == indices@,
{
    let mut copy: Vec<u32> = Vec::new();
    let mut i: usize = 0;
    while i < indices.len()
        invariant
            i <= indices@.len(),
            copy@ == indices@.take(i as int),
        decreases indices@.len() - i,
    {
        copy.push(indices[i]);
        assert(indices@.take(i + 1) =~= indices@.take(i as int).push(indices@[i as int]));
        i = i + 1;
    }
    assert(indices@.take(i as int) =~= indices@);
    copy
}

fn copy_bytes(bytes: &Vec<u8>) -> (copy: Vec<u8>)
    ensures
        copy@ == bytes@,
{
    let mut copy: Vec<u8> = Vec::new();
    copy.extend_from_slice(bytes.as_slice());
    assert(copy@ =~= bytes@);
    copy
}

fn start_records(meta: &ChangeMeta, hash_table_entries: usize) -> (records: Vec<V3Record>)
    ensures
        parts(records@) == preamble(*meta, hash_table_entries),
{
    let mut records: Vec<V3Record> = Vec::new();
    records.push(
        V3Record::FileHeader(
            FileHeader {
                hash_table_entries: hash_table_entries as u32,
                graph_section_count: meta.graph_section_count,
                semantic_section_count: meta.semantic_section_count,
                contents_chunks: meta.content_chunk_count,
                provenance: meta.has_provenance,
                unhashed: meta.has_unhashed,
            },
        ),
    );
    records.push(V3Record::HashTable(copy_hashes(&meta.hash_table)));
    records.push(V3Record::ChangeHeader(copy_bytes(&meta.header)));
    records.push(V3Record::Dependencies(copy_indices(&meta.dependency_indices)));
    assert(parts(records@) =~= preamble(*meta, hash_table_entries));
    records
}

fn push_sections(records: &mut Vec<V3Record>, kind: SectionType, found: Vec<StoredSection>)
    ensures
        parts(final(records)@) == parts(old(records)@) + section_records(
            kind,
            sections::section_parts(found@),
        ),
{
    let ghost before = parts(records@);
    let ghost all = section_records(kind, sections::section_parts(found@));
    assert(before + all.take(0) =~= before);
    for section in iter: found
        invariant
            iter.seq() == found@,
            all == section_records(kind, sections::section_parts(found@)),
            parts(records@) == before + all.take(iter.index()),
    {
        let ghost done = records@;
        let ghost k = iter.index();
        let record = match kind {
            SectionType::Graph => V3Record::GraphSection(section.payload),
            SectionType::Semantic => V3Record::SemanticSection(section.payload),
        };
        records.push(record);
        assert(record@ == all[k]);
        assert(parts(records@) =~= parts(done).push(record@));
        assert(all.take(k + 1) =~= all.take(k).push(all[k]));
        assert(parts(records@) =~= before + all.take(k + 1));
    }
    assert(all.take(all.len() as int) =~= all);
}

fn push_chunks(records: &mut Vec<V3Record>, found: Vec<StoredContentChunk>)
    ensures
        parts(final(records)@) == parts(old(records)@) + chunk_records(
            sections::chunk_parts(found@),
        ),
{
    let ghost before = parts(records@);
    let ghost all = chunk_records(sections::chunk_parts(found@));
    assert(before + all.take(0) =~= before);
    for chunk in iter: found
        invariant
            iter.seq() == found@,
            all == chunk_records(sections::chunk_parts(found@)),
            parts(records@) == before + all.take(iter.index()),
    {
        let ghost done = records@;
        let ghost k = iter.index();
        let record = V3Record::ContentChunk { index: chunk.index, data: chunk.data };
        records.push(record);
        assert(record@ == all[k]);
        assert(parts(records@) =~= parts(done).push(record@));
        assert(all.take(k + 1) =~= all.take(k).push(all[k]));
        assert(parts(records@) =~= before + all.take(k + 1));
    }
    assert(all.take(all.len() as int) =~= all);
}

/// The unhashed data to export, decompressed, if there is any.
pub fn read_export_unhashed(
    txn: &redb::ReadTransaction,
    hash: &[u8; 32],
    meta: &ChangeMeta,
) -> (found: RedbStoreResult<Option<Vec<u8>>>)
    ensures
        match found {
            Ok(Some(data)) => unhashed_records(*txn, hash@, *meta) == Ok::<
                Seq<V3Part>,
                StoreFault,
            >(seq![V3Part::Unhashed(data@)]),
            Ok(None) => unhashed_records(*txn, hash@, *meta) == Ok::<Seq<V3Part>, StoreFault>(
                Seq::empty(),
            ),
            Err(error) => sections::error_answers(error, unhashed_records(*txn, hash@, *meta)),
        },
{
    if !meta.has_unhashed {
        return Ok(None);
    }
    read_unhashed_bytes(txn, hash)
}

/// The parts of the V3 file of the change `hash` in a snapshot. `hash_table_entries` is
/// the size of the hash table built from the metadata.
pub fn read_v3_records(
    txn: &redb::ReadTransaction,
    hash: &[u8; 32],
    meta: &ChangeMeta,
    hash_table_entries: usize,
) -> (exported: RedbStoreResult<Vec<V3Record>>)
    ensures
        match exported {
            Ok(records) => v3_parts(*txn, hash@, *meta, hash_table_entries) == Ok::<
                Seq<V3Part>,
                StoreFault,
            >(parts(records@)),
            Err(error) => sections::error_answers(
                error,
                v3_parts(*txn, hash@, *meta, hash_table_entries),
            ),
        },
{
    let mut records = start_records(meta, hash_table_entries);
    match read_sections(txn, SectionType::Graph, hash, meta.graph_section_count) {
        Err(e) => return Err(e),
        Ok(found) => push_sections(&mut records, SectionType::Graph, found),
    }
    match read_sections(txn, SectionType::Semantic, hash, meta.semantic_section_count) {
        Err(e) => return Err(e),
        Ok(found) => push_sections(&mut records, SectionType::Semantic, found),
    }
    match read_chunks(txn, hash, meta.content_chunk_count) {
        Err(e) => return Err(e),
        Ok(found) => push_chunks(&mut records, found),
    }
    let ghost content = records@;
    match read_export_unhashed(txn, hash, meta) {
        Err(e) => return Err(e),
        Ok(None) => {
            assert(parts(content) =~= parts(content) + Seq::<V3Part>::empty());
        },
        Ok(Some(data)) => {
            records.push(V3Record::Unhashed(data));
            assert(parts(records@) =~= parts(content) + seq![V3Part::Unhashed(data@)]);
        },
    }
    let ghost body = records@;
    records.push(V3Record::End);
    assert(parts(records@) =~= parts(body) + seq![V3Part::End]);
    Ok(records)
}

/// The parts of the V3 file of a change, as the snapshot calls for them.
pub open spec fn answers_export(
    txn: redb::ReadTransaction,
    hash: Seq<u8>,
    meta: ChangeMeta,
    hash_table_entries: usize,
    exported: RedbStoreResult<Vec<V3Record>>,
) -> bool {
    match exported {
        Ok(records) => v3_parts(txn, hash, meta, hash_table_entries) == Ok::<
            Seq<V3Part>,
            StoreFault,
        >(parts(records@)),
        Err(error) => sections::error_answers(
            error,
            v3_parts(txn, hash, meta, hash_table_entries),
        ),
    }
}

impl RedbChangeStore {
    /// Export a change: the parts of its V3 file, in order. `meta` is the change's metadata,
    /// or the reason why there is none, and `rebuilt` the number of entries of the hash table
    /// built from the hashes in it, or why none could be built.
    pub fn export_v3_records(
        &self,
        hash: &[u8; 32],
        meta: RedbStoreResult<ChangeMeta>,
        rebuilt: Result<usize, String>,
    ) -> (exported: RedbStoreResult<Vec<V3Record>>)
        ensures
            match meta {
                Err(error) => exported == Err::<Vec<V3Record>, RedbStoreError>(error),
                Ok(m) => match table_size(m.hash_table@, rebuilt) {
                    Err(fault) => exported matches Err(error) && error.fault() == Some(fault),
                    Ok(entries) => queries::unbegun(exported) || exists|
                        txn: redb::ReadTransaction,
                    |
                        self.shows(txn) && #[trigger] answers_export(
                            txn,
                            hash@,
                            m,
                            entries,
                            exported,
                        ),
                },
            },
    {
        let meta = match meta {
            Ok(meta) => meta,
            Err(e) => return Err(e),
        };
        let entries: usize = match judge_hash_table(&meta.hash_table, rebuilt) {
            Ok(entries) => entries,
            Err(e) => return Err(e),
        };
        match begin_read(self.db()) {
            Err(e) => Err(RedbStoreError::Transaction(e)),
            Ok(txn) => {
                let exported = read_v3_records(&txn, hash, &meta, entries);
                assert(answers_export(txn, hash@, meta, entries, exported));
                exported
            },
        }
    }
}

/// An exported file begins with the file header, the hash table, the change's own header and
/// the dependencies that the metadata gives. Then it holds, up to its end, the payload of
/// every graph section that a read of the graph layer gives, then of every semantic section
/// that a read of that layer gives, then every content chunk, each in the order of the reads.
pub proof fn law_export_carries_what_reads_give(
    txn: redb::ReadTransaction,
    hash: Seq<u8>,
    meta: ChangeMeta,
    hash_table_entries: usize,
)
    requires
        v3_parts(txn, hash, meta, hash_table_entries) is Ok,
    ensures
        ({
            let file = v3_parts(txn, hash, meta, hash_table_entries)->Ok_0;
            let graph = sections::stored_sections(
                txn,
                SectionType::Graph,
                hash,
                meta.graph_section_count,
            );
            let semantic = sections::stored_sections(
                txn,
                SectionType::Semantic,
                hash,
                meta.semantic_section_count,
            );
            let chunks = sections::stored_chunks(txn, hash, meta.content_chunk_count);
            &&& graph is Ok && semantic is Ok && chunks is Ok
            &&& file[0] == V3Part::FileHeader(file_header(meta, hash_table_entries))
            &&& file[1] == V3Part::HashTable(meta.hash_table@)
            &&& file[2] == V3Part::ChangeHeader(meta.header@)
            &&& file[3] == V3Part::Dependencies(meta.dependency_indices@)
            &&& forall|i: int|
                0 <= i < graph->Ok_0.len() ==> file[4 + i] == V3Part::GraphSection(
                    (#[trigger] graph->Ok_0[i]).1,
                )
            &&& forall|i: int|
                0 <= i < semantic->Ok_0.len() ==> file[4 + graph->Ok_0.len() + i]
                    == V3Part::SemanticSection((#[trigger] semantic->Ok_0[i]).1)
            &&& forall|i: int|
                0 <= i < chunks->Ok_0.len() ==> file[4 + graph->Ok_0.len() + semantic->Ok_0.len()
                    + i] == V3Part::ContentChunk(
                    (#[trigger] chunks->Ok_0[i]).0,
                    chunks->Ok_0[i].2,
                )
            &&& file.last() == V3Part::End
            &&& file.len() - (4 + graph->Ok_0.len() + semantic->Ok_0.len() + chunks->Ok_0.len())
                == if unhashed_records(txn, hash, meta)->Ok_0.len() == 0 {
                1int
            } else {
                2int
            }
        }),
{
}

} // verus!
