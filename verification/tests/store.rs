use atomic_sync::store::keys::{
    encode_change_file_key, CHANGE_CHUNKS, CHANGE_GRAPH, CHANGE_META, CHANGE_SEMANTIC,
    CHANGE_UNHASHED, CONTENT_CHUNKS,
};
use atomic_sync::store::queries::{json_from, unhashed_from};
use atomic_sync::store::export::judge_hash_table;
use atomic_sync::store::sections::{chunk_from, section_from, with_paths};
use atomic_sync::store::{
    ChangeMeta, FileHeader, RedbChangeStore, RedbStoreError, SectionType, StoreStats, V3Record,
};

type Parts = redb::TableDefinition<'static, &'static [u8; 36], &'static [u8]>;
type Manifest = redb::TableDefinition<'static, &'static [u8; 36], &'static [u8; 32]>;
type Records = redb::TableDefinition<'static, &'static [u8; 32], &'static [u8]>;

fn database() -> redb::Database {
    redb::Builder::new()
        .create_with_backend(redb::backends::InMemoryBackend::new())
        .unwrap()
}

fn pack(bytes: &[u8]) -> Vec<u8> {
    zstd::encode_all(bytes, 3).unwrap()
}

fn meta() -> ChangeMeta {
    ChangeMeta {
        header: b"header of A".to_vec(),
        graph_section_count: 3,
        semantic_section_count: 1,
        content_chunk_count: 3,
        hash_table: vec![[7u8; 32]],
        dependency_indices: vec![0],
        has_provenance: false,
        has_unhashed: true,
    }
}

const A: [u8; 32] = [1u8; 32];
const B: [u8; 32] = [2u8; 32];

/// Changes A and B; of A the second graph section and the data of the second chunk are
/// missing, and one chunk belongs to both.
fn filled() -> RedbChangeStore {
    let db = database();
    let txn = db.begin_write().unwrap();
    {
        let mut graph = txn.open_table(Parts::new(CHANGE_GRAPH)).unwrap();
        let mut semantic = txn.open_table(Parts::new(CHANGE_SEMANTIC)).unwrap();
        let mut manifest = txn.open_table(Manifest::new(CHANGE_CHUNKS)).unwrap();
        let mut chunks = txn.open_table(Records::new(CONTENT_CHUNKS)).unwrap();
        let mut metas = txn.open_table(Records::new(CHANGE_META)).unwrap();
        let mut unhashed = txn.open_table(Records::new(CHANGE_UNHASHED)).unwrap();
        let key = |index: u32| encode_change_file_key(&A, index);
        graph.insert(&key(0), pack(b"g0").as_slice()).unwrap();
        graph.insert(&key(2), pack(b"g2").as_slice()).unwrap();
        semantic.insert(&key(0), pack(b"s0").as_slice()).unwrap();
        manifest.insert(&key(0), &[10u8; 32]).unwrap();
        manifest.insert(&key(1), &[11u8; 32]).unwrap();
        manifest.insert(&key(2), &[12u8; 32]).unwrap();
        chunks.insert(&[10u8; 32], pack(b"hello ").as_slice()).unwrap();
        chunks.insert(&[12u8; 32], pack(b"world").as_slice()).unwrap();
        metas.insert(&A, b"meta of A".as_slice()).unwrap();
        metas.insert(&B, b"meta of B".as_slice()).unwrap();
        unhashed.insert(&A, pack(b"{\"n\": 1}").as_slice()).unwrap();
        let other = encode_change_file_key(&B, 0);
        graph.insert(&other, pack(b"other").as_slice()).unwrap();
        manifest.insert(&other, &[10u8; 32]).unwrap();
    }
    txn.commit().unwrap();
    RedbChangeStore::new(db)
}

#[test]
fn file_keys_are_the_hash_and_the_index() {
    let key = encode_change_file_key(&A, 0x0102_0304);
    assert_eq!(&key[..32], &A[..]);
    assert_eq!(&key[32..], &[1u8, 2, 3, 4][..]);
}

#[test]
fn sections_come_in_order_and_decompressed() {
    let store = filled();
    let sections = store.load_graph_sections(&A, Ok(meta())).ok().unwrap();
    assert_eq!(sections.len(), 2);
    assert_eq!(sections[0].payload, b"g0".to_vec());
    assert_eq!(sections[0].file_index, 0);
    assert_eq!(sections[0].section_type, SectionType::Graph);
    assert_eq!(sections[1].payload, b"g2".to_vec());
    assert_eq!(sections[1].file_index, 2);

    let semantic = store.load_semantic_sections(&A, Ok(meta())).ok().unwrap();
    assert_eq!(semantic.len(), 1);
    assert_eq!(semantic[0].payload, b"s0".to_vec());
    assert_eq!(semantic[0].section_type, SectionType::Semantic);
    assert_eq!(semantic[0].path, "");
}

#[test]
fn content_is_joined_from_its_chunks() {
    let store = filled();
    let chunks = store.load_content_chunks(&A, Ok(meta())).ok().unwrap();
    assert_eq!(chunks.len(), 2);
    assert_eq!(chunks[1].index, 2);
    assert_eq!(chunks[1].hash, [12u8; 32]);
    assert_eq!(chunks[1].data, b"world".to_vec());
    let content = store.load_full_content(&A, Ok(meta())).ok().unwrap();
    assert_eq!(content, b"hello world".to_vec());
    let manifest = store.get_chunk_manifest(&A, Ok(meta())).ok().unwrap();
    assert_eq!(
        manifest,
        vec![(0, [10u8; 32]), (1, [11u8; 32]), (2, [12u8; 32])]
    );
    assert_eq!(store.has_content_chunk(&[10u8; 32]).ok(), Some(true));
    assert_eq!(store.has_content_chunk(&[11u8; 32]).ok(), Some(false));
}

#[test]
fn unhashed_data_is_json() {
    let store = filled();
    let value = store.load_unhashed(&A).ok().unwrap().unwrap();
    assert_eq!(value["n"].as_u64(), Some(1));
    assert!(store.load_unhashed(&B).ok().unwrap().is_none());
}

#[test]
fn without_unhashed_data_there_is_none_to_load() {
    let store = RedbChangeStore::new(database());
    assert!(store.load_unhashed(&A).ok().unwrap().is_none());
}

#[test]
fn tables_that_are_missing_are_reported() {
    let store = RedbChangeStore::new(database());
    match store.load_graph_sections(&A, Ok(meta())) {
        Err(RedbStoreError::MissingTable(name)) => assert_eq!(name, CHANGE_GRAPH),
        _ => panic!("no error"),
    }
    match store.load_content_chunks(&A, Ok(meta())) {
        Err(RedbStoreError::MissingTable(name)) => assert_eq!(name, CHANGE_CHUNKS),
        _ => panic!("no error"),
    }
    match store.has_content_chunk(&A) {
        Err(RedbStoreError::MissingTable(name)) => assert_eq!(name, CONTENT_CHUNKS),
        _ => panic!("no error"),
    }
}

#[test]
fn corrupt_entries_are_reported() {
    let db = database();
    let txn = db.begin_write().unwrap();
    {
        let mut graph = txn.open_table(Parts::new(CHANGE_GRAPH)).unwrap();
        graph
            .insert(&encode_change_file_key(&A, 1), b"not zstd".as_slice())
            .unwrap();
        let mut unhashed = txn.open_table(Records::new(CHANGE_UNHASHED)).unwrap();
        unhashed.insert(&A, pack(b"not json").as_slice()).unwrap();
        unhashed.insert(&B, b"not zstd".as_slice()).unwrap();
    }
    txn.commit().unwrap();
    let store = RedbChangeStore::new(db);
    match store.load_graph_sections(&A, Ok(meta())) {
        Err(RedbStoreError::Corrupt(text)) => {
            assert!(text.starts_with("graph section 1 decompression failed: "));
        }
        _ => panic!("no error"),
    }
    match store.load_unhashed(&A) {
        Err(RedbStoreError::Json(_)) => {}
        _ => panic!("no error"),
    }
    match store.load_unhashed(&B) {
        Err(RedbStoreError::Corrupt(text)) => {
            assert!(text.starts_with("unhashed decompression failed: "));
        }
        _ => panic!("no error"),
    }
}

#[test]
fn parts_are_made_of_what_was_decompressed() {
    let section = section_from(SectionType::Semantic, 4, Ok(vec![1, 2])).ok().unwrap();
    assert_eq!(section.payload, vec![1, 2]);
    assert_eq!(section.file_index, 4);
    assert_eq!(section.section_type, SectionType::Semantic);
    match section_from(SectionType::Semantic, 4, Err("why".to_string())) {
        Err(RedbStoreError::Corrupt(text)) => {
            assert_eq!(text, "semantic section 4 decompression failed: why");
        }
        _ => panic!("no error"),
    }
    let chunk = chunk_from(7, [3u8; 32], Ok(vec![9])).ok().unwrap();
    assert_eq!(chunk.index, 7);
    assert_eq!(chunk.hash, [3u8; 32]);
    assert_eq!(chunk.data, vec![9]);
    match chunk_from(7, [3u8; 32], Err("why".to_string())) {
        Err(RedbStoreError::Corrupt(text)) => {
            assert_eq!(text, "content chunk 7 decompression failed: why");
        }
        _ => panic!("no error"),
    }
    assert_eq!(unhashed_from(Ok(vec![5])).ok(), Some(vec![5]));
    match unhashed_from(Err("why".to_string())) {
        Err(RedbStoreError::Corrupt(text)) => {
            assert_eq!(text, "unhashed decompression failed: why");
        }
        _ => panic!("no error"),
    }
    let parsed = serde_json::from_slice(b"[1]");
    assert!(json_from(parsed).ok().unwrap().unwrap().is_array());
    assert!(matches!(
        json_from(serde_json::from_slice(b"[")),
        Err(RedbStoreError::Json(_))
    ));
}

#[test]
fn tables_of_another_type_are_reported() {
    let db = database();
    let txn = db.begin_write().unwrap();
    {
        let mut table = txn.open_table(Records::new(CHANGE_GRAPH)).unwrap();
        table.insert(&A, b"x".as_slice()).unwrap();
    }
    txn.commit().unwrap();
    let store = RedbChangeStore::new(db);
    assert!(matches!(
        store.load_graph_sections(&A, Ok(meta())),
        Err(RedbStoreError::Table(_))
    ));
    assert!(matches!(
        store.delete_change(&A, Ok(meta())),
        Err(RedbStoreError::Table(_))
    ));
    assert_eq!(store.stats().ok().unwrap().graph_section_count, 1);
}

#[test]
fn metadata_is_found_or_not() {
    let store = filled();
    assert_eq!(store.load_meta_bytes(&A).ok(), Some(b"meta of A".to_vec()));
    match store.load_meta_bytes(&[9u8; 32]) {
        Err(RedbStoreError::NotFound { hash }) => assert_eq!(hash, [9u8; 32]),
        _ => panic!("no error"),
    }
}

#[test]
fn statistics_count_the_entries() {
    let store = filled();
    let stats = store.stats().ok().unwrap();
    assert_eq!(
        stats,
        StoreStats {
            change_count: 2,
            graph_section_count: 3,
            semantic_section_count: 1,
            content_chunk_count: 2,
            change_chunk_mappings: 4,
            unhashed_count: 1,
        }
    );
    assert_eq!(
        stats.to_text(),
        "2 changes, 3 graph sections, 1 semantic sections, 2 unique chunks (4 mappings), 1 unhashed"
    );
    let nothing = RedbChangeStore::new(database()).stats().ok().unwrap();
    assert_eq!(nothing, StoreStats::default());
    assert_eq!(nothing, StoreStats::empty());
}

#[test]
fn deletion_spares_content_and_other_changes() {
    let store = filled();
    assert_eq!(store.delete_change(&A, Ok(meta())).ok(), Some(true));
    let stats = store.stats().ok().unwrap();
    assert_eq!(stats.change_count, 1);
    assert_eq!(stats.graph_section_count, 1);
    assert_eq!(stats.semantic_section_count, 0);
    assert_eq!(stats.content_chunk_count, 2);
    assert_eq!(stats.change_chunk_mappings, 1);
    assert_eq!(stats.unhashed_count, 0);
    assert!(store.load_graph_sections(&A, Ok(meta())).ok().unwrap().is_empty());
    assert!(store.load_semantic_sections(&A, Ok(meta())).ok().unwrap().is_empty());
    assert!(store.get_chunk_manifest(&A, Ok(meta())).ok().unwrap().is_empty());
    assert!(store.load_full_content(&A, Ok(meta())).ok().unwrap().is_empty());
    assert!(store.load_unhashed(&A).ok().unwrap().is_none());
    assert!(matches!(
        store.load_meta_bytes(&A),
        Err(RedbStoreError::NotFound { .. })
    ));
    assert_eq!(store.has_content_chunk(&[10u8; 32]).ok(), Some(true));
    let other = store.load_graph_sections(&B, Ok(meta())).ok().unwrap();
    assert_eq!(other[0].payload, b"other".to_vec());
    assert_eq!(store.load_meta_bytes(&B).ok(), Some(b"meta of B".to_vec()));
}

#[test]
fn deletion_leaves_what_other_changes_load() {
    let store = filled();
    let content = store.load_full_content(&B, Ok(meta())).ok().unwrap();
    assert_eq!(content, b"hello ".to_vec());
    let manifest = store.get_chunk_manifest(&B, Ok(meta())).ok().unwrap();
    assert_eq!(manifest, vec![(0, [10u8; 32])]);
    assert_eq!(store.delete_change(&A, Ok(meta())).ok(), Some(true));
    assert_eq!(store.load_full_content(&B, Ok(meta())).ok(), Some(content));
    assert_eq!(store.get_chunk_manifest(&B, Ok(meta())).ok(), Some(manifest));
    assert!(store.load_unhashed(&B).ok().unwrap().is_none());
}

#[test]
fn second_deletion_changes_nothing() {
    let store = filled();
    assert_eq!(store.delete_change(&A, Ok(meta())).ok(), Some(true));
    let stats = store.stats().ok().unwrap();
    let gone = store.load_meta_bytes(&A).map(|_| meta());
    assert_eq!(store.delete_change(&A, gone).ok(), Some(false));
    assert_eq!(store.stats().ok().unwrap(), stats);
    assert_eq!(store.delete_change(&A, Ok(meta())).ok(), Some(true));
    assert_eq!(store.stats().ok().unwrap(), stats);
}

#[test]
fn deletion_of_what_is_not_there() {
    let store = filled();
    let absent = store.delete_change(&A, Err(RedbStoreError::NotFound { hash: A }));
    assert_eq!(absent.ok(), Some(false));
    match store.delete_change(&A, Err(RedbStoreError::Corrupt("x".to_string()))) {
        Err(RedbStoreError::Corrupt(text)) => assert_eq!(text, "x"),
        _ => panic!("no error"),
    }
    assert_eq!(store.stats().ok().unwrap().change_count, 2);
}

fn kind(record: &V3Record) -> &'static str {
    match record {
        V3Record::FileHeader(_) => "header",
        V3Record::HashTable(_) => "hashes",
        V3Record::ChangeHeader(_) => "change",
        V3Record::Dependencies(_) => "deps",
        V3Record::GraphSection(_) => "graph",
        V3Record::SemanticSection(_) => "semantic",
        V3Record::ContentChunk { .. } => "chunk",
        V3Record::Unhashed(_) => "unhashed",
        V3Record::End => "end",
    }
}

#[test]
fn export_has_all_parts_in_order() {
    let store = filled();
    let records = store.export_v3_records(&A, Ok(meta()), Ok(1)).ok().unwrap();
    let kinds: Vec<&str> = records.iter().map(kind).collect();
    assert_eq!(
        kinds,
        vec![
            "header", "hashes", "change", "deps", "graph", "graph", "semantic", "chunk", "chunk",
            "unhashed", "end"
        ]
    );
    match &records[0] {
        V3Record::FileHeader(header) => assert_eq!(
            *header,
            FileHeader {
                hash_table_entries: 1,
                graph_section_count: 3,
                semantic_section_count: 1,
                contents_chunks: 3,
                provenance: false,
                unhashed: true,
            }
        ),
        _ => panic!("no header"),
    }
    match &records[1] {
        V3Record::HashTable(hashes) => assert_eq!(hashes, &vec![[7u8; 32]]),
        _ => panic!("no hash table"),
    }
    match &records[2] {
        V3Record::ChangeHeader(header) => assert_eq!(header, b"header of A"),
        _ => panic!("no change header"),
    }
    match &records[3] {
        V3Record::Dependencies(indices) => assert_eq!(indices, &vec![0]),
        _ => panic!("no dependencies"),
    }
    match &records[5] {
        V3Record::GraphSection(payload) => assert_eq!(payload, b"g2"),
        _ => panic!("no section"),
    }
    match &records[8] {
        V3Record::ContentChunk { index, data } => {
            assert_eq!(*index, 2);
            assert_eq!(data, b"world");
        }
        _ => panic!("no chunk"),
    }
    match &records[9] {
        V3Record::Unhashed(data) => assert_eq!(data, b"{\"n\": 1}"),
        _ => panic!("no unhashed data"),
    }
}

#[test]
fn export_needs_the_hash_table() {
    let store = filled();
    match store.export_v3_records(&A, Ok(meta()), Err("duplicate hash".to_string())) {
        Err(RedbStoreError::Corrupt(text)) => {
            assert_eq!(text, "hash table reconstruction failed: duplicate hash");
        }
        _ => panic!("no error"),
    }
    let mut plain = meta();
    plain.hash_table = Vec::new();
    let unused = Err("not needed".to_string());
    let records = store.export_v3_records(&A, Ok(plain), unused).ok().unwrap();
    match &records[0] {
        V3Record::FileHeader(header) => assert_eq!(header.hash_table_entries, 0),
        _ => panic!("no header"),
    }
    assert_eq!(judge_hash_table(&vec![[1u8; 32]], Ok(4)).ok(), Some(4));
    assert_eq!(judge_hash_table(&Vec::new(), Ok(4)).ok(), Some(0));
}

#[test]
fn without_metadata_nothing_is_loaded() {
    let store = filled();
    let absent = || Err(RedbStoreError::NotFound { hash: A });
    let is_absent = |error: Option<RedbStoreError>| {
        assert!(matches!(error, Some(RedbStoreError::NotFound { hash: A })));
    };
    is_absent(store.load_graph_sections(&A, absent()).err());
    is_absent(store.load_semantic_sections(&A, absent()).err());
    is_absent(store.load_content_chunks(&A, absent()).err());
    is_absent(store.load_full_content(&A, absent()).err());
    is_absent(store.get_chunk_manifest(&A, absent()).err());
    is_absent(store.export_v3_records(&A, absent(), Ok(0)).err());
}

#[test]
fn paths_are_joined_to_their_sections() {
    let store = filled();
    let sections = store.load_graph_sections(&A, Ok(meta())).ok().unwrap();
    assert_eq!(sections[0].path, "");
    let paths = vec!["src/a.rs".to_string(), "src/b.rs".to_string()];
    let named = with_paths(sections, &paths);
    assert_eq!(named.len(), 2);
    assert_eq!(named[0].path, "src/a.rs");
    assert_eq!(named[0].payload, b"g0".to_vec());
    assert_eq!(named[1].path, "src/b.rs");
    assert_eq!(named[1].file_index, 2);
    assert_eq!(named[1].section_type, SectionType::Graph);
}

#[test]
fn manifest_indices_increase() {
    let store = filled();
    let manifest = store.get_chunk_manifest(&A, Ok(meta())).ok().unwrap();
    assert!(manifest.windows(2).all(|pair| pair[0].0 < pair[1].0));
    assert!(manifest.iter().all(|entry| entry.0 < meta().content_chunk_count));
    let chunks = store.load_content_chunks(&A, Ok(meta())).ok().unwrap();
    let loaded: Vec<(u32, [u8; 32])> = chunks.iter().map(|c| (c.index, c.hash)).collect();
    let listed: Vec<(u32, [u8; 32])> = manifest
        .into_iter()
        .filter(|entry| store.has_content_chunk(&entry.1).ok() == Some(true))
        .collect();
    assert_eq!(loaded, listed);
    let joined: Vec<u8> = chunks.iter().flat_map(|c| c.data.clone()).collect();
    assert_eq!(store.load_full_content(&A, Ok(meta())).ok(), Some(joined));
}

#[test]
fn deleted_changes_cannot_be_loaded() {
    let store = filled();
    assert_eq!(store.delete_change(&A, Ok(meta())).ok(), Some(true));
    let gone = store.load_meta_bytes(&A).map(|_| meta());
    assert!(matches!(
        store.load_full_content(&A, gone),
        Err(RedbStoreError::NotFound { hash: A })
    ));
}

#[test]
fn export_without_unhashed_data() {
    let store = filled();
    let mut plain = meta();
    plain.has_unhashed = false;
    let records = store.export_v3_records(&A, Ok(plain), Ok(1)).ok().unwrap();
    assert_eq!(records.len(), 10);
    let records = store.export_v3_records(&B, Ok(meta()), Ok(1)).ok().unwrap();
    assert_eq!(kind(&records[records.len() - 2]), "chunk");
}
