//! Tables of the change store and the keys of their entries.
//!
//! The tables lie in a database that other parts of Atomic write to as well. The names of the
//! tables, and a key that ends in the index with its most significant byte first, have to
//! agree with what those parts use.

use vstd::prelude::*;

verus! {

/// Change hash to the change's encoded metadata.
pub const CHANGE_META: &'static str = "change_meta";

/// Change hash and file index to a compressed graph section.
pub const CHANGE_GRAPH: &'static str = "change_graph";

/// Change hash and file index to a compressed semantic section.
pub const CHANGE_SEMANTIC: &'static str = "change_semantic";

/// Change hash and chunk index to the hash of a content chunk.
pub const CHANGE_CHUNKS: &'static str = "change_chunks";

/// Content hash to a compressed content chunk, shared between changes.
pub const CONTENT_CHUNKS: &'static str = "content_chunks";

/// Change hash to the change's compressed unhashed data.
pub const CHANGE_UNHASHED: &'static str = "change_unhashed";

/// The four bytes of `n`, the most significant first.
pub open spec fn big_endian(n: u32) -> Seq<u8> {
    seq![
        (n / 0x1000000) as u8,
        ((n / 0x10000) % 0x100) as u8,
        ((n / 0x100) % 0x100) as u8,
        (n % 0x100) as u8,
    ]
}

/// The key of the `index`-th part of a change: its hash, then the index.
pub open spec fn file_key(hash: Seq<u8>, index: u32) -> Seq<u8> {
    hash + big_endian(index)
}

/// The key of the `index`-th part of the change `hash`.
pub fn encode_change_file_key(hash: &[u8; 32], index: u32) -> (key: [u8; 36])
    ensures
        key@ == file_key(hash@, index),
{
    let mut key: [u8; 36] = [0u8; 36];
    let mut i: usize = 0;
    while i < 32
        invariant
            i <= 32,
            forall|j: int| 0 <= j < i ==> key@[j] == hash@[j],
        decreases 32 - i,
    {
        key[i] = hash[i];
        i = i + 1;
    }
    key[32] = (index / 0x1000000) as u8;
    key[33] = ((index / 0x10000) % 0x100) as u8;
    key[34] = ((index / 0x100) % 0x100) as u8;
    key[35] = (index % 0x100) as u8;
    assert(key@ =~= file_key(hash@, index));
    key
}

/// Different parts have different keys: neither two parts of one change nor parts of
/// two changes meet in a table.
pub proof fn law_file_keys_are_distinct(hash1: Seq<u8>, index1: u32, hash2: Seq<u8>, index2: u32)
    requires
        hash1.len() == hash2.len(),
        file_key(hash1, index1) == file_key(hash2, index2),
    ensures
        hash1 == hash2,
        index1 == index2,
{
    let k1 = file_key(hash1, index1);
    let k2 = file_key(hash2, index2);
    let n = hash1.len() as int;
    assert(hash1 =~= k1.subrange(0, n));
    assert(hash2 =~= k2.subrange(0, n));
    assert(k1[n] == (index1 / 0x1000000) as u8);
    assert(k1[n + 1] == ((index1 / 0x10000) % 0x100) as u8);
    assert(k1[n + 2] == ((index1 / 0x100) % 0x100) as u8);
    assert(k1[n + 3] == (index1 % 0x100) as u8);
    assert(k2[n] == (index2 / 0x1000000) as u8);
    assert(k2[n + 1] == ((index2 / 0x10000) % 0x100) as u8);
    assert(k2[n + 2] == ((index2 / 0x100) % 0x100) as u8);
    assert(k2[n + 3] == (index2 % 0x100) as u8);
}

/// The key of a part is the hash of its change followed by four bytes, which make up its index
/// with the most significant first.
pub proof fn law_file_key_is_hash_then_index(hash: Seq<u8>, index: u32)
    ensures
        ({
            let key = file_key(hash, index);
            let n = hash.len() as int;
            &&& key.len() == n + 4
            &&& forall|i: int| 0 <= i < n ==> key[i] == hash[i]
            &&& index == key[n] * 0x1000000 + key[n + 1] * 0x10000 + key[n + 2] * 0x100 + key[n + 3]
        }),
{
}

} // verus!
