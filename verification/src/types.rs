//! Hashes of changes and the entries of histories.

use vstd::prelude::*;

verus! {

/// The hash of a change.
#[derive(Clone, Copy, Debug, PartialEq, Eq)]
pub struct ChangeHash {
    /// Its bytes.
    pub bytes: [u8; 32],
}

/// The state of a view after a change.
#[derive(Clone, Copy, Debug, PartialEq, Eq)]
pub struct Merkle {
    /// Its bytes.
    pub bytes: [u8; 32],
}

/// An entry of the local history.
#[derive(Debug)]
pub struct LocalEntry {
    /// The change.
    pub hash: ChangeHash,
    /// Its place in the history: a change comes after the changes it depends on.
    pub sequence: u64,
    /// The state of the view after it.
    pub state: Merkle,
    /// Its message, where it has one.
    pub message: Option<String>,
    /// The state after it is tagged.
    pub tagged: bool,
}

/// An entry of a remote changelist.
#[derive(Debug)]
pub struct RemoteEntry {
    /// The change.
    pub hash: ChangeHash,
    /// Its place in the changelist: a change comes after the changes it depends on.
    pub sequence: u64,
    /// The state of the view after it.
    pub state: Merkle,
    /// Its message, where the remote gives one.
    pub message: Option<String>,
    /// The state after it is tagged.
    pub tagged: bool,
}

impl ChangeHash {
    /// The hash with these bytes.
    pub fn from_bytes(bytes: [u8; 32]) -> (hash: ChangeHash)
        ensures
            hash.bytes == bytes,
    {
        ChangeHash { bytes }
    }

    /// The hash with these bytes, where there are as many as a hash has.
    pub fn from_slice(bytes: &Vec<u8>) -> (hash: Option<ChangeHash>)
        ensures
            match hash {
                Some(h) => bytes@.len() == 32 && h.bytes@ == bytes@,
                None => bytes@.len() != 32,
            },
    {
        if bytes.len() != 32 {
            return None;
        }
        let mut copy: [u8; 32] = [0u8; 32];
        let mut i: usize = 0;
        while i < 32
            invariant
                i <= 32,
                bytes@.len() == 32,
                forall|j: int| 0 <= j < i ==> copy@[j] == bytes@[j],
            decreases 32 - i,
        {
            copy[i] = bytes[i];
            i = i + 1;
        }
        assert(copy@ =~= bytes@);
        Some(ChangeHash { bytes: copy })
    }

    /// The bytes of the hash.
    pub fn as_bytes(&self) -> (bytes: &[u8; 32])
        ensures
            *bytes == self.bytes,
    {
        &self.bytes
    }

    /// The bytes of the hash, as a list.
    pub fn to_vec(&self) -> (bytes: Vec<u8>)
        ensures
            bytes@ == self.bytes@,
    {
        let mut bytes: Vec<u8> = Vec::new();
        let mut i: usize = 0;
        while i < 32
            invariant
                i <= 32,
                bytes@ == self.bytes@.take(i as int),
            decreases 32 - i,
        {
            bytes.push(self.bytes[i]);
            assert(self.bytes@.take(i + 1) =~= self.bytes@.take(i as int).push(
                self.bytes@[i as int],
            ));
            i = i + 1;
        }
        assert(self.bytes@.take(32) =~= self.bytes@);
        bytes
    }

    /// Whether this is the same hash as `other`.
    pub fn same(&self, other: &ChangeHash) -> (same: bool)
        ensures
            same == (*self == *other),
    {
        let mut i: usize = 0;
        while i < 32
            invariant
                i <= 32,
                forall|j: int| 0 <= j < i ==> self.bytes@[j] == other.bytes@[j],
            decreases 32 - i,
        {
            if self.bytes[i] != other.bytes[i] {
                return false;
            }
            i = i + 1;
        }
        assert(self.bytes@ =~= other.bytes@);
        assert(self.bytes =~= other.bytes);
        true
    }
}

impl Merkle {
    /// The state of a view without changes.
    pub fn zero() -> (state: Merkle)
        ensures
            forall|i: int| 0 <= i < 32 ==> state.bytes@[i] == 0,
    {
        Merkle { bytes: [0u8; 32] }
    }
}

/// Whether `hash` is in the list.
pub fn contains_hash(list: &Vec<ChangeHash>, hash: &ChangeHash) -> (found: bool)
    ensures
        found == list@.contains(*hash),
{
    let mut i: usize = 0;
    while i < list.len()
        invariant
            i <= list@.len(),
            forall|j: int| 0 <= j < i ==> list@[j] != *hash,
        decreases list@.len() - i,
    {
        if list[i].same(hash) {
            assert(list@[i as int] == *hash);
            return true;
        }
        i = i + 1;
    }
    false
}

/// A set of hashes.
#[derive(Debug)]
pub struct ChangeSet {
    /// The members, none of them twice.
    pub members: Vec<ChangeHash>,
}

impl View for ChangeSet {
    type V = Set<ChangeHash>;

    open spec fn view(&self) -> Set<ChangeHash> {
        self.members@.to_set()
    }
}

impl ChangeSet {
    /// No hash is listed twice.
    pub open spec fn wf(&self) -> bool {
        self.members@.no_duplicates()
    }

    /// The empty set.
    pub fn new() -> (set: ChangeSet)
        ensures
            set@ == Set::<ChangeHash>::empty(),
            set.wf(),
    {
        let set = ChangeSet { members: Vec::new() };
        assert(set@ =~= Set::<ChangeHash>::empty());
        set
    }

    /// Whether `hash` is in the set.
    pub fn contains(&self, hash: &ChangeHash) -> (found: bool)
        ensures
            found == self@.contains(*hash),
    {
        contains_hash(&self.members, hash)
    }

    /// Put `hash` in the set; the result says whether it was not in it before.
    pub fn insert(&mut self, hash: ChangeHash) -> (added: bool)
        ensures
            added == !old(self)@.contains(hash),
            final(self)@ == old(self)@.insert(hash),
            old(self).wf() ==> final(self).wf(),
    {
        let ghost before = self.members@;
        if self.contains(&hash) {
            assert(self@ =~= self@.insert(hash));
            return false;
        }
        self.members.push(hash);
        assert forall|h: ChangeHash| self.members@.to_set().contains(h) <==> before.to_set().insert(
            hash,
        ).contains(h) by {
            if before.contains(h) {
                let i = choose|i: int| 0 <= i < before.len() && before[i] == h;
                assert(self.members@[i] == h);
            }
            if h == hash {
                assert(self.members@[before.len() as int] == h);
            }
        }
        assert(self@ =~= before.to_set().insert(hash));
        true
    }
}

} // verus!
