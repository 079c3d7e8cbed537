//! Which changes a history holds.

use vstd::prelude::*;

use crate::types::{ChangeHash, LocalEntry, RemoteEntry};

verus! {

/// The local history holds the change.
pub open spec fn local_has(local: Seq<LocalEntry>, hash: ChangeHash) -> bool {
    exists|i: int| 0 <= i < local.len() && (#[trigger] local[i]).hash == hash
}

/// The remote changelist holds the change.
pub open spec fn remote_has(remote: Seq<RemoteEntry>, hash: ChangeHash) -> bool {
    exists|i: int| 0 <= i < remote.len() && (#[trigger] remote[i]).hash == hash
}

/// Whether the local history holds the change.
pub fn is_local(local: &Vec<LocalEntry>, hash: &ChangeHash) -> (found: bool)
    ensures
        found == local_has(local@, *hash),
{
    let mut i: usize = 0;
    while i < local.len()
        invariant
            i <= local@.len(),
            forall|j: int| 0 <= j < i ==> (#[trigger] local@[j]).hash != *hash,
        decreases local@.len() - i,
    {
        if local[i].hash.same(hash) {
            assert(local@[i as int].hash == *hash);
            return true;
        }
        i = i + 1;
    }
    false
}

/// Whether the remote changelist holds the change.
pub fn is_remote(remote: &Vec<RemoteEntry>, hash: &ChangeHash) -> (found: bool)
    ensures
        found == remote_has(remote@, *hash),
{
    let mut i: usize = 0;
    while i < remote.len()
        invariant
            i <= remote@.len(),
            forall|j: int| 0 <= j < i ==> (#[trigger] remote@[j]).hash != *hash,
        decreases remote@.len() - i,
    {
        if remote[i].hash.same(hash) {
            assert(remote@[i as int].hash == *hash);
            return true;
        }
        i = i + 1;
    }
    false
}

/// A copy of a message.
pub fn copy_message(message: &Option<String>) -> (copy: Option<String>)
    ensures
        copy == *message,
{
    match message {
        Some(text) => Some(text.clone()),
        None => None,
    }
}

} // verus!
