//! What a push works on and what comes of it.

use vstd::prelude::*;

use crate::history::copy_message;
use crate::order::Sequenced;
use crate::types::{ChangeHash, Merkle};

verus! {

/// A change that a push brings to the remote view.
#[derive(Debug)]
pub struct PushChange {
    /// The change.
    pub hash: ChangeHash,
    /// Its place in the local history.
    pub sequence: u64,
    /// The state of the view after it.
    pub state: Merkle,
    /// Its message, where it has one.
    pub message: Option<String>,
    /// The state after it is tagged.
    pub tagged: bool,
    /// Its data need not be uploaded: the remote graph holds it already, in some view.
    pub in_graph: bool,
}

impl PushChange {
    /// A change without a message and without a tag that the remote graph does not hold.
    pub fn new(hash: ChangeHash, sequence: u64, state: Merkle) -> (change: PushChange)
        ensures
            change == (PushChange {
                hash,
                sequence,
                state,
                message: None,
                tagged: false,
                in_graph: false,
            }),
    {
        PushChange { hash, sequence, state, message: None, tagged: false, in_graph: false }
    }

    /// The same change once more.
    pub fn copy(&self) -> (change: PushChange)
        ensures
            change == *self,
    {
        PushChange {
            hash: self.hash,
            sequence: self.sequence,
            state: self.state,
            message: copy_message(&self.message),
            tagged: self.tagged,
            in_graph: self.in_graph,
        }
    }

    /// Whether its data has to be uploaded.
    pub fn needs_upload(&self) -> (needed: bool)
        ensures
            needed == !self.in_graph,
    {
        !self.in_graph
    }
}

impl Sequenced for PushChange {
    open spec fn place(&self) -> u64 {
        self.sequence
    }

    fn get_place(&self) -> (place: u64) {
        self.sequence
    }
}

/// The counts of a push.
#[derive(Debug, Clone, Copy, PartialEq, Eq)]
pub struct PushStats {
    /// Changes whose data was uploaded.
    pub changes_uploaded: usize,
    /// Changes that the remote took over from another of its views.
    pub changes_adopted: usize,
    /// Tagged states that were uploaded.
    pub tags_uploaded: usize,
    /// Attestations that were uploaded.
    pub attestations_synced: usize,
    /// Provenance graphs that were uploaded.
    pub provenance_synced: usize,
}

impl PushStats {
    /// The counts before anything is pushed.
    pub fn new() -> (stats: PushStats)
        ensures
            stats == (PushStats {
                changes_uploaded: 0,
                changes_adopted: 0,
                tags_uploaded: 0,
                attestations_synced: 0,
                provenance_synced: 0,
            }),
    {
        PushStats {
            changes_uploaded: 0,
            changes_adopted: 0,
            tags_uploaded: 0,
            attestations_synced: 0,
            provenance_synced: 0,
        }
    }

    /// How many changes were uploaded.
    pub fn total_uploaded(&self) -> (total: usize)
        ensures
            total == self.changes_uploaded,
    {
        self.changes_uploaded
    }
}

impl Default for PushStats {
    fn default() -> (stats: PushStats)
        ensures
            stats == (PushStats {
                changes_uploaded: 0,
                changes_adopted: 0,
                tags_uploaded: 0,
                attestations_synced: 0,
                provenance_synced: 0,
            }),
    {
        PushStats::new()
    }
}

/// How a push ended.
#[derive(Debug, Clone, Copy, PartialEq, Eq)]
pub struct PushOutcome {
    /// Its counts.
    pub stats: PushStats,
    /// Nothing was to be changed on the remote.
    pub dry_run: bool,
    /// A step failed.
    pub failed: bool,
}

impl PushOutcome {
    /// Whether no step failed.
    pub fn is_success(&self) -> (success: bool)
        ensures
            success == !self.failed,
    {
        !self.failed
    }
}

impl Default for PushOutcome {
    fn default() -> (outcome: PushOutcome)
        ensures
            outcome == (PushOutcome {
                stats: PushStats {
                    changes_uploaded: 0,
                    changes_adopted: 0,
                    tags_uploaded: 0,
                    attestations_synced: 0,
                    provenance_synced: 0,
                },
                dry_run: false,
                failed: false,
            }),
    {
        PushOutcome { stats: PushStats::new(), dry_run: false, failed: false }
    }
}

} // verus!
