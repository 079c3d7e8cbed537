//! What a pull works on and what comes of it.

use vstd::prelude::*;

use crate::history::copy_message;
use crate::order::Sequenced;
use crate::types::{ChangeHash, Merkle};

verus! {

/// A change that a pull brings to the local repository.
#[derive(Debug)]
pub struct PullChange {
    /// The change.
    pub hash: ChangeHash,
    /// Its place in the remote changelist.
    pub sequence: u64,
    /// The state of the view after it.
    pub state: Merkle,
    /// Its message, where it has one.
    pub message: Option<String>,
    /// The state after it is tagged.
    pub tagged: bool,
}

impl PullChange {
    /// A change without a message and without a tag.
    pub fn new(hash: ChangeHash, sequence: u64, state: Merkle) -> (change: PullChange)
        ensures
            change == (PullChange { hash, sequence, state, message: None, tagged: false }),
    {
        PullChange { hash, sequence, state, message: None, tagged: false }
    }

    /// The same change once more.
    pub fn copy(&self) -> (change: PullChange)
        ensures
            change == *self,
    {
        PullChange {
            hash: self.hash,
            sequence: self.sequence,
            state: self.state,
            message: copy_message(&self.message),
            tagged: self.tagged,
        }
    }
}

impl Sequenced for PullChange {
    open spec fn place(&self) -> u64 {
        self.sequence
    }

    fn get_place(&self) -> (place: u64) {
        self.sequence
    }
}

/// The counts of a pull.
#[derive(Debug, Clone, Copy, PartialEq, Eq)]
pub struct PullStats {
    /// Changes that were downloaded and saved.
    pub changes_downloaded: usize,
    /// Changes that could not be downloaded or saved.
    pub changes_failed: usize,
    /// Changes that were applied to the local view.
    pub changes_applied: usize,
    /// Bytes of the changes that were downloaded and saved.
    pub bytes_transferred: u64,
}

impl PullStats {
    /// Nothing was counted.
    pub open spec fn is_zero(&self) -> bool {
        &&& self.changes_downloaded == 0
        &&& self.changes_failed == 0
        &&& self.changes_applied == 0
        &&& self.bytes_transferred == 0
    }

    /// The counts before anything is pulled.
    pub fn new() -> (stats: PullStats)
        ensures
            stats.is_zero(),
    {
        PullStats {
            changes_downloaded: 0,
            changes_failed: 0,
            changes_applied: 0,
            bytes_transferred: 0,
        }
    }

    /// How many changes were downloaded.
    pub fn total_downloaded(&self) -> (total: usize)
        ensures
            total == self.changes_downloaded,
    {
        self.changes_downloaded
    }

    /// Whether a change was downloaded.
    pub fn has_downloads(&self) -> (any: bool)
        ensures
            any == (self.changes_downloaded > 0),
    {
        self.changes_downloaded > 0
    }

    /// Whether a change was applied.
    pub fn has_applied(&self) -> (any: bool)
        ensures
            any == (self.changes_applied > 0),
    {
        self.changes_applied > 0
    }

    /// Whether a change could not be downloaded or saved.
    pub fn has_failures(&self) -> (any: bool)
        ensures
            any == (self.changes_failed > 0),
    {
        self.changes_failed > 0
    }

    /// Count a change of so many bytes that was downloaded and saved. A count stops at the
    /// highest number that it can hold.
    pub fn record_change_downloaded(&mut self, bytes: u64)
        ensures
            *final(self) == (PullStats {
                changes_downloaded: old(self).changes_downloaded.saturating_add(1),
                bytes_transferred: old(self).bytes_transferred.saturating_add(bytes),
                ..*old(self)
            }),
    {
        self.changes_downloaded = self.changes_downloaded.saturating_add(1);
        self.bytes_transferred = self.bytes_transferred.saturating_add(bytes);
    }

    /// Count a change that could not be downloaded or saved.
    pub fn record_failed(&mut self)
        ensures
            *final(self) == (PullStats {
                changes_failed: old(self).changes_failed.saturating_add(1),
                ..*old(self)
            }),
    {
        self.changes_failed = self.changes_failed.saturating_add(1);
    }

    /// Count a change that was applied.
    pub fn record_applied(&mut self)
        ensures
            *final(self) == (PullStats {
                changes_applied: old(self).changes_applied.saturating_add(1),
                ..*old(self)
            }),
    {
        self.changes_applied = self.changes_applied.saturating_add(1);
    }
}

impl Default for PullStats {
    fn default() -> (stats: PullStats)
        ensures
            stats.is_zero(),
    {
        PullStats::new()
    }
}

/// How a pull ended.
#[derive(Debug, Clone, Copy, PartialEq, Eq)]
pub struct PullOutcome {
    /// Its counts.
    pub stats: PullStats,
    /// Nothing was to be changed.
    pub dry_run: bool,
}

impl PullOutcome {
    /// The outcome of a dry run.
    pub fn dry_run(stats: PullStats) -> (outcome: PullOutcome)
        ensures
            outcome == (PullOutcome { stats, dry_run: true }),
    {
        PullOutcome { stats, dry_run: true }
    }

    /// Whether every change could be downloaded and saved.
    pub fn is_success(&self) -> (success: bool)
        ensures
            success == (self.stats.changes_failed == 0),
    {
        !self.stats.has_failures()
    }
}

impl Default for PullOutcome {
    fn default() -> (outcome: PullOutcome)
        ensures
            outcome.stats.is_zero(),
            !outcome.dry_run,
    {
        PullOutcome { stats: PullStats::new(), dry_run: false }
    }
}

} // verus!
