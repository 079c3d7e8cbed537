//! A pull, step by step: what to do next, given what came of the last step.

use vstd::prelude::*;

use crate::error::{CliError, CliResult};
use crate::remote;
use crate::remote::{HttpRemoteConfig, Preview, RemoteLookup};
use crate::text;
use crate::text::{decimal_text, format_count};
use crate::transport::is_grpc_url;
use crate::transport::url;
use crate::types::{ChangeHash, LocalEntry, Merkle, RemoteEntry};

use super::command;
use super::command::Pull;
use super::delta;
use super::delta::{calculate_pull_delta, find_local_only_changes, has_local_only_changes};
use super::types::{PullChange, PullStats};

verus! {

/// Which step a pull is at.
#[derive(Debug, Clone, Copy, PartialEq, Eq, Structural)]
pub enum PullPhase {
    /// Connecting to the remote.
    Connecting,
    /// Asking for the state of the remote view.
    QueryingState,
    /// Fetching the changelist of the remote view.
    FetchingChangelist,
    /// Loading the local history.
    LoadingHistory,
    /// Downloading and saving a change.
    Downloading,
    /// Applying a change to the local view.
    Applying,
    /// Updating the working copy.
    Materializing,
    /// Asking whether the repository has a vault.
    QueryingVault,
    /// Enriching the knowledge graph.
    Enriching,
    /// Writing out the entries of the vault.
    MaterializingVault,
    /// Downloading the tag of a state.
    DownloadingTags,
    /// Nothing is left to do.
    Finished,
}

/// What came of a step.
#[derive(Debug)]
pub enum PullEvent {
    /// The remote can be reached.
    Connected,
    /// The remote told the state of the view.
    State,
    /// The changelist of the remote view.
    Changelist(Vec<RemoteEntry>),
    /// The local history.
    History(Vec<LocalEntry>),
    /// The change was downloaded and saved.
    Saved {
        /// How many bytes it has.
        bytes: u64,
    },
    /// The change was downloaded and could not be saved.
    NotSaved,
    /// The step succeeded.
    Succeeded,
    /// Whether the repository has a vault.
    Vault(bool),
    /// The step failed.
    Failed,
}

/// What to do next.
#[derive(Debug)]
pub enum PullAction {
    /// Connect to the remote.
    Connect {
        /// Its address.
        url: String,
        /// How to talk to it.
        config: HttpRemoteConfig,
    },
    /// Ask for the state of the remote view.
    QueryState {
        /// The view.
        view: String,
    },
    /// Fetch the changelist of the remote view.
    FetchChangelist {
        /// The view.
        view: String,
        /// From this place on.
        from: u64,
    },
    /// Load the local history.
    LoadHistory {
        /// Of this view.
        view: String,
    },
    /// Download a change and save it.
    Download {
        /// The change.
        change: PullChange,
        /// Which one it is, counted from one.
        number: usize,
        /// Of how many.
        total: usize,
    },
    /// Apply a change, with the changes that it depends on.
    Apply {
        /// The change.
        hash: ChangeHash,
        /// To this view.
        view: String,
    },
    /// Update the working copy.
    Materialize,
    /// Ask whether the repository has a vault.
    QueryVault,
    /// Enrich the knowledge graph from what was pulled.
    Enrich,
    /// Write out the entries of the vault.
    MaterializeVault,
    /// Download the tag of a state and save it.
    DownloadTag {
        /// The state.
        state: Merkle,
    },
    /// Show what would be pulled, and stop.
    ShowPreview(Preview),
    /// Say that there is nothing to pull, and stop.
    UpToDate {
        /// In these words.
        text: String,
    },
    /// Say that the changes are downloaded, and stop.
    Downloaded {
        /// In these words.
        text: String,
    },
    /// Say that the pull is done, and stop.
    Complete {
        /// In these words.
        text: String,
    },
    /// Stop with this error: the pull is done, but for changes that could not be saved.
    Fail(CliError),
    /// Stop with the error of the step that failed.
    Abort,
    /// The event does not belong to the step: nothing to do.
    Unexpected,
}

/// A pull on its way. Only `start_pull` makes one; its fields are there to be read.
#[derive(Debug)]
#[non_exhaustive]
pub struct PullSession {
    /// The command.
    pub command: Pull,
    /// The address of the remote.
    pub url: String,
    /// The view that is pulled into.
    pub local_view: String,
    /// The view that is pulled from.
    pub remote_view: String,
    /// The step that it is at.
    pub phase: PullPhase,
    /// The changelist of the remote view.
    pub remote: Vec<RemoteEntry>,
    /// The local history.
    pub local: Vec<LocalEntry>,
    /// The local changes that the remote lacks, to be warned of.
    pub local_only: Vec<ChangeHash>,
    /// What is to be brought to the local repository.
    pub plan: Vec<PullChange>,
    /// The tagged states of what is brought to the local repository.
    pub tags: Vec<Merkle>,
    /// Which of the changes or tags is on its way.
    pub next: usize,
    /// The counts.
    pub stats: PullStats,
}

/// How a pull begins.
#[derive(Debug)]
pub enum PullStart {
    /// The remote is reached over gRPC.
    Grpc {
        /// Its address.
        url: String,
        /// The remote view.
        view: String,
        /// The view that is pulled into.
        local_view: String,
        /// Nothing is to be changed.
        dry_run: bool,
        /// Changes are to be downloaded and not applied.
        download_only: bool,
    },
    /// The remote is reached over HTTP: the pull and its first step.
    Http(PullSession, PullAction),
}

/// The tagged states among those after the changes, in their order.
pub open spec fn tagged_states(plan: Seq<PullChange>) -> Seq<Merkle> {
    plan.filter(|c: PullChange| c.tagged).map_values(|c: PullChange| c.state)
}

impl PullSession {
    /// What is to be brought to the local repository, given both histories.
    pub open spec fn delta(&self) -> Seq<PullChange> {
        delta::pull_delta(self.remote@, self.local@, self.command.all)
    }

    /// The step changes something in the local repository.
    pub open spec fn is_writing(&self) -> bool {
        self.phase is Downloading || self.is_applying() || self.phase is DownloadingTags
    }

    /// The step changes more than the store of changes.
    pub open spec fn is_applying(&self) -> bool {
        match self.phase {
            PullPhase::Applying => true,
            PullPhase::Materializing => true,
            PullPhase::QueryingVault => true,
            PullPhase::Enriching => true,
            PullPhase::MaterializingVault => true,
            _ => false,
        }
    }

    /// What holds at every step of a pull.
    pub open spec fn inv(&self) -> bool {
        &&& self.is_writing() ==> {
            &&& !self.command.dry_run
            &&& self.plan@ == self.delta()
            &&& self.plan@.len() > 0
        }
        &&& self.is_applying() ==> !self.command.download_only
        &&& self.is_applying() || self.phase is DownloadingTags ==> {
            &&& self.stats.changes_downloaded + self.stats.changes_failed == self.plan@.len()
        }
        &&& self.phase is DownloadingTags ==> {
            &&& self.tags@ == tagged_states(self.plan@)
            &&& self.next < self.tags@.len()
        }
        &&& self.phase is Downloading ==> {
            &&& self.next < self.plan@.len()
            &&& self.stats.changes_downloaded + self.stats.changes_failed == self.next
        }
        &&& self.phase is Applying ==> {
            &&& self.next < self.plan@.len()
            &&& self.stats.changes_applied <= self.next
        }
        &&& self.is_applying() && !(self.phase is Applying) ==> 0 < self.stats.changes_applied
            <= self.plan@.len()
        &&& self.phase is Downloading ==> self.stats.changes_applied == 0
        &&& !self.is_writing() && !(self.phase is Finished) ==> self.stats.is_zero()
    }
}

/// The pull ended in this step.
pub open spec fn ended(s: PullSession, t: PullSession) -> bool {
    t == (PullSession { phase: PullPhase::Finished, ..s })
}

/// Both histories are known: what to warn of, what to pull, and whether to.
pub open spec fn decides(s: PullSession, t: PullSession, a: PullAction) -> bool {
    let planned = PullSession { plan: t.plan, local_only: t.local_only, ..s };
    &&& t.plan@ == s.delta()
    &&& t.local_only@ == delta::local_only(s.local@, s.remote@)
    &&& if s.command.dry_run {
        &&& ended(planned, t)
        &&& a matches PullAction::ShowPreview(preview) && command::previews_pull(
            s.command.remote@,
            s.url@,
            t.plan@,
            preview,
        )
    } else if t.plan@.len() == 0 {
        &&& ended(planned, t)
        &&& a matches PullAction::UpToDate { text } && text@ == "Already up to date"@
    } else {
        &&& t == (PullSession { phase: PullPhase::Downloading, next: 0, ..planned })
        &&& downloads(t, a)
    }
}

/// The change whose turn it is is downloaded.
pub open spec fn downloads(t: PullSession, a: PullAction) -> bool {
    a matches PullAction::Download { change, number, total } && {
        &&& change == t.plan@[t.next as int]
        &&& number == t.next + 1
        &&& total == t.plan@.len()
    }
}

/// The change whose turn it is is applied.
pub open spec fn applies(t: PullSession, a: PullAction) -> bool {
    a == (PullAction::Apply { hash: t.plan@[t.next as int].hash, view: t.local_view })
}

/// One more change has been downloaded and saved, or not saved, as `s.stats` has it: the
/// next one follows or, after the last, all of them are applied from the first on, unless
/// they are only to be downloaded.
pub open spec fn follows_download(s: PullSession, t: PullSession, a: PullAction) -> bool {
    if s.next + 1 < s.plan@.len() {
        &&& t == (PullSession { next: (s.next + 1) as usize, ..s })
        &&& downloads(t, a)
    } else if s.command.download_only {
        starts_tags(s, t, a)
    } else {
        &&& t == (PullSession { phase: PullPhase::Applying, next: 0, ..s })
        &&& applies(t, a)
    }
}

/// One more change has been applied or not, as `s.stats` has it: the next one follows or,
/// after the last, the working copy is updated where any was applied.
pub open spec fn follows_apply(s: PullSession, t: PullSession, a: PullAction) -> bool {
    if s.next + 1 < s.plan@.len() {
        &&& t == (PullSession { next: (s.next + 1) as usize, ..s })
        &&& applies(t, a)
    } else if s.stats.changes_applied > 0 {
        &&& t == (PullSession { phase: PullPhase::Materializing, ..s })
        &&& a == PullAction::Materialize
    } else {
        starts_tags(s, t, a)
    }
}

/// Nothing is left to do with the changes: the tags of their states follow.
pub open spec fn starts_tags(s: PullSession, t: PullSession, a: PullAction) -> bool {
    &&& t.tags@ == tagged_states(s.plan@)
    &&& downloads_tags(PullSession { tags: t.tags, next: 0, ..s }, t, a)
}

/// The next tag is downloaded or, after the last, the pull ends.
pub open spec fn downloads_tags(s: PullSession, t: PullSession, a: PullAction) -> bool {
    if s.next < s.tags@.len() {
        &&& t == (PullSession { phase: PullPhase::DownloadingTags, ..s })
        &&& a == (PullAction::DownloadTag { state: s.tags@[s.next as int] })
    } else {
        concludes(s, t, a)
    }
}

/// The pull ends, with what there is to say. It fails where a change could not be saved.
pub open spec fn concludes(s: PullSession, t: PullSession, a: PullAction) -> bool {
    &&& ended(s, t)
    &&& if s.stats.changes_failed > 0 {
        a matches PullAction::Fail(CliError::Internal(text)) && text@
            == "Pull completed with errors: "@ + text::decimal(s.stats.changes_downloaded as nat)
            + " downloaded, "@ + text::decimal(s.stats.changes_failed as nat) + " failed"@
    } else if s.command.download_only {
        a matches PullAction::Downloaded { text } && text@ == "Downloaded "@ + text::counted(
            s.stats.changes_downloaded as nat,
            "change"@,
        ) + " (not applied)"@
    } else {
        a matches PullAction::Complete { text } && text@ == "Pull complete: "@ + text::counted(
            s.stats.changes_downloaded as nat,
            "change"@,
        ) + " downloaded and applied"@
    }
}

/// The step of the pull `s` that the event `e` ends, and the next one.
pub open spec fn advances(s: PullSession, e: PullEvent, t: PullSession, a: PullAction) -> bool {
    match (s.phase, e) {
        (PullPhase::Connecting, PullEvent::Connected) => {
            &&& t == (PullSession { phase: PullPhase::QueryingState, ..s })
            &&& a == (PullAction::QueryState { view: s.remote_view })
        },
        (PullPhase::QueryingState, PullEvent::State) => {
            &&& t == (PullSession { phase: PullPhase::FetchingChangelist, ..s })
            &&& a == (PullAction::FetchChangelist { view: s.remote_view, from: 0 })
        },
        (PullPhase::FetchingChangelist, PullEvent::Changelist(remote)) => {
            &&& t == (PullSession { phase: PullPhase::LoadingHistory, remote, ..s })
            &&& a == (PullAction::LoadHistory { view: s.local_view })
        },
        (PullPhase::LoadingHistory, PullEvent::History(local)) => {
            decides(PullSession { local, ..s }, t, a)
        },
        (PullPhase::Downloading, PullEvent::Saved { bytes }) => {
            follows_download(
                PullSession {
                    stats: PullStats {
                        changes_downloaded: (s.stats.changes_downloaded + 1) as usize,
                        bytes_transferred: s.stats.bytes_transferred.saturating_add(bytes),
                        ..s.stats
                    },
                    ..s
                },
                t,
                a,
            )
        },
        (PullPhase::Downloading, PullEvent::NotSaved) => {
            follows_download(
                PullSession {
                    stats: PullStats {
                        changes_failed: (s.stats.changes_failed + 1) as usize,
                        ..s.stats
                    },
                    ..s
                },
                t,
                a,
            )
        },
        (PullPhase::Downloading, PullEvent::Failed) => {
            &&& ended(
                PullSession {
                    stats: PullStats {
                        changes_failed: (s.stats.changes_failed + 1) as usize,
                        ..s.stats
                    },
                    ..s
                },
                t,
            )
            &&& a == PullAction::Abort
        },
        (PullPhase::Applying, PullEvent::Succeeded) => {
            follows_apply(
                PullSession {
                    stats: PullStats {
                        changes_applied: (s.stats.changes_applied + 1) as usize,
                        ..s.stats
                    },
                    ..s
                },
                t,
                a,
            )
        },
        (PullPhase::Applying, PullEvent::Failed) => follows_apply(s, t, a),
        (PullPhase::Materializing, PullEvent::Succeeded)
        | (PullPhase::Materializing, PullEvent::Failed) => {
            &&& t == (PullSession { phase: PullPhase::QueryingVault, ..s })
            &&& a == PullAction::QueryVault
        },
        (PullPhase::QueryingVault, PullEvent::Vault(true)) => {
            &&& t == (PullSession { phase: PullPhase::Enriching, ..s })
            &&& a == PullAction::Enrich
        },
        (PullPhase::QueryingVault, PullEvent::Vault(false))
        | (PullPhase::QueryingVault, PullEvent::Failed) => starts_tags(s, t, a),
        (PullPhase::Enriching, PullEvent::Succeeded)
        | (PullPhase::Enriching, PullEvent::Failed) => {
            &&& t == (PullSession { phase: PullPhase::MaterializingVault, ..s })
            &&& a == PullAction::MaterializeVault
        },
        (PullPhase::MaterializingVault, PullEvent::Succeeded)
        | (PullPhase::MaterializingVault, PullEvent::Failed) => starts_tags(s, t, a),
        (PullPhase::DownloadingTags, PullEvent::Succeeded) => {
            downloads_tags(PullSession { next: (s.next + 1) as usize, ..s }, t, a)
        },
        (phase, PullEvent::Failed) => if aborts(phase) {
            &&& ended(s, t)
            &&& a == PullAction::Abort
        } else {
            t == s && a == PullAction::Unexpected
        },
        _ => t == s && a == PullAction::Unexpected,
    }
}

/// A pull whose step of this phase fails cannot go on.
pub open spec fn aborts(phase: PullPhase) -> bool {
    match phase {
        PullPhase::Connecting => true,
        PullPhase::QueryingState => true,
        PullPhase::FetchingChangelist => true,
        PullPhase::LoadingHistory => true,
        PullPhase::Downloading => true,
        PullPhase::DownloadingTags => true,
        _ => false,
    }
}

/// The pull before its first step.
pub open spec fn is_started(s: PullSession, command: Pull) -> bool {
    &&& s.command == command
    &&& s.phase is Connecting
    &&& s.remote@.len() == 0
    &&& s.local@.len() == 0
    &&& s.local_only@.len() == 0
    &&& s.plan@.len() == 0
    &&& s.stats.is_zero()
}

/// How the command begins, given what the configuration says of the remote and which view
/// is the current one.
pub open spec fn begins(
    command: Pull,
    lookup: RemoteLookup,
    current: Seq<char>,
    start: CliResult<PullStart>,
) -> bool {
    let view = command.remote_view(command.local_view(current));
    match start {
        Err(e) => remote::resolves(command.remote@, lookup, Err(e)),
        Ok(PullStart::Grpc { url, view: v, local_view, dry_run, download_only }) => {
            &&& remote::resolves(command.remote@, lookup, Ok(url))
            &&& url::is_grpc(url@)
            &&& v@ == view
            &&& local_view@ == command.local_view(current)
            &&& dry_run == command.dry_run
            &&& download_only == command.download_only
        },
        Ok(PullStart::Http(s, a)) => {
            &&& remote::resolves(command.remote@, lookup, Ok(s.url))
            &&& !url::is_grpc(s.url@)
            &&& s.local_view@ == command.local_view(current)
            &&& s.remote_view@ == view
            &&& is_started(s, command)
            &&& s.inv()
            &&& a matches PullAction::Connect { url, config } && {
                &&& url == s.url
                &&& config.timeout_secs == command.timeout
                &&& config.danger_accept_invalid_certs == command.insecure
                &&& config.identity_url@ == url@
            }
        },
    }
}

/// Begin a pull.
pub fn start_pull(command: Pull, lookup: RemoteLookup, current_view: &str) -> (start: CliResult<
    PullStart,
>)
    ensures
        begins(command, lookup, current_view@, start),
{
    let url = match command.resolve_remote_url(lookup) {
        Ok(url) => url,
        Err(e) => {
            return Err(e);
        },
    };
    let local_view = command.get_local_view(current_view);
    let remote_view = command.get_remote_view(local_view.as_str());
    if is_grpc_url(url.as_str()) {
        return Ok(
            PullStart::Grpc {
                url,
                view: remote_view,
                local_view,
                dry_run: command.dry_run,
                download_only: command.download_only,
            },
        );
    }
    let config = command.build_remote_config(url.as_str());
    let action = PullAction::Connect { url: url.clone(), config };
    let session = PullSession {
        command,
        url,
        local_view,
        remote_view,
        phase: PullPhase::Connecting,
        remote: Vec::new(),
        local: Vec::new(),
        local_only: Vec::new(),
        plan: Vec::new(),
        tags: Vec::new(),
        next: 0,
        stats: PullStats::new(),
    };
    Ok(PullStart::Http(session, action))
}

/// The tagged states among those after the changes.
fn collect_tags(plan: &Vec<PullChange>) -> (list: Vec<Merkle>)
    ensures
        list@ == tagged_states(plan@),
{
    let mut list: Vec<Merkle> = Vec::new();
    let mut i: usize = 0;
    let ghost is_tagged = |c: PullChange| c.tagged;
    let ghost state_of = |c: PullChange| c.state;
    proof {
        reveal(Seq::filter);
        assert(list@ =~= plan@.take(0).filter(is_tagged).map_values(state_of));
    }
    while i < plan.len()
        invariant
            i <= plan@.len(),
            is_tagged == (|c: PullChange| c.tagged),
            state_of == (|c: PullChange| c.state),
            list@ == plan@.take(i as int).filter(is_tagged).map_values(state_of),
        decreases plan@.len() - i,
    {
        let ghost before = plan@.take(i as int).filter(is_tagged);
        proof {
            reveal(Seq::filter);
            assert(plan@.take(i + 1).drop_last() =~= plan@.take(i as int));
        }
        if plan[i].tagged {
            list.push(plan[i].state);
            assert(before.push(plan@[i as int]).map_values(state_of) =~= before.map_values(
                state_of,
            ).push(plan@[i as int].state));
        }
        i = i + 1;
    }
    assert(plan@.take(i as int) =~= plan@);
    list
}

impl PullSession {
    /// End the step that the pull is at, with what came of it, and say what to do next.
    pub fn step(&mut self, event: PullEvent) -> (action: PullAction)
        requires
            old(self).inv(),
        ensures
            advances(*old(self), event, *final(self), action),
            final(self).inv(),
    {
        let total: usize = self.plan.len();
        match (self.phase, event) {
            (PullPhase::Connecting, PullEvent::Connected) => {
                self.phase = PullPhase::QueryingState;
                PullAction::QueryState { view: self.remote_view.clone() }
            },
            (PullPhase::QueryingState, PullEvent::State) => {
                self.phase = PullPhase::FetchingChangelist;
                PullAction::FetchChangelist { view: self.remote_view.clone(), from: 0 }
            },
            (PullPhase::FetchingChangelist, PullEvent::Changelist(remote)) => {
                self.remote = remote;
                self.phase = PullPhase::LoadingHistory;
                PullAction::LoadHistory { view: self.local_view.clone() }
            },
            (PullPhase::LoadingHistory, PullEvent::History(local)) => {
                self.local = local;
                self.decide()
            },
            (PullPhase::Downloading, PullEvent::Saved { bytes }) => {
                assert(self.stats.changes_downloaded < total);
                self.stats.record_change_downloaded(bytes);
                self.follow_download()
            },
            (PullPhase::Downloading, PullEvent::NotSaved) => {
                assert(self.stats.changes_failed < total);
                self.stats.record_failed();
                self.follow_download()
            },
            (PullPhase::Downloading, PullEvent::Failed) => {
                assert(self.stats.changes_failed < total);
                self.stats.record_failed();
                self.phase = PullPhase::Finished;
                PullAction::Abort
            },
            (PullPhase::Applying, PullEvent::Succeeded) => {
                assert(self.stats.changes_applied < total);
                self.stats.record_applied();
                self.follow_apply()
            },
            (PullPhase::Applying, PullEvent::Failed) => self.follow_apply(),
            (PullPhase::Materializing, PullEvent::Succeeded)
            | (PullPhase::Materializing, PullEvent::Failed) => {
                self.phase = PullPhase::QueryingVault;
                PullAction::QueryVault
            },
            (PullPhase::QueryingVault, PullEvent::Vault(present)) => {
                if present {
                    self.phase = PullPhase::Enriching;
                    PullAction::Enrich
                } else {
                    self.start_tags()
                }
            },
            (PullPhase::QueryingVault, PullEvent::Failed) => self.start_tags(),
            (PullPhase::Enriching, PullEvent::Succeeded)
            | (PullPhase::Enriching, PullEvent::Failed) => {
                self.phase = PullPhase::MaterializingVault;
                PullAction::MaterializeVault
            },
            (PullPhase::MaterializingVault, PullEvent::Succeeded)
            | (PullPhase::MaterializingVault, PullEvent::Failed) => self.start_tags(),
            (PullPhase::DownloadingTags, PullEvent::Succeeded) => {
                let tags: usize = self.tags.len();
                assert(self.next < tags);
                self.next = self.next + 1;
                self.download_tag()
            },
            (phase, PullEvent::Failed) => {
                match phase {
                    PullPhase::Finished => PullAction::Unexpected,
                    _ => {
                        self.phase = PullPhase::Finished;
                        PullAction::Abort
                    },
                }
            },
            _ => PullAction::Unexpected,
        }
    }

    /// Decide what to warn of, what to pull, and whether to.
    fn decide(&mut self) -> (action: PullAction)
        requires
            old(self).stats.is_zero(),
        ensures
            decides(*old(self), *final(self), action),
            final(self).inv(),
    {
        self.local_only = if has_local_only_changes(&self.local, &self.remote) {
            find_local_only_changes(&self.local, &self.remote)
        } else {
            let none: Vec<ChangeHash> = Vec::new();
            assert(none@ =~= delta::local_only(self.local@, self.remote@));
            none
        };
        self.plan = calculate_pull_delta(&self.remote, &self.local, self.command.all);
        if self.command.dry_run {
            self.phase = PullPhase::Finished;
            let preview = self.command.display_dry_run(self.url.as_str(), &self.plan);
            return PullAction::ShowPreview(preview);
        }
        if self.plan.len() == 0 {
            self.phase = PullPhase::Finished;
            return PullAction::UpToDate { text: "Already up to date".to_string() };
        }
        self.phase = PullPhase::Downloading;
        self.next = 0;
        self.download_next()
    }

    /// Download the change whose turn it is.
    fn download_next(&self) -> (action: PullAction)
        requires
            self.next < self.plan@.len(),
        ensures
            downloads(*self, action),
    {
        let total: usize = self.plan.len();
        PullAction::Download { change: self.plan[self.next].copy(), number: self.next + 1, total }
    }

    /// Apply the change whose turn it is.
    fn apply_next(&self) -> (action: PullAction)
        requires
            self.next < self.plan@.len(),
        ensures
            applies(*self, action),
    {
        PullAction::Apply { hash: self.plan[self.next].hash, view: self.local_view.clone() }
    }

    /// Go on after a change was downloaded.
    fn follow_download(&mut self) -> (action: PullAction)
        requires
            old(self).next < old(self).plan@.len(),
        ensures
            follows_download(*old(self), *final(self), action),
    {
        let total: usize = self.plan.len();
        if self.next + 1 < total {
            self.next = self.next + 1;
            self.download_next()
        } else if self.command.download_only {
            self.start_tags()
        } else {
            self.phase = PullPhase::Applying;
            self.next = 0;
            self.apply_next()
        }
    }

    /// Go on after a change was applied, or was not.
    fn follow_apply(&mut self) -> (action: PullAction)
        requires
            old(self).next < old(self).plan@.len(),
        ensures
            follows_apply(*old(self), *final(self), action),
    {
        let total: usize = self.plan.len();
        if self.next + 1 < total {
            self.next = self.next + 1;
            self.apply_next()
        } else if self.stats.has_applied() {
            self.phase = PullPhase::Materializing;
            PullAction::Materialize
        } else {
            self.start_tags()
        }
    }

    /// Download the first of the tags, where there is one.
    fn start_tags(&mut self) -> (action: PullAction)
        ensures
            starts_tags(*old(self), *final(self), action),
    {
        self.tags = collect_tags(&self.plan);
        self.next = 0;
        self.download_tag()
    }

    /// Download the tag whose turn it is, or end the pull.
    fn download_tag(&mut self) -> (action: PullAction)
        ensures
            downloads_tags(*old(self), *final(self), action),
    {
        if self.next < self.tags.len() {
            self.phase = PullPhase::DownloadingTags;
            PullAction::DownloadTag { state: self.tags[self.next] }
        } else {
            self.conclude()
        }
    }

    /// End the pull.
    fn conclude(&mut self) -> (action: PullAction)
        ensures
            concludes(*old(self), *final(self), action),
    {
        self.phase = PullPhase::Finished;
        if self.stats.has_failures() {
            let mut text = "Pull completed with errors: ".to_string();
            let downloaded = decimal_text(self.stats.changes_downloaded as u64);
            let failed = decimal_text(self.stats.changes_failed as u64);
            text.append(downloaded.as_str());
            text.append(" downloaded, ");
            text.append(failed.as_str());
            text.append(" failed");
            PullAction::Fail(CliError::Internal(text))
        } else if self.command.download_only {
            let mut text = "Downloaded ".to_string();
            let count = format_count(self.stats.changes_downloaded, "change");
            text.append(count.as_str());
            text.append(" (not applied)");
            PullAction::Downloaded { text }
        } else {
            let mut text = "Pull complete: ".to_string();
            let count = format_count(self.stats.changes_downloaded, "change");
            text.append(count.as_str());
            text.append(" downloaded and applied");
            PullAction::Complete { text }
        }
    }
}

} // verus!
