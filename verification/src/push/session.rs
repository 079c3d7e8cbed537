//! A push, step by step: what to do next, given what came of the last step.

use vstd::prelude::*;

use crate::error::{CliError, CliResult};
use crate::history;
use crate::remote;
use crate::remote::{HttpRemoteConfig, Preview, RemoteLookup};
use crate::text;
use crate::text::{format_count, same_text};
use crate::transport::is_grpc_url;
use crate::transport::url;
use crate::types::{ChangeHash, ChangeSet, LocalEntry, Merkle, RemoteEntry};

use super::attach;
use super::attach::{select_attached, Attached};
use super::command;
use super::command::Push;
use super::delta;
use super::delta::{calculate_push_delta, has_diverged};
use super::types::{PushChange, PushStats};

verus! {

/// The view from which the remote makes a new view.
pub const DEFAULT_REMOTE_VIEW: &'static str = "dev";

/// Which step a push is at.
#[derive(Debug, Clone, Copy, PartialEq, Eq, Structural)]
pub enum PushPhase {
    /// Connecting to the remote.
    Connecting,
    /// Asking for the state of the remote view.
    QueryingState,
    /// Loading the local history.
    LoadingHistory,
    /// Fetching the changelist of the remote view.
    FetchingChangelist,
    /// Asking for the state of the remote's default view.
    QueryingDefault,
    /// Fetching the changelist of the remote's default view.
    FetchingDefault,
    /// Making the remote view out of the default view.
    Forking,
    /// Uploading a change.
    Uploading,
    /// Uploading a tagged state.
    UploadingTags,
    /// Looking for attestations of the pushed changes.
    FindingAttestations,
    /// Uploading an attestation.
    SendingAttestations,
    /// Looking for provenance graphs of the pushed changes.
    FindingProvenance,
    /// Uploading a provenance graph.
    SendingProvenance,
    /// Nothing is left to do.
    Finished,
}

/// What came of a step.
#[derive(Debug)]
pub enum PushEvent {
    /// The remote can be reached.
    Connected,
    /// The state of a remote view.
    State {
        /// The view holds no change.
        empty: bool,
    },
    /// The local history.
    History(Vec<LocalEntry>),
    /// The changelist of a remote view.
    Changelist(Vec<RemoteEntry>),
    /// The remote made the view.
    Forked,
    /// The upload was taken.
    Uploaded,
    /// What was found for the pushed changes.
    Found(Vec<Attached>),
    /// The step failed.
    Failed,
}

/// What to do next.
#[derive(Debug)]
pub enum PushAction {
    /// Connect to the remote.
    Connect {
        /// Its address.
        url: String,
        /// How to talk to it.
        config: HttpRemoteConfig,
    },
    /// Ask for the state of a remote view.
    QueryState {
        /// The view.
        view: String,
    },
    /// Load the local history.
    LoadHistory {
        /// Of this view.
        view: String,
    },
    /// Fetch the changelist of a remote view.
    FetchChangelist {
        /// The view.
        view: String,
        /// From this place on.
        from: u64,
    },
    /// Let the remote make a view out of another one.
    Fork {
        /// The new view.
        view: String,
        /// The view that it is made of.
        source: String,
    },
    /// Upload a change.
    Upload {
        /// To this view.
        view: String,
        /// The change.
        change: PushChange,
        /// Which one it is, counted from one.
        number: usize,
        /// Of how many.
        total: usize,
    },
    /// Upload a tagged state.
    UploadTag {
        /// To this view.
        view: String,
        /// The state.
        state: Merkle,
    },
    /// Look for attestations.
    FindAttestations {
        /// Of these changes.
        pushed: Vec<ChangeHash>,
    },
    /// Upload an attestation.
    SendAttestation {
        /// Its hash.
        hash: ChangeHash,
    },
    /// Look for provenance graphs.
    FindProvenance {
        /// Of these changes.
        pushed: Vec<ChangeHash>,
    },
    /// Upload a provenance graph.
    SendProvenance {
        /// Its hash.
        hash: ChangeHash,
    },
    /// Show what would be pushed, and stop.
    ShowPreview(Preview),
    /// Say that there is nothing to push, and stop.
    UpToDate {
        /// In these words.
        text: String,
    },
    /// Stop with this error.
    Refuse(CliError),
    /// Say that the push is done, and stop.
    Complete {
        /// In these words.
        text: String,
    },
    /// Stop with the error of the step that failed.
    Abort,
    /// The event does not belong to the step: nothing to do.
    Unexpected,
}

/// A push on its way. Only `start_push` makes one; its fields are there to be read.
#[derive(Debug)]
#[non_exhaustive]
pub struct PushSession {
    /// The command.
    pub command: Push,
    /// The address of the remote.
    pub url: String,
    /// The view that is pushed from.
    pub local_view: String,
    /// The view that is pushed to.
    pub remote_view: String,
    /// The step that it is at.
    pub phase: PushPhase,
    /// The remote said that the remote view holds no change.
    pub remote_empty: bool,
    /// The local history.
    pub local: Vec<LocalEntry>,
    /// The changelist of the remote view.
    pub remote: Vec<RemoteEntry>,
    /// The changelist of the default view, where the remote view can be made out of it.
    pub source: Vec<RemoteEntry>,
    /// What is to be brought to the remote view.
    pub plan: Vec<PushChange>,
    /// What of that has to be uploaded.
    pub new_changes: Vec<PushChange>,
    /// The tagged states of what is brought to the remote view.
    pub tags: Vec<Merkle>,
    /// The attestations or provenance graphs to upload.
    pub selected: Vec<ChangeHash>,
    /// Which of the changes, tagged states, attestations or graphs is on its way.
    pub next: usize,
    /// The counts.
    pub stats: PushStats,
}

/// How a push begins.
#[derive(Debug)]
pub enum PushStart {
    /// The remote is reached over gRPC.
    Grpc {
        /// Its address.
        url: String,
        /// The remote view.
        view: String,
        /// Nothing is to be changed.
        dry_run: bool,
    },
    /// The remote is reached over HTTP: the push and its first step.
    Http(PushSession, PushAction),
}

/// The changes that the remote holds, in the view that is pushed to or in the one that it
/// can be made of.
pub open spec fn graph_of(source: Seq<RemoteEntry>, remote: Seq<RemoteEntry>) -> Set<ChangeHash> {
    Set::new(|h: ChangeHash| history::remote_has(source, h) || history::remote_has(remote, h))
}

/// The changes whose data the remote lacks.
pub open spec fn fresh(plan: Seq<PushChange>) -> Seq<PushChange> {
    plan.filter(|c: PushChange| !c.in_graph)
}

/// How many changes the remote has already.
pub open spec fn adopted(plan: Seq<PushChange>) -> nat {
    plan.filter(|c: PushChange| c.in_graph).len()
}

/// The hashes of the changes.
pub open spec fn hashes(plan: Seq<PushChange>) -> Seq<ChangeHash> {
    plan.map_values(|c: PushChange| c.hash)
}

/// The tagged states among those after the changes, in their order.
pub open spec fn tagged_states(plan: Seq<PushChange>) -> Seq<Merkle> {
    plan.filter(|c: PushChange| c.tagged).map_values(|c: PushChange| c.state)
}

/// What is said at the end of a push that uploaded something.
pub open spec fn complete_text(s: PushSession) -> Seq<char> {
    "Push complete: "@ + text::counted(s.new_changes@.len(), "change"@) + " uploaded"@ + (
    if s.stats.changes_adopted > 0 {
        " (forked "@ + text::counted(s.stats.changes_adopted as nat, "change"@) + " from "@ + (
        if s.source@.len() > 0 {
            "dev"@
        } else {
            "graph"@
        }) + ")"@
    } else {
        ""@
    }) + synced(s.stats.attestations_synced, "attestation"@) + synced(
        s.stats.provenance_synced,
        "provenance graph"@,
    )
}

/// What is said of attestations or provenance graphs, where any went along.
pub open spec fn synced(count: usize, singular: Seq<char>) -> Seq<char> {
    if count > 0 {
        ", "@ + text::counted(count as nat, singular) + " synced"@
    } else {
        ""@
    }
}

impl PushSession {
    /// The remote view may be changed.
    pub open spec fn may_write(&self) -> bool {
        &&& !self.command.dry_run
        &&& self.command.force || !delta::diverged(self.local@, self.remote@)
    }

    /// The step changes something on the remote, or comes after one that may have.
    pub open spec fn is_writing(&self) -> bool {
        match self.phase {
            PushPhase::Forking => true,
            PushPhase::Uploading => true,
            PushPhase::UploadingTags => true,
            PushPhase::FindingAttestations => true,
            PushPhase::SendingAttestations => true,
            PushPhase::FindingProvenance => true,
            PushPhase::SendingProvenance => true,
            _ => false,
        }
    }

    /// What is to be brought to the remote view, given both histories.
    pub open spec fn delta(&self) -> Seq<PushChange> {
        delta::push_delta(
            self.local@,
            self.remote@,
            graph_of(self.source@, self.remote@),
            self.command.all,
        )
    }

    /// What holds at every step of a push.
    pub open spec fn inv(&self) -> bool {
        &&& self.is_writing() ==> {
            &&& self.may_write()
            &&& self.plan@ == self.delta()
            &&& self.plan@.len() > 0
            &&& self.new_changes@ == fresh(self.plan@)
            &&& self.stats.changes_adopted == adopted(self.plan@)
        }
        &&& self.phase is Forking ==> self.source@.len() > 0 && adopted(self.plan@) > 0
            && self.stats.changes_uploaded == 0
        &&& self.phase is Uploading ==> {
            &&& self.next < self.new_changes@.len()
            &&& self.stats.changes_uploaded == self.next
        }
        &&& self.phase is UploadingTags ==> {
            &&& self.tags@ == tagged_states(self.plan@)
            &&& self.next < self.tags@.len()
            &&& self.stats.tags_uploaded == self.next
            &&& self.stats.changes_uploaded == self.new_changes@.len()
        }
        &&& self.phase is SendingAttestations || self.phase is SendingProvenance ==> self.next
            < self.selected@.len()
        &&& self.phase is FindingAttestations || self.phase is SendingAttestations
            || self.phase is FindingProvenance || self.phase is SendingProvenance ==> {
            &&& self.stats.changes_uploaded == self.new_changes@.len()
            &&& self.stats.tags_uploaded == tagged_states(self.plan@).len()
            &&& self.new_changes@.len() > 0
        }
        &&& self.phase is Forking || self.phase is Uploading ==> self.stats.tags_uploaded == 0
        &&& self.phase is SendingAttestations ==> self.stats.attestations_synced <= self.next
        &&& self.phase is SendingProvenance ==> self.stats.provenance_synced <= self.next
        &&& !(self.phase is SendingAttestations || self.phase is FindingProvenance
            || self.phase is SendingProvenance || self.phase is Finished)
            ==> self.stats.attestations_synced == 0
        &&& !(self.phase is SendingProvenance || self.phase is Finished)
            ==> self.stats.provenance_synced == 0
        &&& !self.is_writing() && !(self.phase is Finished) ==> {
            &&& self.stats.changes_uploaded == 0
            &&& self.stats.tags_uploaded == 0
            &&& self.source@.len() == 0
            &&& self.phase is QueryingDefault || self.phase is FetchingDefault
                ==> self.remote_view@ != "dev"@
            &&& self.remote@.len() == 0
        }
        &&& self.source@.len() > 0 ==> self.remote@.len() == 0 && self.remote_view@ != "dev"@
    }
}

/// The push ended in this step.
pub open spec fn ended(s: PushSession, t: PushSession) -> bool {
    t == (PushSession { phase: PushPhase::Finished, ..s })
}

/// Both histories are known, except for the default view: it is looked at where the remote
/// view holds nothing and is another one.
pub open spec fn seeks_source(s: PushSession, t: PushSession, a: PushAction) -> bool {
    if s.remote@.len() == 0 && s.remote_view@ != "dev"@ {
        &&& t == (PushSession { phase: PushPhase::QueryingDefault, ..s })
        &&& a matches PushAction::QueryState { view } && view@ == "dev"@
    } else {
        decides(s, t, a)
    }
}

/// Everything is known: what to push, and whether to.
pub open spec fn decides(s: PushSession, t: PushSession, a: PushAction) -> bool {
    let planned = PushSession {
        plan: t.plan,
        new_changes: t.new_changes,
        stats: PushStats { changes_adopted: t.stats.changes_adopted, ..s.stats },
        ..s
    };
    &&& t.plan@ == s.delta()
    &&& t.new_changes@ == fresh(t.plan@)
    &&& t.stats.changes_adopted == adopted(t.plan@)
    &&& if s.command.dry_run {
        &&& ended(planned, t)
        &&& a matches PushAction::ShowPreview(preview) && command::previews_push(
            s.command.remote@,
            s.url@,
            t.plan@,
            preview,
        )
    } else if t.plan@.len() == 0 {
        &&& ended(planned, t)
        &&& a matches PushAction::UpToDate { text } && text@ == "Already up to date"@
    } else if !s.command.force && delta::diverged(s.local@, s.remote@) {
        &&& ended(planned, t)
        &&& a matches PushAction::Refuse(CliError::Conflict { description }) && description@
            == "Remote has changes not present locally"@
    } else if s.source@.len() > 0 && adopted(t.plan@) > 0 {
        &&& t == (PushSession { phase: PushPhase::Forking, ..planned })
        &&& a matches PushAction::Fork { view, source } && view == s.remote_view && source@
            == "dev"@
    } else {
        starts_uploads(planned, t, a)
    }
}

/// The upload of the changes whose data the remote lacks begins, where there are any.
pub open spec fn starts_uploads(s: PushSession, t: PushSession, a: PushAction) -> bool {
    if s.new_changes@.len() == 0 {
        starts_tags(s, t, a)
    } else {
        &&& t == (PushSession { phase: PushPhase::Uploading, next: 0, ..s })
        &&& uploads(t, a)
    }
}

/// All changes are on the remote: the tagged states among theirs follow.
pub open spec fn starts_tags(s: PushSession, t: PushSession, a: PushAction) -> bool {
    &&& t.tags@ == tagged_states(s.plan@)
    &&& uploads_tags(PushSession { tags: t.tags, next: 0, ..s }, t, a)
}

/// The next tagged state is uploaded or, after the last, attestations are looked for. A push
/// that had no change to upload ends there.
pub open spec fn uploads_tags(s: PushSession, t: PushSession, a: PushAction) -> bool {
    if s.next < s.tags@.len() {
        &&& t == (PushSession { phase: PushPhase::UploadingTags, ..s })
        &&& a == (PushAction::UploadTag { view: s.remote_view, state: s.tags@[s.next as int] })
    } else if s.new_changes@.len() == 0 {
        &&& ended(s, t)
        &&& a matches PushAction::Complete { text } && text@ == "Push complete: "@
            + s.remote_view@ + " view created on "@ + s.command.remote@
    } else {
        &&& t == (PushSession { phase: PushPhase::FindingAttestations, ..s })
        &&& a matches PushAction::FindAttestations { pushed } && pushed@ == hashes(s.plan@)
    }
}

/// The change whose turn it is is uploaded.
pub open spec fn uploads(t: PushSession, a: PushAction) -> bool {
    a matches PushAction::Upload { view, change, number, total } && {
        &&& view == t.remote_view
        &&& change == t.new_changes@[t.next as int]
        &&& number == t.next + 1
        &&& total == t.new_changes@.len()
    }
}

/// The next attestation is uploaded or, after the last, provenance graphs are looked for.
pub open spec fn sends_attestations(s: PushSession, t: PushSession, a: PushAction) -> bool {
    if s.next < s.selected@.len() {
        &&& t == (PushSession { phase: PushPhase::SendingAttestations, ..s })
        &&& a == (PushAction::SendAttestation { hash: s.selected@[s.next as int] })
    } else {
        &&& t == (PushSession { phase: PushPhase::FindingProvenance, ..s })
        &&& a matches PushAction::FindProvenance { pushed } && pushed@ == hashes(s.plan@)
    }
}

/// The next provenance graph is uploaded or, after the last, the push is done.
pub open spec fn sends_provenance(s: PushSession, t: PushSession, a: PushAction) -> bool {
    if s.next < s.selected@.len() {
        &&& t == (PushSession { phase: PushPhase::SendingProvenance, ..s })
        &&& a == (PushAction::SendProvenance { hash: s.selected@[s.next as int] })
    } else {
        &&& ended(s, t)
        &&& a matches PushAction::Complete { text } && text@ == complete_text(s)
    }
}

/// The step of the push `s` that the event `e` ends, and the next one.
pub open spec fn advances(s: PushSession, e: PushEvent, t: PushSession, a: PushAction) -> bool {
    match (s.phase, e) {
        (PushPhase::Connecting, PushEvent::Connected) => {
            &&& t == (PushSession { phase: PushPhase::QueryingState, ..s })
            &&& a == (PushAction::QueryState { view: s.remote_view })
        },
        (PushPhase::QueryingState, PushEvent::State { empty }) => {
            &&& t == (PushSession {
                phase: PushPhase::LoadingHistory,
                remote_empty: empty,
                ..s
            })
            &&& a == (PushAction::LoadHistory { view: s.local_view })
        },
        (PushPhase::LoadingHistory, PushEvent::History(local)) => {
            let loaded = PushSession { local, ..s };
            if s.remote_empty {
                seeks_source(loaded, t, a)
            } else {
                &&& t == (PushSession { phase: PushPhase::FetchingChangelist, ..loaded })
                &&& a == (PushAction::FetchChangelist { view: s.remote_view, from: 0 })
            }
        },
        (PushPhase::FetchingChangelist, PushEvent::Changelist(remote)) => {
            seeks_source(PushSession { remote, ..s }, t, a)
        },
        (PushPhase::QueryingDefault, PushEvent::State { empty: false }) => {
            &&& t == (PushSession { phase: PushPhase::FetchingDefault, ..s })
            &&& a matches PushAction::FetchChangelist { view, from } && view@ == "dev"@ && from
                == 0
        },
        (PushPhase::QueryingDefault, PushEvent::State { empty: true }) => decides(s, t, a),
        (PushPhase::QueryingDefault, PushEvent::Failed) => decides(s, t, a),
        (PushPhase::FetchingDefault, PushEvent::Changelist(source)) => {
            decides(PushSession { source, ..s }, t, a)
        },
        (PushPhase::FetchingDefault, PushEvent::Failed) => decides(s, t, a),
        (PushPhase::Forking, PushEvent::Forked) => starts_uploads(s, t, a),
        (PushPhase::Uploading, PushEvent::Uploaded) => {
            let counted = PushSession {
                next: (s.next + 1) as usize,
                stats: PushStats {
                    changes_uploaded: (s.stats.changes_uploaded + 1) as usize,
                    ..s.stats
                },
                ..s
            };
            if s.next + 1 < s.new_changes@.len() {
                &&& t == counted
                &&& uploads(t, a)
            } else {
                starts_tags(counted, t, a)
            }
        },
        (PushPhase::UploadingTags, PushEvent::Uploaded) => {
            uploads_tags(
                PushSession {
                    next: (s.next + 1) as usize,
                    stats: PushStats {
                        tags_uploaded: (s.stats.tags_uploaded + 1) as usize,
                        ..s.stats
                    },
                    ..s
                },
                t,
                a,
            )
        },
        (PushPhase::FindingAttestations, PushEvent::Found(found)) => {
            &&& t.selected@ == attach::selected(found@, hashes(s.plan@))
            &&& sends_attestations(PushSession { selected: t.selected, next: 0, ..s }, t, a)
        },
        (PushPhase::SendingAttestations, PushEvent::Uploaded) => {
            sends_attestations(
                PushSession {
                    next: (s.next + 1) as usize,
                    stats: PushStats {
                        attestations_synced: (s.stats.attestations_synced + 1) as usize,
                        ..s.stats
                    },
                    ..s
                },
                t,
                a,
            )
        },
        (PushPhase::SendingAttestations, PushEvent::Failed) => {
            sends_attestations(PushSession { next: (s.next + 1) as usize, ..s }, t, a)
        },
        (PushPhase::FindingProvenance, PushEvent::Found(found)) => {
            &&& t.selected@ == attach::selected(found@, hashes(s.plan@))
            &&& sends_provenance(PushSession { selected: t.selected, next: 0, ..s }, t, a)
        },
        (PushPhase::SendingProvenance, PushEvent::Uploaded) => {
            sends_provenance(
                PushSession {
                    next: (s.next + 1) as usize,
                    stats: PushStats {
                        provenance_synced: (s.stats.provenance_synced + 1) as usize,
                        ..s.stats
                    },
                    ..s
                },
                t,
                a,
            )
        },
        (PushPhase::SendingProvenance, PushEvent::Failed) => {
            sends_provenance(PushSession { next: (s.next + 1) as usize, ..s }, t, a)
        },
        (phase, PushEvent::Failed) => if aborts(phase) {
            &&& ended(s, t)
            &&& a == PushAction::Abort
        } else {
            t == s && a == PushAction::Unexpected
        },
        _ => t == s && a == PushAction::Unexpected,
    }
}

/// A push whose step of this phase fails cannot go on.
pub open spec fn aborts(phase: PushPhase) -> bool {
    match phase {
        PushPhase::Connecting => true,
        PushPhase::QueryingState => true,
        PushPhase::LoadingHistory => true,
        PushPhase::FetchingChangelist => true,
        PushPhase::Forking => true,
        PushPhase::Uploading => true,
        PushPhase::UploadingTags => true,
        _ => false,
    }
}

/// The push before its first step.
pub open spec fn is_started(s: PushSession, command: Push) -> bool {
    &&& s.command == command
    &&& s.phase is Connecting
    &&& s.local@.len() == 0
    &&& s.remote@.len() == 0
    &&& s.source@.len() == 0
    &&& s.plan@.len() == 0
    &&& s.stats == (PushStats {
        changes_uploaded: 0,
        changes_adopted: 0,
        tags_uploaded: 0,
        attestations_synced: 0,
        provenance_synced: 0,
    })
}

/// How the command begins, given what the configuration says of the remote and which view
/// is the current one.
pub open spec fn begins(
    command: Push,
    lookup: RemoteLookup,
    current: Seq<char>,
    start: CliResult<PushStart>,
) -> bool {
    let view = command.remote_view(command.local_view(current));
    match start {
        Err(e) => remote::resolves(command.remote@, lookup, Err(e)),
        Ok(PushStart::Grpc { url, view: v, dry_run }) => {
            &&& remote::resolves(command.remote@, lookup, Ok(url))
            &&& url::is_grpc(url@)
            &&& v@ == view
            &&& dry_run == command.dry_run
        },
        Ok(PushStart::Http(s, a)) => {
            &&& remote::resolves(command.remote@, lookup, Ok(s.url))
            &&& !url::is_grpc(s.url@)
            &&& s.local_view@ == command.local_view(current)
            &&& s.remote_view@ == view
            &&& is_started(s, command)
            &&& s.inv()
            &&& a matches PushAction::Connect { url, config } && {
                &&& url == s.url
                &&& config.timeout_secs == command.timeout
                &&& config.danger_accept_invalid_certs == command.insecure
                &&& config.identity_url@ == url@
            }
        },
    }
}

/// Begin a push.
pub fn start_push(command: Push, lookup: RemoteLookup, current_view: &str) -> (start: CliResult<
    PushStart,
>)
    ensures
        begins(command, lookup, current_view@, start),
{
    let url = match command.resolve_remote_url(lookup) {
        Ok(url) => url,
        Err(e) => {
            return Err(e);
        },
    };
    let local_view = command.get_local_view(current_view);
    let remote_view = command.get_remote_view(local_view.as_str());
    if is_grpc_url(url.as_str()) {
        return Ok(PushStart::Grpc { url, view: remote_view, dry_run: command.dry_run });
    }
    let config = command.build_remote_config(url.as_str());
    let action = PushAction::Connect { url: url.clone(), config };
    let session = PushSession {
        command,
        url,
        local_view,
        remote_view,
        phase: PushPhase::Connecting,
        remote_empty: false,
        local: Vec::new(),
        remote: Vec::new(),
        source: Vec::new(),
        plan: Vec::new(),
        new_changes: Vec::new(),
        tags: Vec::new(),
        selected: Vec::new(),
        next: 0,
        stats: PushStats::new(),
    };
    Ok(PushStart::Http(session, action))
}

/// The changes that the remote holds.
fn collect_graph(source: &Vec<RemoteEntry>, remote: &Vec<RemoteEntry>) -> (graph: ChangeSet)
    ensures
        graph@ == graph_of(source@, remote@),
{
    let mut graph = ChangeSet::new();
    add_all(&mut graph, source);
    add_all(&mut graph, remote);
    assert(graph@ =~= graph_of(source@, remote@));
    graph
}

/// Put the changes of a changelist in the set.
fn add_all(graph: &mut ChangeSet, entries: &Vec<RemoteEntry>)
    ensures
        forall|h: ChangeHash| #[trigger]
            final(graph)@.contains(h) <==> old(graph)@.contains(h) || history::remote_has(
                entries@,
                h,
            ),
{
    let ghost before = graph@;
    let mut i: usize = 0;
    while i < entries.len()
        invariant
            i <= entries@.len(),
            forall|h: ChangeHash| #[trigger]
                graph@.contains(h) <==> before.contains(h) || history::remote_has(
                    entries@.take(i as int),
                    h,
                ),
        decreases entries@.len() - i,
    {
        let ghost shorter = entries@.take(i as int);
        let ghost longer = entries@.take(i + 1);
        let ghost known = graph@;
        graph.insert(entries[i].hash);
        assert forall|h: ChangeHash| #[trigger]
            graph@.contains(h) <==> before.contains(h) || history::remote_has(longer, h) by {
            assert(known.contains(h) <==> before.contains(h) || history::remote_has(shorter, h));
            if history::remote_has(shorter, h) {
                let j = choose|j: int| 0 <= j < shorter.len() && (#[trigger] shorter[j]).hash == h;
                assert(longer[j].hash == h);
            }
            if history::remote_has(longer, h) {
                let j = choose|j: int| 0 <= j < longer.len() && (#[trigger] longer[j]).hash == h;
                if j < i {
                    assert(shorter[j].hash == h);
                }
            }
            if h == entries@[i as int].hash {
                assert(longer[i as int].hash == h);
            }
        }
        i = i + 1;
    }
    assert(entries@.take(i as int) =~= entries@);
}

/// The changes whose data has to be uploaded, and how many need not.
pub fn partition(plan: &Vec<PushChange>) -> (parts: (Vec<PushChange>, usize))
    ensures
        parts.0@ == fresh(plan@),
        parts.1 == adopted(plan@),
{
    let mut new_changes: Vec<PushChange> = Vec::new();
    let mut adopt_count: usize = 0;
    let mut i: usize = 0;
    let ghost is_new = |c: PushChange| !c.in_graph;
    let ghost is_old = |c: PushChange| c.in_graph;
    proof {
        reveal(Seq::filter);
    }
    while i < plan.len()
        invariant
            i <= plan@.len(),
            is_new == (|c: PushChange| !c.in_graph),
            is_old == (|c: PushChange| c.in_graph),
            new_changes@ == plan@.take(i as int).filter(is_new),
            adopt_count == plan@.take(i as int).filter(is_old).len(),
            adopt_count <= i,
        decreases plan@.len() - i,
    {
        proof {
            reveal(Seq::filter);
            assert(plan@.take(i + 1).drop_last() =~= plan@.take(i as int));
        }
        if plan[i].needs_upload() {
            new_changes.push(plan[i].copy());
        } else {
            adopt_count = adopt_count + 1;
        }
        i = i + 1;
    }
    assert(plan@.take(i as int) =~= plan@);
    (new_changes, adopt_count)
}

/// The hashes of the changes.
fn collect_hashes(plan: &Vec<PushChange>) -> (list: Vec<ChangeHash>)
    ensures
        list@ == hashes(plan@),
{
    let mut list: Vec<ChangeHash> = Vec::new();
    let mut i: usize = 0;
    while i < plan.len()
        invariant
            i <= plan@.len(),
            list@ == hashes(plan@.take(i as int)),
        decreases plan@.len() - i,
    {
        list.push(plan[i].hash);
        assert(list@ =~= hashes(plan@.take(i + 1)));
        i = i + 1;
    }
    assert(plan@.take(i as int) =~= plan@);
    list
}

/// The tagged states among those after the changes.
fn collect_tags(plan: &Vec<PushChange>) -> (list: Vec<Merkle>)
    ensures
        list@ == tagged_states(plan@),
{
    let mut list: Vec<Merkle> = Vec::new();
    let mut i: usize = 0;
    let ghost is_tagged = |c: PushChange| c.tagged;
    let ghost state_of = |c: PushChange| c.state;
    proof {
        reveal(Seq::filter);
        assert(list@ =~= plan@.take(0).filter(is_tagged).map_values(state_of));
    }
    while i < plan.len()
        invariant
            i <= plan@.len(),
            is_tagged == (|c: PushChange| c.tagged),
            state_of == (|c: PushChange| c.state),
            list@ == plan@.take(i as int).filter(is_tagged).map_values(state_of),
        decreases plan@.len() - i,
    {
        let ghost before = plan@.take(i as int).filter(is_tagged);
        proof {
            reveal(Seq::filter);
            assert(plan@.take(i + 1).drop_last() =~= plan@.take(i as int));
        }
        if plan[i].tagged {
            list.push(plan[i].state);
            assert(before.push(plan@[i as int]).map_values(state_of) =~= before.map_values(
                state_of,
            ).push(plan@[i as int].state));
        }
        i = i + 1;
    }
    assert(plan@.take(i as int) =~= plan@);
    list
}

/// Say of attestations or provenance graphs that they went along.
fn append_synced(summary: &mut String, count: usize, singular: &str)
    ensures
        final(summary)@ == old(summary)@ + synced(count, singular@),
{
    proof {
        reveal_strlit("");
    }
    if count > 0 {
        let number = format_count(count, singular);
        summary.append(", ");
        summary.append(number.as_str());
        summary.append(" synced");
    }
    assert(summary@ =~= old(summary)@ + synced(count, singular@));
}

impl PushSession {
    /// End the step that the push is at, with what came of it, and say what to do next.
    pub fn step(&mut self, event: PushEvent) -> (action: PushAction)
        requires
            old(self).inv(),
        ensures
            advances(*old(self), event, *final(self), action),
            final(self).inv(),
    {
        match (self.phase, event) {
            (PushPhase::Connecting, PushEvent::Connected) => {
                self.phase = PushPhase::QueryingState;
                PushAction::QueryState { view: self.remote_view.clone() }
            },
            (PushPhase::QueryingState, PushEvent::State { empty }) => {
                self.phase = PushPhase::LoadingHistory;
                self.remote_empty = empty;
                PushAction::LoadHistory { view: self.local_view.clone() }
            },
            (PushPhase::LoadingHistory, PushEvent::History(local)) => {
                self.local = local;
                if self.remote_empty {
                    self.seek_source()
                } else {
                    self.phase = PushPhase::FetchingChangelist;
                    PushAction::FetchChangelist { view: self.remote_view.clone(), from: 0 }
                }
            },
            (PushPhase::FetchingChangelist, PushEvent::Changelist(remote)) => {
                self.remote = remote;
                self.seek_source()
            },
            (PushPhase::QueryingDefault, PushEvent::State { empty }) => {
                if empty {
                    self.decide()
                } else {
                    self.phase = PushPhase::FetchingDefault;
                    PushAction::FetchChangelist { view: DEFAULT_REMOTE_VIEW.to_string(), from: 0 }
                }
            },
            (PushPhase::QueryingDefault, PushEvent::Failed) => self.decide(),
            (PushPhase::FetchingDefault, PushEvent::Changelist(source)) => {
                self.source = source;
                self.decide()
            },
            (PushPhase::FetchingDefault, PushEvent::Failed) => self.decide(),
            (PushPhase::Forking, PushEvent::Forked) => self.start_uploads(),
            (PushPhase::Uploading, PushEvent::Uploaded) => {
                let total: usize = self.new_changes.len();
                self.next = self.next + 1;
                self.stats.changes_uploaded = self.stats.changes_uploaded + 1;
                if self.next < total {
                    self.upload_next()
                } else {
                    self.start_tags()
                }
            },
            (PushPhase::UploadingTags, PushEvent::Uploaded) => {
                let total: usize = self.tags.len();
                assert(self.next < total);
                self.next = self.next + 1;
                self.stats.tags_uploaded = self.stats.tags_uploaded + 1;
                self.upload_tag()
            },
            (PushPhase::FindingAttestations, PushEvent::Found(found)) => {
                let pushed = collect_hashes(&self.plan);
                self.selected = select_attached(&found, &pushed);
                self.next = 0;
                self.send_attestation()
            },
            (PushPhase::SendingAttestations, PushEvent::Uploaded) => {
                self.pass_attached();
                self.stats.attestations_synced = self.stats.attestations_synced + 1;
                self.send_attestation()
            },
            (PushPhase::SendingAttestations, PushEvent::Failed) => {
                self.pass_attached();
                self.send_attestation()
            },
            (PushPhase::FindingProvenance, PushEvent::Found(found)) => {
                let pushed = collect_hashes(&self.plan);
                self.selected = select_attached(&found, &pushed);
                self.next = 0;
                self.send_provenance()
            },
            (PushPhase::SendingProvenance, PushEvent::Uploaded) => {
                self.pass_attached();
                self.stats.provenance_synced = self.stats.provenance_synced + 1;
                self.send_provenance()
            },
            (PushPhase::SendingProvenance, PushEvent::Failed) => {
                self.pass_attached();
                self.send_provenance()
            },
            (phase, PushEvent::Failed) => {
                match phase {
                    PushPhase::FindingAttestations
                    | PushPhase::FindingProvenance
                    | PushPhase::Finished => PushAction::Unexpected,
                    _ => {
                        self.phase = PushPhase::Finished;
                        PushAction::Abort
                    },
                }
            },
            _ => PushAction::Unexpected,
        }
    }

    /// Look at the default view where the remote view holds nothing and is another one.
    fn seek_source(&mut self) -> (action: PushAction)
        requires
            old(self).is_fresh(),
            old(self).source@.len() == 0,
        ensures
            seeks_source(*old(self), *final(self), action),
            final(self).inv(),
    {
        if self.remote.len() == 0 && !same_text(self.remote_view.as_str(), DEFAULT_REMOTE_VIEW) {
            self.phase = PushPhase::QueryingDefault;
            PushAction::QueryState { view: DEFAULT_REMOTE_VIEW.to_string() }
        } else {
            self.decide()
        }
    }

    /// Nothing was sent yet.
    pub open spec fn is_fresh(&self) -> bool {
        &&& self.stats.changes_uploaded == 0
        &&& self.stats.tags_uploaded == 0
        &&& self.stats.attestations_synced == 0
        &&& self.stats.provenance_synced == 0
    }

    /// Decide what to push, and whether to.
    fn decide(&mut self) -> (action: PushAction)
        requires
            old(self).is_fresh(),
            old(self).source@.len() > 0 ==> old(self).remote@.len() == 0
                && old(self).remote_view@ != "dev"@,
        ensures
            decides(*old(self), *final(self), action),
            final(self).inv(),
    {
        let graph = collect_graph(&self.source, &self.remote);
        let plan = calculate_push_delta(&self.local, &self.remote, &graph, self.command.all);
        let (new_changes, adopt_count) = partition(&plan);
        self.plan = plan;
        self.new_changes = new_changes;
        self.stats.changes_adopted = adopt_count;
        if self.command.dry_run {
            self.phase = PushPhase::Finished;
            let preview = self.command.display_dry_run(self.url.as_str(), &self.plan);
            return PushAction::ShowPreview(preview);
        }
        if self.plan.len() == 0 {
            self.phase = PushPhase::Finished;
            return PushAction::UpToDate { text: "Already up to date".to_string() };
        }
        if !self.command.force && has_diverged(&self.local, &self.remote) {
            self.phase = PushPhase::Finished;
            return PushAction::Refuse(
                CliError::Conflict {
                    description: "Remote has changes not present locally".to_string(),
                },
            );
        }
        if self.source.len() > 0 && adopt_count > 0 {
            self.phase = PushPhase::Forking;
            return PushAction::Fork {
                view: self.remote_view.clone(),
                source: DEFAULT_REMOTE_VIEW.to_string(),
            };
        }
        self.start_uploads()
    }

    /// Upload the first of the changes whose data the remote lacks, where there is one.
    fn start_uploads(&mut self) -> (action: PushAction)
        requires
            old(self).is_fresh(),
            old(self).source@.len() > 0 ==> old(self).remote@.len() == 0
                && old(self).remote_view@ != "dev"@,
            old(self).may_write(),
            old(self).plan@ == old(self).delta(),
            old(self).plan@.len() > 0,
            old(self).new_changes@ == fresh(old(self).plan@),
            old(self).stats.changes_adopted == adopted(old(self).plan@),
        ensures
            starts_uploads(*old(self), *final(self), action),
            final(self).inv(),
    {
        if self.new_changes.len() == 0 {
            return self.start_tags();
        }
        self.phase = PushPhase::Uploading;
        self.next = 0;
        self.upload_next()
    }

    /// The changes are on the remote, and nothing that follows them.
    pub open spec fn has_uploaded(&self) -> bool {
        &&& self.source@.len() > 0 ==> self.remote@.len() == 0 && self.remote_view@ != "dev"@
        &&& self.may_write()
        &&& self.plan@ == self.delta()
        &&& self.plan@.len() > 0
        &&& self.new_changes@ == fresh(self.plan@)
        &&& self.stats.changes_adopted == adopted(self.plan@)
        &&& self.stats.changes_uploaded == self.new_changes@.len()
        &&& self.stats.attestations_synced == 0
        &&& self.stats.provenance_synced == 0
    }

    /// Upload the first of the tagged states, where there is one.
    fn start_tags(&mut self) -> (action: PushAction)
        requires
            old(self).has_uploaded(),
            old(self).stats.tags_uploaded == 0,
        ensures
            starts_tags(*old(self), *final(self), action),
            final(self).inv(),
    {
        self.tags = collect_tags(&self.plan);
        self.next = 0;
        self.upload_tag()
    }

    /// Upload the tagged state whose turn it is, or go on to the attestations.
    fn upload_tag(&mut self) -> (action: PushAction)
        requires
            old(self).has_uploaded(),
            old(self).tags@ == tagged_states(old(self).plan@),
            old(self).next <= old(self).tags@.len(),
            old(self).stats.tags_uploaded == old(self).next,
        ensures
            uploads_tags(*old(self), *final(self), action),
            final(self).inv(),
    {
        if self.next < self.tags.len() {
            self.phase = PushPhase::UploadingTags;
            return PushAction::UploadTag {
                view: self.remote_view.clone(),
                state: self.tags[self.next],
            };
        }
        if self.new_changes.len() == 0 {
            self.phase = PushPhase::Finished;
            let mut text = "Push complete: ".to_string();
            text.append(self.remote_view.as_str());
            text.append(" view created on ");
            text.append(self.command.remote.as_str());
            return PushAction::Complete { text };
        }
        self.phase = PushPhase::FindingAttestations;
        PushAction::FindAttestations { pushed: collect_hashes(&self.plan) }
    }

    /// Upload the change whose turn it is.
    fn upload_next(&self) -> (action: PushAction)
        requires
            self.next < self.new_changes@.len(),
        ensures
            uploads(*self, action),
    {
        let total: usize = self.new_changes.len();
        PushAction::Upload {
            view: self.remote_view.clone(),
            change: self.new_changes[self.next].copy(),
            number: self.next + 1,
            total,
        }
    }

    /// Go on behind the attestation or provenance graph whose turn it was.
    fn pass_attached(&mut self)
        requires
            old(self).next < old(self).selected@.len(),
        ensures
            *final(self) == (PushSession { next: (old(self).next + 1) as usize, ..*old(self) }),
            old(self).next + 1 <= usize::MAX,
    {
        let total: usize = self.selected.len();
        assert(self.next < total);
        self.next = self.next + 1;
    }

    /// Upload the next attestation, or go on to the provenance graphs.
    fn send_attestation(&mut self) -> (action: PushAction)
        ensures
            sends_attestations(*old(self), *final(self), action),
    {
        if self.next < self.selected.len() {
            self.phase = PushPhase::SendingAttestations;
            PushAction::SendAttestation { hash: self.selected[self.next] }
        } else {
            self.phase = PushPhase::FindingProvenance;
            PushAction::FindProvenance { pushed: collect_hashes(&self.plan) }
        }
    }

    /// Upload the next provenance graph, or end the push.
    fn send_provenance(&mut self) -> (action: PushAction)
        ensures
            sends_provenance(*old(self), *final(self), action),
    {
        if self.next < self.selected.len() {
            self.phase = PushPhase::SendingProvenance;
            PushAction::SendProvenance { hash: self.selected[self.next] }
        } else {
            let text = self.summary();
            self.phase = PushPhase::Finished;
            PushAction::Complete { text }
        }
    }

    /// What is said at the end of a push that uploaded something.
    fn summary(&self) -> (summary: String)
        ensures
            summary@ == complete_text(*self),
    {
        proof {
            reveal_strlit("");
        }
        let mut summary = "Push complete: ".to_string();
        let uploaded = format_count(self.new_changes.len(), "change");
        summary.append(uploaded.as_str());
        summary.append(" uploaded");
        let ghost head = summary@;
        if self.stats.changes_adopted > 0 {
            let forked = format_count(self.stats.changes_adopted, "change");
            let mut part = " (forked ".to_string();
            part.append(forked.as_str());
            part.append(" from ");
            if self.source.len() > 0 {
                part.append(DEFAULT_REMOTE_VIEW);
            } else {
                part.append("graph");
            }
            part.append(")");
            summary.append(part.as_str());
        } else {
            assert(head + ""@ =~= head);
        }
        append_synced(&mut summary, self.stats.attestations_synced, "attestation");
        append_synced(&mut summary, self.stats.provenance_synced, "provenance graph");
        summary
    }
}

} // verus!
