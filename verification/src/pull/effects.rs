//! What a pull does to the local repository, and on what grounds.

use vstd::prelude::*;

use crate::error::CliError;
use crate::remote::RemoteLookup;
use crate::text;
use crate::types::{ChangeHash, LocalEntry, Merkle, RemoteEntry};

use super::command;
use super::command::{LocalOnlyWarning, Pull};
use super::delta;
use super::laws;
use super::session;
use super::session::{PullAction, PullEvent, PullPhase, PullSession, PullStart};
use super::types::PullChange;

verus! {

/// What a pull is about never changes.
proof fn lemma_kept(
    states: Seq<PullSession>,
    events: Seq<PullEvent>,
    actions: Seq<PullAction>,
    k: int,
)
    requires
        laws::is_run(states, events, actions),
        0 <= k < states.len(),
    ensures
        states[k].command == states[0].command,
        states[k].url == states[0].url,
        states[k].local_view == states[0].local_view,
        states[k].remote_view == states[0].remote_view,
    decreases k,
{
    if k > 0 {
        lemma_kept(states, events, actions, k - 1);
        assert(session::advances(states[k - 1], events[k - 1], states[k], actions[k - 1]));
    }
}

/// A pull is about one pair of views from its beginning to its end. The state and the
/// changelist that it asks for are those of the remote view that is pulled from; the history
/// that it loads is that of the local view that is pulled into, and every change is applied to
/// that view.
pub proof fn law_pull_is_about_one_pair_of_views(
    states: Seq<PullSession>,
    events: Seq<PullEvent>,
    actions: Seq<PullAction>,
    i: int,
)
    requires
        laws::is_run(states, events, actions),
        0 <= i < actions.len(),
    ensures
        actions[i] matches PullAction::Apply { view, .. } ==> view@ == states[0].local_view@,
        actions[i] matches PullAction::LoadHistory { view } ==> view@ == states[0].local_view@,
        actions[i] matches PullAction::QueryState { view } ==> view@ == states[0].remote_view@,
        actions[i] matches PullAction::FetchChangelist { view, from } ==> view@
            == states[0].remote_view@ && from == 0,
        states[i + 1].remote_view == states[0].remote_view,
        states[i + 1].local_view == states[0].local_view,
        states[i + 1].url == states[0].url,
        states[i + 1].command == states[0].command,
{
    lemma_kept(states, events, actions, i);
    lemma_kept(states, events, actions, i + 1);
    assert(session::advances(states[i], events[i], states[i + 1], actions[i]));
}

/// What a pull was last told to do, events that did not belong to its step aside.
pub open spec fn asked(actions: Seq<PullAction>) -> Option<PullAction>
    decreases actions.len(),
{
    if actions.len() == 0 {
        None
    } else if actions.last() is Unexpected {
        asked(actions.drop_last())
    } else {
        Some(actions.last())
    }
}

/// The action downloads a change as the so-manieth of so many.
pub open spec fn downloads_one(action: Option<PullAction>, nth: nat, of: nat) -> bool {
    action matches Some(PullAction::Download { number, total, .. }) && number == nth && total == of
}

/// The action applies this change to this view.
pub open spec fn applies_one(
    action: Option<PullAction>,
    change: ChangeHash,
    to: Seq<char>,
) -> bool {
    action matches Some(PullAction::Apply { hash, view }) && hash == change && view@ == to
}

/// The action is the last that a pull is told.
pub open spec fn is_last(action: PullAction) -> bool {
    action is ShowPreview || action is UpToDate || action is Downloaded || action is Complete
        || action is Fail || action is Abort
}

/// Every step of a pull waits for what came of one request, and that request names what the
/// step is about: the state and the changelist of the remote view, the history of the local
/// view, each change in turn with its number among all, the application of each change in turn
/// to the local view, then the working copy and the vault, and the tags.
pub proof fn law_pull_waits_for_what_it_asked(
    states: Seq<PullSession>,
    events: Seq<PullEvent>,
    actions: Seq<PullAction>,
)
    requires
        laws::is_run(states, events, actions),
    ensures
        ({
            let t = states.last();
            let q = asked(actions);
            match t.phase {
                PullPhase::Connecting => q is None,
                PullPhase::QueryingState => q == Some(
                    PullAction::QueryState { view: states[0].remote_view },
                ),
                PullPhase::FetchingChangelist => q == Some(
                    PullAction::FetchChangelist { view: states[0].remote_view, from: 0 },
                ),
                PullPhase::LoadingHistory => q == Some(
                    PullAction::LoadHistory { view: states[0].local_view },
                ),
                PullPhase::Downloading => downloads_one(
                    q,
                    laws::downloaded(actions).len(),
                    t.delta().len(),
                ),
                PullPhase::Applying => laws::applied(actions).len() > 0 && applies_one(
                    q,
                    laws::applied(actions).last(),
                    states[0].local_view@,
                ),
                PullPhase::Materializing => q == Some(PullAction::Materialize),
                PullPhase::QueryingVault => q == Some(PullAction::QueryVault),
                PullPhase::Enriching => q == Some(PullAction::Enrich),
                PullPhase::MaterializingVault => q == Some(PullAction::MaterializeVault),
                PullPhase::DownloadingTags => q matches Some(PullAction::DownloadTag { .. }),
                PullPhase::Finished => q matches Some(a) && is_last(a),
            }
        }),
    decreases actions.len(),
{
    if actions.len() > 0 {
        let ss = states.drop_last();
        let es = events.drop_last();
        let acts = actions.drop_last();
        assert forall|i: int| 0 <= i < es.len() implies session::advances(
            ss[i],
            es[i],
            ss[i + 1],
            #[trigger] acts[i],
        ) by {
            assert(acts[i] == actions[i]);
        }
        law_pull_waits_for_what_it_asked(ss, es, acts);
        let i = actions.len() - 1;
        lemma_kept(states, events, actions, i);
        lemma_kept(states, events, actions, i + 1);
        laws::lemma_run_inv(states, events, actions, i);
        laws::lemma_run_inv(states, events, actions, i + 1);
        laws::lemma_done(states, events, actions);
        let s = states[i];
        assert(s.plan.len() == s.plan@.len());
        assert(s.tags.len() == s.tags@.len());
        assert(session::advances(s, events[i], states[i + 1], actions[i]));
    }
}

/// A pull works with what it was answered: the remote's changes are what came for the changelist
/// of the remote view, and the local history is what came for the history. Nothing else changes
/// any of them.
pub proof fn law_pull_keeps_what_it_was_answered(
    s: PullSession,
    e: PullEvent,
    t: PullSession,
    a: PullAction,
)
    requires
        session::advances(s, e, t, a),
    ensures
        t.remote == (if s.phase is FetchingChangelist && e is Changelist {
            e->Changelist_0
        } else {
            s.remote
        }),
        t.local == (if s.phase is LoadingHistory && e is History {
            e->History_0
        } else {
            s.local
        }),
        a is Unexpected ==> t == s,
        s.phase is Finished ==> a is Unexpected,
{
}

/// A remote entry is to be brought to the local repository: it is not in the local history, or
/// all are asked for.
pub open spec fn is_to_bring(t: PullSession, entry: RemoteEntry) -> bool {
    t.command.all || !records(t.local@, entry.hash)
}

/// A local entry has the hash.
pub open spec fn records(entries: Seq<LocalEntry>, hash: ChangeHash) -> bool {
    exists|j: int| 0 <= j < entries.len() && (#[trigger] entries[j]).hash == hash
}

/// A remote entry has the hash.
pub open spec fn lists(entries: Seq<RemoteEntry>, hash: ChangeHash) -> bool {
    exists|j: int| 0 <= j < entries.len() && (#[trigger] entries[j]).hash == hash
}

/// There is something to bring.
pub open spec fn has_to_bring(t: PullSession) -> bool {
    exists|i: int| 0 <= i < t.remote@.len() && is_to_bring(t, #[trigger] t.remote@[i])
}

/// What a pull does about the answers to its questions, in turn, and what it decides once both
/// histories are known. A dry run shows what would be pulled. Else, where there is nothing to
/// bring, it says so, and where there is, the first change is downloaded. What it warns of are
/// the local changes that no remote entry has.
pub proof fn law_pull_decides(s: PullSession, e: PullEvent, t: PullSession, a: PullAction)
    requires
        s.inv(),
        session::advances(s, e, t, a),
    ensures
        s.phase is Connecting && e is Connected ==> t.phase is QueryingState,
        s.phase is QueryingState && e is State ==> t.phase is FetchingChangelist,
        s.phase is FetchingChangelist && e is Changelist ==> t.phase is LoadingHistory,
        s.phase is LoadingHistory && e is History ==> {
            &&& a is ShowPreview <==> s.command.dry_run
            &&& a is UpToDate <==> !s.command.dry_run && !has_to_bring(t)
            &&& a is Download <==> !s.command.dry_run && has_to_bring(t)
            &&& forall|h: ChangeHash| #[trigger]
                t.local_only@.contains(h) <==> records(t.local@, h) && !lists(t.remote@, h)
        },
        !(s.phase is LoadingHistory) ==> t.local_only == s.local_only && t.plan == s.plan,
        a matches PullAction::UpToDate { text } ==> text@ == "Already up to date"@,
{
    delta::law_pull_brings_the_entries(t.remote@, t.local@, t.command.all);
    delta::law_local_only_changes_are_named(t.local@, t.remote@);
    let d = t.delta();
    if d.len() > 0 {
        assert(delta::is_wanted(d[0], t.remote@, t.local@, t.command.all));
        let i = choose|i: int|
            0 <= i < t.remote@.len() && delta::carries(d[0], #[trigger] t.remote@[i]) && (
            t.command.all || delta::is_unknown(t.remote@[i].hash, t.local@));
        assert(is_to_bring(t, t.remote@[i]));
    }
    if has_to_bring(t) {
        let i = choose|i: int| 0 <= i < t.remote@.len() && is_to_bring(t, #[trigger] t.remote@[i]);
        if !t.command.all {
            assert(delta::is_unknown(t.remote@[i].hash, t.local@));
        }
        assert(delta::is_brought(t.remote@[i], d));
    }
    if s.phase is LoadingHistory && e is History {
        assert forall|h: ChangeHash| #[trigger] t.local_only@.contains(h) <==> records(t.local@, h)
            && !lists(t.remote@, h) by {
            assert(t.local_only@.contains(h) <==> crate::history::local_has(t.local@, h)
                && !crate::history::remote_has(t.remote@, h));
        }
    }
}

/// The change is that of a remote entry which is to be brought.
pub open spec fn is_owed(t: PullSession, change: PullChange) -> bool {
    exists|i: int|
        0 <= i < t.remote@.len() && delta::carries(change, #[trigger] t.remote@[i]) && is_to_bring(
            t,
            t.remote@[i],
        )
}

/// The entry is among what was downloaded.
pub open spec fn is_downloaded(entry: RemoteEntry, got: Seq<PullChange>) -> bool {
    exists|k: int| 0 <= k < got.len() && delta::carries(#[trigger] got[k], entry)
}

/// A pull that comes to its end has downloaded every remote change that the local history lacks,
/// or every remote change where all are asked for, with all that the changelist says of it, and
/// nothing else; it has done so by the places of the changes in the changelist; and, unless it
/// was to download only, it has applied the same changes in the same order.
pub proof fn law_pull_brings_what_is_lacking(
    states: Seq<PullSession>,
    events: Seq<PullEvent>,
    actions: Seq<PullAction>,
)
    requires
        laws::is_run(states, events, actions),
        actions.len() > 0,
        actions.last() is Complete || actions.last() is Downloaded || actions.last() is Fail,
    ensures
        ({
            let t = states.last();
            let got = laws::downloaded(actions);
            let put = laws::applied(actions);
            &&& forall|i: int|
                0 <= i < t.remote@.len() && is_to_bring(t, #[trigger] t.remote@[i])
                    ==> is_downloaded(t.remote@[i], got)
            &&& forall|k: int| 0 <= k < got.len() ==> is_owed(t, #[trigger] got[k])
            &&& forall|j: int, k: int|
                0 <= j <= k < got.len() ==> (#[trigger] got[j]).sequence <= (
                #[trigger] got[k]).sequence
            &&& states[0].command.download_only ==> put.len() == 0
            &&& !states[0].command.download_only ==> put.len() == got.len() && forall|k: int|
                0 <= k < got.len() ==> #[trigger] put[k] == got[k].hash
        }),
{
    laws::lemma_done(states, events, actions);
    lemma_kept(states, events, actions, states.len() - 1);
    let t = states.last();
    let got = laws::downloaded(actions);
    let d = t.delta();
    delta::law_pull_brings_the_entries(t.remote@, t.local@, t.command.all);
    delta::law_pull_order_is_by_sequence(t.remote@, t.local@, t.command.all, 0);
    let i = actions.len() - 1;
    laws::lemma_run_inv(states, events, actions, i);
    let s = states[i];
    assert(session::advances(s, events[i], t, actions[i]));
    assert(s.plan.len() == s.plan@.len());
    assert(s.tags.len() == s.tags@.len());
    assert forall|i: int|
        0 <= i < t.remote@.len() && is_to_bring(t, #[trigger] t.remote@[i]) implies
        is_downloaded(t.remote@[i], got) by {
        if !t.command.all {
            assert(delta::is_unknown(t.remote@[i].hash, t.local@));
        }
        assert(delta::is_brought(t.remote@[i], d));
    }
    assert forall|k: int| 0 <= k < got.len() implies is_owed(t, #[trigger] got[k]) by {
        assert(delta::is_wanted(d[k], t.remote@, t.local@, t.command.all));
        let i = choose|i: int|
            0 <= i < t.remote@.len() && delta::carries(d[k], #[trigger] t.remote@[i]) && (
            t.command.all || delta::is_unknown(t.remote@[i].hash, t.local@));
        assert(is_to_bring(t, t.remote@[i]));
    }
    if states[0].command.download_only {
        lemma_nothing_applied(states, events, actions);
    }
}

/// A pull that is to download only has applied nothing at any step.
proof fn lemma_nothing_applied(
    states: Seq<PullSession>,
    events: Seq<PullEvent>,
    actions: Seq<PullAction>,
)
    requires
        laws::is_run(states, events, actions),
        states[0].command.download_only,
    ensures
        laws::applied(actions).len() == 0,
    decreases actions.len(),
{
    if actions.len() > 0 {
        let ss = states.drop_last();
        let es = events.drop_last();
        let acts = actions.drop_last();
        assert forall|i: int| 0 <= i < es.len() implies session::advances(
            ss[i],
            es[i],
            ss[i + 1],
            #[trigger] acts[i],
        ) by {
            assert(acts[i] == actions[i]);
        }
        lemma_nothing_applied(ss, es, acts);
        laws::law_download_only_applies_nothing(states, events, actions, actions.len() - 1);
    }
}

/// The tags that a pull downloads are taken from its plan change by change: of a plan in two
/// parts they are those of the first and then those of the second.
pub proof fn law_tags_are_taken_change_by_change(
    one: Seq<PullChange>,
    two: Seq<PullChange>,
    change: PullChange,
)
    ensures
        session::tagged_states(one + two) == session::tagged_states(one) + session::tagged_states(
            two,
        ),
        session::tagged_states(seq![change]) == (if change.tagged {
            seq![change.state]
        } else {
            Seq::empty()
        }),
        laws::hashes(one + two) == laws::hashes(one) + laws::hashes(two),
        laws::hashes(seq![change]) == seq![change.hash],
{
    reveal(Seq::filter);
    let is_tagged = |c: PullChange| c.tagged;
    Seq::filter_distributes_over_add(one, two, is_tagged);
    assert(session::tagged_states(one + two) =~= session::tagged_states(one)
        + session::tagged_states(two));
    let none = Seq::<PullChange>::empty();
    assert(seq![change].drop_last() =~= none);
    assert(none.filter(is_tagged) =~= none);
    assert(none.push(change) =~= seq![change]);
    assert(session::tagged_states(seq![change]) =~= (if change.tagged {
        seq![change.state]
    } else {
        Seq::empty()
    }));
    assert(laws::hashes(one + two) =~= laws::hashes(one) + laws::hashes(two));
    assert(laws::hashes(seq![change]) =~= seq![change.hash]);
}

/// The state is that after a tagged remote change which the pull brings.
pub open spec fn is_tag_owed(t: PullSession, state: Merkle) -> bool {
    exists|i: int|
        0 <= i < t.remote@.len() && (#[trigger] t.remote@[i]).tagged && t.remote@[i].state == state
            && is_to_bring(t, t.remote@[i])
}

/// A pull that comes to its end has downloaded the tag of the state after every tagged remote
/// change that it brings, and no other.
pub proof fn law_pull_downloads_every_tag(
    states: Seq<PullSession>,
    events: Seq<PullEvent>,
    actions: Seq<PullAction>,
)
    requires
        laws::is_run(states, events, actions),
        actions.len() > 0,
        actions.last() is Complete || actions.last() is Downloaded || actions.last() is Fail,
    ensures
        ({
            let t = states.last();
            let got = laws::tags_downloaded(actions);
            &&& forall|i: int|
                0 <= i < t.remote@.len() && (#[trigger] t.remote@[i]).tagged && is_to_bring(
                    t,
                    t.remote@[i],
                ) ==> got.contains(t.remote@[i].state)
            &&& forall|k: int| 0 <= k < got.len() ==> is_tag_owed(t, #[trigger] got[k])
        }),
{
    laws::law_tags_follow_the_changes(states, events, actions);
    let t = states.last();
    let got = laws::tags_downloaded(actions);
    let d = t.delta();
    let is_tagged = |c: PullChange| c.tagged;
    let f = d.filter(is_tagged);
    delta::law_pull_brings_the_entries(t.remote@, t.local@, t.command.all);
    assert forall|i: int|
        0 <= i < t.remote@.len() && (#[trigger] t.remote@[i]).tagged && is_to_bring(
            t,
            t.remote@[i],
        ) implies got.contains(t.remote@[i].state) by {
        if !t.command.all {
            assert(delta::is_unknown(t.remote@[i].hash, t.local@));
        }
        assert(delta::is_brought(t.remote@[i], d));
        let k = choose|k: int| 0 <= k < d.len() && delta::carries(#[trigger] d[k], t.remote@[i]);
        d.lemma_filter_contains(is_tagged, k);
        let m = choose|m: int| 0 <= m < f.len() && f[m] == d[k];
        assert(got[m] == t.remote@[i].state);
    }
    assert forall|k: int| 0 <= k < got.len() implies is_tag_owed(t, #[trigger] got[k]) by {
        assert(f.contains(f[k]));
        d.lemma_filter_pred(is_tagged, k);
        d.lemma_filter_contains_rev(is_tagged, f[k]);
        let m = choose|m: int| 0 <= m < d.len() && d[m] == f[k];
        assert(delta::is_wanted(d[m], t.remote@, t.local@, t.command.all));
        let i = choose|i: int|
            0 <= i < t.remote@.len() && delta::carries(d[m], #[trigger] t.remote@[i]) && (
            t.command.all || delta::is_unknown(t.remote@[i].hash, t.local@));
        assert(t.remote@[i].tagged);
    }
}

/// What a pull does about each event while it downloads, applies and cleans up. Nothing that
/// goes wrong with applying, with the working copy or with the vault ends it. The vault is
/// looked at exactly where a change was applied, and written out exactly where there is one.
pub proof fn law_pull_follows_every_event(
    s: PullSession,
    e: PullEvent,
    t: PullSession,
    a: PullAction,
)
    requires
        s.inv(),
        session::advances(s, e, t, a),
    ensures
        a is Abort <==> e is Failed && (s.phase is Connecting || s.phase is QueryingState || s.phase
            is FetchingChangelist || s.phase is LoadingHistory || s.phase is Downloading || s.phase
            is DownloadingTags),
        a is Abort ==> t.phase is Finished,
        is_last(a) <==> t.phase is Finished && s.phase !is Finished,
        s.phase is Downloading && (e is Saved || e is NotSaved) ==> {
            let last = s.next + 1 >= s.plan@.len();
            &&& !last ==> a is Download && t.phase is Downloading
            &&& last && !s.command.download_only ==> t.phase is Applying && a
                == (PullAction::Apply { hash: s.plan@[0].hash, view: s.local_view })
            &&& last && s.command.download_only ==> !(t.phase is Applying)
        },
        s.phase is Applying && (e is Succeeded || e is Failed) ==> {
            let last = s.next + 1 >= s.plan@.len();
            &&& !last ==> a == (PullAction::Apply {
                hash: s.plan@[s.next + 1].hash,
                view: s.local_view,
            })
            &&& last ==> (a is Materialize <==> t.stats.changes_applied > 0)
        },
        s.phase is Materializing && (e is Succeeded || e is Failed) ==> a is QueryVault,
        s.phase is QueryingVault && e is Vault ==> (a is Enrich <==> e->Vault_0),
        s.phase is QueryingVault && e is Failed ==> !(a is Enrich) && !(a is Abort) && !(a
            is Unexpected),
        s.phase is Enriching && (e is Succeeded || e is Failed) ==> a is MaterializeVault,
        s.phase is MaterializingVault && (e is Succeeded || e is Failed) ==> !(a is Abort) && !(a
            is Unexpected),
        s.phase is DownloadingTags && e is Succeeded ==> !(a is Unexpected),
{
    assert(s.plan.len() == s.plan@.len());
    assert(s.tags.len() == s.tags@.len());
}

/// How many changes were downloaded and saved, could not be, and were applied, and how many
/// bytes they had together.
pub struct Tally {
    /// Downloaded and saved.
    pub saved: nat,
    /// Not downloaded, or not saved.
    pub failed: nat,
    /// Applied.
    pub applied: nat,
    /// The bytes of those that were saved.
    pub bytes: nat,
}

/// What the events of a pull come to.
pub open spec fn tally(states: Seq<PullSession>, events: Seq<PullEvent>) -> Tally
    decreases events.len(),
{
    if events.len() == 0 || states.len() != events.len() + 1 {
        Tally { saved: 0, failed: 0, applied: 0, bytes: 0 }
    } else {
        let rest = tally(states.drop_last(), events.drop_last());
        match (states[events.len() - 1].phase, events.last()) {
            (PullPhase::Downloading, PullEvent::Saved { bytes }) => Tally {
                saved: rest.saved + 1,
                bytes: rest.bytes + bytes as nat,
                ..rest
            },
            (PullPhase::Downloading, PullEvent::NotSaved) => Tally {
                failed: rest.failed + 1,
                ..rest
            },
            (PullPhase::Downloading, PullEvent::Failed) => Tally {
                failed: rest.failed + 1,
                ..rest
            },
            (PullPhase::Applying, PullEvent::Succeeded) => Tally {
                applied: rest.applied + 1,
                ..rest
            },
            _ => rest,
        }
    }
}

/// The counts of a pull are those of what happened in it, and what it says at its end goes by
/// them: it fails where a change could not be saved, and says how many could; else it says how
/// many changes it brought, and whether they were applied.
pub proof fn law_pull_counts_what_happened(
    states: Seq<PullSession>,
    events: Seq<PullEvent>,
    actions: Seq<PullAction>,
)
    requires
        laws::is_run(states, events, actions),
    ensures
        ({
            let n = tally(states, events);
            let t = states.last();
            &&& t.stats.changes_downloaded == n.saved
            &&& t.stats.changes_failed == n.failed
            &&& t.stats.changes_applied == n.applied
            &&& n.bytes <= u64::MAX ==> t.stats.bytes_transferred == n.bytes
            &&& n.bytes > u64::MAX ==> t.stats.bytes_transferred == u64::MAX
            &&& actions.len() > 0 ==> match actions.last() {
                PullAction::Complete { text } => n.failed == 0 && !t.command.download_only && text@
                    == "Pull complete: "@ + text::counted(n.saved, "change"@)
                    + " downloaded and applied"@,
                PullAction::Downloaded { text } => n.failed == 0 && t.command.download_only && text@
                    == "Downloaded "@ + text::counted(n.saved, "change"@) + " (not applied)"@,
                PullAction::Fail(CliError::Internal(text)) => n.failed > 0 && text@
                    == "Pull completed with errors: "@ + text::decimal(n.saved) + " downloaded, "@
                    + text::decimal(n.failed) + " failed"@,
                PullAction::Fail(_) => false,
                _ => true,
            }
        }),
    decreases actions.len(),
{
    if actions.len() > 0 {
        let ss = states.drop_last();
        let es = events.drop_last();
        let acts = actions.drop_last();
        assert forall|i: int| 0 <= i < es.len() implies session::advances(
            ss[i],
            es[i],
            ss[i + 1],
            #[trigger] acts[i],
        ) by {
            assert(acts[i] == actions[i]);
        }
        law_pull_counts_what_happened(ss, es, acts);
        let i = actions.len() - 1;
        laws::lemma_run_inv(states, events, actions, i);
        let s = states[i];
        assert(s.plan.len() == s.plan@.len());
        assert(s.tags.len() == s.tags@.len());
        assert(session::advances(s, events[i], states[i + 1], actions[i]));
    }
}

/// The text begins with the scheme of the gRPC transport.
pub open spec fn is_grpc_text(url: Seq<char>) -> bool {
    (url.len() >= 7 && url.take(7) == "grpc://"@) || (url.len() >= 8 && url.take(8)
        == "grpcs://"@)
}

/// The name that was chosen, or the other one.
pub open spec fn name_or(choice: Option<String>, other: Seq<char>) -> Seq<char> {
    if choice is Some {
        choice->0@
    } else {
        other
    }
}

/// A pull begins with the remote, the views and the options that were asked for: into the chosen
/// local view or the current one, from the chosen remote view or the one named like the local
/// view, at the address that the remote stands for, over gRPC exactly where the address says so.
pub proof fn law_pull_begins_as_asked(
    command: Pull,
    lookup: RemoteLookup,
    current: Seq<char>,
    start: Result<PullStart, CliError>,
)
    requires
        session::begins(command, lookup, current, start),
    ensures
        start matches Ok(PullStart::Http(s, a)) ==> {
            &&& !is_grpc_text(s.url@)
            &&& s.local_view@ == name_or(command.to_view, current)
            &&& s.remote_view@ == name_or(command.from_view, s.local_view@)
            &&& s.command == command
            &&& s.phase is Connecting
            &&& s.local@.len() == 0 && s.remote@.len() == 0
            &&& s.local_only@.len() == 0 && s.plan@.len() == 0
            &&& s.stats.changes_downloaded == 0 && s.stats.bytes_transferred == 0
            &&& s.stats.changes_failed == 0 && s.stats.changes_applied == 0
            &&& a matches PullAction::Connect { url, config } && url@ == s.url@
                && config.timeout_secs == command.timeout && config.danger_accept_invalid_certs
                == command.insecure && config.identity_url@ == s.url@
        },
        start matches Ok(PullStart::Grpc { url, view, local_view, dry_run, download_only }) ==> {
            &&& is_grpc_text(url@)
            &&& local_view@ == name_or(command.to_view, current)
            &&& view@ == name_or(command.from_view, local_view@)
            &&& dry_run == command.dry_run
            &&& download_only == command.download_only
        },
        crate::remote::is_written_as_address(command.remote@) ==> start is Ok && (start->Ok_0
            matches PullStart::Http(s, _) ==> s.url@ == command.remote@) && (start->Ok_0
            matches PullStart::Grpc { url, .. } ==> url@ == command.remote@),
        !crate::remote::is_written_as_address(command.remote@) ==> match lookup {
            RemoteLookup::Found(found) => start is Ok && (start->Ok_0 matches PullStart::Http(s, _)
                ==> s.url == found) && (start->Ok_0 matches PullStart::Grpc { url, .. } ==> url
                == found),
            RemoteLookup::NotFound => start matches Err(CliError::RemoteNotFound { name }) && name@
                == command.remote@,
            RemoteLookup::Failed(why) => start matches Err(CliError::Repository(said)) && said
                == why,
        },
{
    crate::remote::lemma_address(command.remote@);
    if let Ok(PullStart::Http(s, _)) = start {
        lemma_grpc_text(s.url@);
    }
    if let Ok(PullStart::Grpc { url, .. }) = start {
        lemma_grpc_text(url@);
    }
}

/// An address is one of the gRPC transport exactly where it begins like one.
proof fn lemma_grpc_text(url: Seq<char>)
    ensures
        is_grpc_text(url) <==> crate::transport::url::is_grpc(url),
{
    reveal_strlit("grpc://");
    reveal_strlit("grpcs://");
    if url.len() >= 7 {
        assert(url.take(7) =~= url.subrange(0, 7));
    }
    if url.len() >= 8 {
        assert(url.take(8) =~= url.subrange(0, 8));
    }
}

/// What a dry run of a pull shows is its plan: a line for each change, in the order in which
/// they would come, with its hash, its message and a mark exactly where its state is tagged,
/// under their number and the remote, and the remote's address below; or that there is nothing
/// to pull.
pub proof fn law_pull_preview_lists_the_plan(
    s: PullSession,
    e: PullEvent,
    t: PullSession,
    a: PullAction,
)
    requires
        session::advances(s, e, t, a),
        a is ShowPreview,
    ensures
        ({
            let preview = a->ShowPreview_0;
            let plan = t.delta();
            &&& preview.rows@.len() == plan.len()
            &&& forall|k: int|
                0 <= k < plan.len() ==> (#[trigger] preview.rows@[k]).hash == plan[k].hash
                    && preview.rows@[k].message == plan[k].message && preview.rows@[k].marker@
                    == if plan[k].tagged {
                    " [tagged]"@
                } else {
                    ""@
                }
            &&& preview.headline@ == if plan.len() == 0 {
                "Already up to date - nothing to pull"@
            } else {
                "Would pull "@ + text::counted(plan.len(), "change"@) + " from "@
                    + s.command.remote@ + ":"@
            }
            &&& preview.hint is Some <==> plan.len() > 0
            &&& preview.hint matches Some(hint) ==> hint@ == "Remote URL: "@ + s.url@
        }),
{
}

/// The warning about local changes that the remote lacks tells their number, names the first
/// five of them, or all, and says how many it does not name: named and unnamed changes are
/// together all of them.
pub proof fn law_warning_accounts_for_all(local_only: Seq<String>, warning: LocalOnlyWarning)
    requires
        command::warns_of(local_only, warning),
    ensures
        warning.headline@ == "You have "@ + text::counted(local_only.len(), "local change"@)
            + " not on the remote:"@,
        warning.shown@.len() <= 5,
        warning.shown@.len() <= local_only.len(),
        local_only.len() <= 5 ==> warning.shown@.len() == local_only.len() && warning.more is None,
        local_only.len() > 5 ==> warning.shown@.len() == 5 && (warning.more matches Some(more)
            && more@ == "... and "@ + text::decimal(
            (local_only.len() - warning.shown@.len()) as nat,
        ) + " more"@),
        forall|i: int|
            0 <= i < warning.shown@.len() ==> (#[trigger] warning.shown@[i])@ == text::byte_head(
                local_only[i]@,
                12,
            ),
{
}

/// A pull without options goes into the current view from the view of the same name on the remote
/// `origin`. It is no dry run, brings only what is missing, applies it, verifies
/// certificates and waits half a minute.
pub proof fn law_plain_pull_is_with_origin(
    command: Pull,
    lookup: RemoteLookup,
    current: Seq<char>,
    start: Result<PullStart, CliError>,
)
    requires
        command.is_plain(),
        session::begins(command, lookup, current, start),
    ensures
        lookup is NotFound ==> (start matches Err(CliError::RemoteNotFound { name }) && name@
            == "origin"@),
        lookup matches RemoteLookup::Found(found) ==> start is Ok && (start->Ok_0
            matches PullStart::Http(s, _) ==> s.url == found),
        start matches Ok(PullStart::Http(s, a)) ==> {
            &&& s.command.remote@ == "origin"@
            &&& s.local_view@ == current
            &&& s.remote_view@ == current
            &&& !s.command.dry_run && !s.command.all && !s.command.download_only
            &&& a matches PullAction::Connect { url, config } && config.timeout_secs == 30
                && !config.danger_accept_invalid_certs
        },
        start matches Ok(PullStart::Grpc { url, view, dry_run, .. }) ==> view@ == current
            && !dry_run,
{
    reveal_strlit("origin");
    reveal_strlit("://");
    law_pull_begins_as_asked(command, lookup, current, start);
    if crate::remote::is_address("origin"@) {
        let i = choose|i: int| text::occurs_at("origin"@, "://"@, i);
        assert("origin"@.subrange(i, i + 3)[0] == "origin"@[i]);
    }
}

} // verus!
