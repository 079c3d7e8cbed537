//! What a push does to the remote, and on what grounds.

use vstd::prelude::*;

use crate::error::CliError;
use crate::remote::RemoteLookup;
use crate::text;
use crate::types::{ChangeHash, LocalEntry, Merkle, RemoteEntry};

use super::attach;
use super::attach::Attached;
use super::command::Push;
use super::delta;
use super::laws;
use super::session;
use super::session::{PushAction, PushEvent, PushPhase, PushSession, PushStart};
use super::types::PushChange;

verus! {

/// What a push is about never changes.
proof fn lemma_kept(
    states: Seq<PushSession>,
    events: Seq<PushEvent>,
    actions: Seq<PushAction>,
    k: int,
)
    requires
        laws::is_run(states, events, actions),
        0 <= k < states.len(),
    ensures
        states[k].command == states[0].command,
        states[k].url == states[0].url,
        states[k].local_view == states[0].local_view,
        states[k].remote_view == states[0].remote_view,
    decreases k,
{
    if k > 0 {
        lemma_kept(states, events, actions, k - 1);
        assert(session::advances(states[k - 1], events[k - 1], states[k], actions[k - 1]));
    }
}

/// A push is about one pair of views from its beginning to its end. The history that it loads
/// is that of the local view; every change and every tag goes to the remote view that is pushed
/// to; a view is made under that name, out of `dev`; and no other views are asked about than
/// that one and `dev`.
pub proof fn law_push_is_about_one_pair_of_views(
    states: Seq<PushSession>,
    events: Seq<PushEvent>,
    actions: Seq<PushAction>,
    i: int,
)
    requires
        laws::is_run(states, events, actions),
        0 <= i < actions.len(),
    ensures
        actions[i] matches PushAction::Upload { view, .. } ==> view@ == states[0].remote_view@,
        actions[i] matches PushAction::UploadTag { view, .. } ==> view@ == states[0].remote_view@,
        actions[i] matches PushAction::Fork { view, source } ==> view@ == states[0].remote_view@
            && source@ == "dev"@,
        actions[i] matches PushAction::LoadHistory { view } ==> view@ == states[0].local_view@,
        actions[i] matches PushAction::QueryState { view } ==> view@ == states[0].remote_view@
            || view@ == "dev"@,
        actions[i] matches PushAction::FetchChangelist { view, from } ==> from == 0 && (view@
            == states[0].remote_view@ || view@ == "dev"@),
        states[i + 1].remote_view == states[0].remote_view,
        states[i + 1].local_view == states[0].local_view,
        states[i + 1].url == states[0].url,
        states[i + 1].command == states[0].command,
{
    lemma_kept(states, events, actions, i);
    lemma_kept(states, events, actions, i + 1);
    assert(session::advances(states[i], events[i], states[i + 1], actions[i]));
}

/// What a push was last told to do, events that did not belong to its step aside.
pub open spec fn asked(actions: Seq<PushAction>) -> Option<PushAction>
    decreases actions.len(),
{
    if actions.len() == 0 {
        None
    } else if actions.last() is Unexpected {
        asked(actions.drop_last())
    } else {
        Some(actions.last())
    }
}

/// The action asks for the state of this view.
pub open spec fn asks_state(action: Option<PushAction>, view: Seq<char>) -> bool {
    action matches Some(PushAction::QueryState { view: v }) && v@ == view
}

/// The action asks for the whole changelist of this view.
pub open spec fn asks_changelist(action: Option<PushAction>, view: Seq<char>) -> bool {
    action matches Some(PushAction::FetchChangelist { view: v, from }) && v@ == view && from == 0
}

/// The action asks for what was attached to these changes.
pub open spec fn asks_attached(
    action: Option<PushAction>,
    plan: Seq<PushChange>,
    provenance: bool,
) -> bool {
    action matches Some(a) && match a {
        PushAction::FindAttestations { pushed } => !provenance && names(pushed@, plan),
        PushAction::FindProvenance { pushed } => provenance && names(pushed@, plan),
        _ => false,
    }
}

/// The list names the changes, in their order.
pub open spec fn names(list: Seq<ChangeHash>, plan: Seq<PushChange>) -> bool {
    &&& list.len() == plan.len()
    &&& forall|k: int| 0 <= k < plan.len() ==> #[trigger] list[k] == plan[k].hash
}

/// The action uploads a change to this view, as the so-manieth of so many.
pub open spec fn uploads_one(
    action: Option<PushAction>,
    to: Seq<char>,
    nth: nat,
    of: nat,
) -> bool {
    action matches Some(PushAction::Upload { view, number, total, .. }) && view@ == to && number
        == nth && total == of
}

/// The action uploads a tagged state to this view.
pub open spec fn uploads_tag_to(action: Option<PushAction>, to: Seq<char>) -> bool {
    action matches Some(PushAction::UploadTag { view, .. }) && view@ == to
}

/// Every step of a push waits for what came of one request, and that request names what the
/// step is about: the state and the changelist of the remote view, then those of `dev` where
/// the view has to be made, the history of the local view, the upload of each change in turn
/// with its number among all that are uploaded, the tags, and what is attached to exactly the
/// changes that are pushed.
pub proof fn law_push_waits_for_what_it_asked(
    states: Seq<PushSession>,
    events: Seq<PushEvent>,
    actions: Seq<PushAction>,
)
    requires
        laws::is_run(states, events, actions),
    ensures
        ({
            let t = states.last();
            let q = asked(actions);
            match t.phase {
                PushPhase::Connecting => q is None,
                PushPhase::QueryingState => asks_state(q, states[0].remote_view@),
                PushPhase::LoadingHistory => q == Some(
                    PushAction::LoadHistory { view: states[0].local_view },
                ),
                PushPhase::FetchingChangelist => asks_changelist(q, states[0].remote_view@),
                PushPhase::QueryingDefault => asks_state(q, "dev"@),
                PushPhase::FetchingDefault => asks_changelist(q, "dev"@),
                PushPhase::Forking => q matches Some(PushAction::Fork { view, source }) && view@
                    == states[0].remote_view@ && source@ == "dev"@,
                PushPhase::Uploading => uploads_one(
                    q,
                    states[0].remote_view@,
                    laws::uploaded(actions).len(),
                    session::fresh(t.delta()).len(),
                ),
                PushPhase::UploadingTags => uploads_tag_to(q, states[0].remote_view@),
                PushPhase::FindingAttestations => asks_attached(q, t.delta(), false),
                PushPhase::SendingAttestations => {
                    q matches Some(PushAction::SendAttestation { .. })
                },
                PushPhase::FindingProvenance => asks_attached(q, t.delta(), true),
                PushPhase::SendingProvenance => q matches Some(PushAction::SendProvenance { .. }),
                PushPhase::Finished => q matches Some(a) && is_last(a),
            }
        }),
    decreases actions.len(),
{
    if actions.len() > 0 {
        let ss = states.drop_last();
        let es = events.drop_last();
        let acts = actions.drop_last();
        assert forall|i: int| 0 <= i < es.len() implies session::advances(
            ss[i],
            es[i],
            ss[i + 1],
            #[trigger] acts[i],
        ) by {
            assert(acts[i] == actions[i]);
        }
        law_push_waits_for_what_it_asked(ss, es, acts);
        let i = actions.len() - 1;
        lemma_kept(states, events, actions, i);
        lemma_kept(states, events, actions, i + 1);
        laws::lemma_run_inv(states, events, actions, i);
        laws::lemma_run_inv(states, events, actions, i + 1);
        laws::lemma_sent(states, events, actions);
        let s = states[i];
        assert(s.new_changes.len() == s.new_changes@.len());
        assert(s.selected.len() == s.selected@.len());
        assert(s.tags.len() == s.tags@.len());
        assert(session::advances(s, events[i], states[i + 1], actions[i]));
    }
}

/// The action is the last that a push is told.
pub open spec fn is_last(action: PushAction) -> bool {
    action is ShowPreview || action is UpToDate || action is Refuse || action is Complete
        || action is Abort
}

/// A push works with what it was answered: the local history is what came for the history, the
/// remote's changes are what came for the changelist of the remote view, and those of `dev`
/// what came for its changelist. Nothing else changes any of them.
pub proof fn law_push_keeps_what_it_was_answered(
    s: PushSession,
    e: PushEvent,
    t: PushSession,
    a: PushAction,
)
    requires
        session::advances(s, e, t, a),
    ensures
        t.local == (if s.phase is LoadingHistory && e is History {
            e->History_0
        } else {
            s.local
        }),
        t.remote == (if s.phase is FetchingChangelist && e is Changelist {
            e->Changelist_0
        } else {
            s.remote
        }),
        t.source == (if s.phase is FetchingDefault && e is Changelist {
            e->Changelist_0
        } else {
            s.source
        }),
        t.remote_empty == (if s.phase is QueryingState && e is State {
            e->empty
        } else {
            s.remote_empty
        }),
        a is Unexpected ==> t == s,
        s.phase is Finished ==> a is Unexpected,
{
}

/// What a push does about the answers that come before anything is decided. A remote view that
/// is said to be empty is not asked for its changes. `dev` is looked at exactly where the remote
/// view holds nothing and is another one; what goes wrong there, or that it is empty, only
/// means that there is nothing to make the view of.
pub proof fn law_push_asks_in_turn(s: PushSession, e: PushEvent, t: PushSession, a: PushAction)
    requires
        session::advances(s, e, t, a),
    ensures
        s.phase is Connecting && e is Connected ==> t.phase is QueryingState,
        s.phase is QueryingState && e is State ==> t.phase is LoadingHistory,
        s.phase is LoadingHistory && e is History && !s.remote_empty ==> t.phase
            is FetchingChangelist,
        (s.phase is LoadingHistory && e is History && s.remote_empty) || (s.phase
            is FetchingChangelist && e is Changelist) ==> {
            let dev = t.remote@.len() == 0 && s.remote_view@ != "dev"@;
            &&& dev <==> t.phase is QueryingDefault
            &&& !dev ==> is_decision(a)
        },
        s.phase is QueryingDefault && e is State && !e->empty ==> t.phase is FetchingDefault,
        s.phase is QueryingDefault && e is State && e->empty ==> is_decision(a),
        s.phase is QueryingDefault && e is Failed ==> is_decision(a) && t.source == s.source,
        s.phase is FetchingDefault && (e is Changelist || e is Failed) ==> is_decision(a),
{
}

/// The action follows the comparison of both histories.
pub open spec fn is_decision(action: PushAction) -> bool {
    match action {
        PushAction::ShowPreview(_) => true,
        PushAction::UpToDate { .. } => true,
        PushAction::Refuse(_) => true,
        PushAction::Fork { .. } => true,
        PushAction::Upload { .. } => true,
        PushAction::UploadTag { .. } => true,
        PushAction::FindAttestations { .. } => true,
        PushAction::Complete { .. } => true,
        _ => false,
    }
}

/// A push before anything is decided.
pub open spec fn is_comparing(phase: PushPhase) -> bool {
    phase is LoadingHistory || phase is FetchingChangelist || phase is QueryingDefault || phase
        is FetchingDefault
}

/// A remote entry has the hash.
pub open spec fn lists(entries: Seq<RemoteEntry>, hash: ChangeHash) -> bool {
    exists|j: int| 0 <= j < entries.len() && (#[trigger] entries[j]).hash == hash
}

/// A local entry has the hash.
pub open spec fn records(entries: Seq<LocalEntry>, hash: ChangeHash) -> bool {
    exists|j: int| 0 <= j < entries.len() && (#[trigger] entries[j]).hash == hash
}

/// The entry is to be brought to the remote view.
pub open spec fn is_to_bring(t: PushSession, entry: LocalEntry) -> bool {
    t.command.all || !lists(t.remote@, entry.hash)
}

/// The remote holds the data of the entry in its default view, and is not to get it again.
pub open spec fn is_to_adopt(t: PushSession, entry: LocalEntry) -> bool {
    !t.command.all && !lists(t.remote@, entry.hash) && lists(t.source@, entry.hash)
}

/// There is something to bring.
pub open spec fn has_to_bring(t: PushSession) -> bool {
    exists|i: int| 0 <= i < t.local@.len() && is_to_bring(t, #[trigger] t.local@[i])
}

/// There is something that the remote need not get again.
pub open spec fn has_to_adopt(t: PushSession) -> bool {
    exists|i: int| 0 <= i < t.local@.len() && is_to_adopt(t, #[trigger] t.local@[i])
}

/// The remote view holds a change that the local history lacks.
pub open spec fn is_diverged(t: PushSession) -> bool {
    exists|i: int|
        0 <= i < t.remote@.len() && !records(t.local@, (#[trigger] t.remote@[i]).hash)
}

/// What the plan says is what the histories say.
proof fn lemma_grounds(t: PushSession)
    ensures
        t.delta().len() > 0 <==> has_to_bring(t),
        t.remote@.len() == 0 || t.source@.len() == 0 ==> (session::adopted(t.delta()) > 0
            <==> has_to_adopt(t)),
        delta::diverged(t.local@, t.remote@) <==> is_diverged(t),
        has_to_adopt(t) ==> t.source@.len() > 0,
{
    let graph = session::graph_of(t.source@, t.remote@);
    let d = t.delta();
    delta::law_push_brings_the_entries(t.local@, t.remote@, graph, t.command.all);
    reveal(Seq::filter);
    let old = |c: PushChange| c.in_graph;
    if d.len() > 0 {
        assert(delta::is_wanted(d[0], t.local@, t.remote@, t.command.all));
        let i = choose|i: int|
            0 <= i < t.local@.len() && delta::carries(d[0], #[trigger] t.local@[i]) && (
            t.command.all || delta::is_unknown(t.local@[i].hash, t.remote@));
        assert(is_to_bring(t, t.local@[i]));
    }
    if has_to_bring(t) {
        let i = choose|i: int| 0 <= i < t.local@.len() && is_to_bring(t, #[trigger] t.local@[i]);
        if !t.command.all {
            assert(delta::is_unknown(t.local@[i].hash, t.remote@));
        }
        assert(delta::is_brought(t.local@[i], d));
    }
    if session::adopted(d) > 0 {
        let f = d.filter(old);
        assert(f.contains(f[0]));
        d.lemma_filter_pred(old, 0);
        d.lemma_filter_contains_rev(old, f[0]);
        let k = choose|k: int| 0 <= k < d.len() && d[k] == f[0];
        assert(delta::is_wanted(d[k], t.local@, t.remote@, t.command.all));
        let i = choose|i: int|
            0 <= i < t.local@.len() && delta::carries(d[k], #[trigger] t.local@[i]) && (
            t.command.all || delta::is_unknown(t.local@[i].hash, t.remote@));
        assert(graph.contains(d[k].hash));
        assert(is_to_adopt(t, t.local@[i]));
    }
    if has_to_adopt(t) {
        let i = choose|i: int| 0 <= i < t.local@.len() && is_to_adopt(t, #[trigger] t.local@[i]);
        assert(delta::is_unknown(t.local@[i].hash, t.remote@));
        assert(delta::is_brought(t.local@[i], d));
        let k = choose|k: int| 0 <= k < d.len() && delta::carries(#[trigger] d[k], t.local@[i]);
        let j = choose|j: int|
            0 <= j < t.source@.len() && (#[trigger] t.source@[j]).hash == t.local@[i].hash;
        assert(graph.contains(d[k].hash));
        assert(d[k].in_graph);
        d.lemma_filter_contains(old, k);
        assert(d.filter(old).contains(d[k]));
    }
    if delta::diverged(t.local@, t.remote@) {
        let i = choose|i: int|
            0 <= i < t.remote@.len() && !crate::history::local_has(
                t.local@,
                (#[trigger] t.remote@[i]).hash,
            );
        assert(!records(t.local@, t.remote@[i].hash));
    }
    if is_diverged(t) {
        let i = choose|i: int|
            0 <= i < t.remote@.len() && !records(t.local@, (#[trigger] t.remote@[i]).hash);
        assert(!crate::history::local_has(t.local@, t.remote@[i].hash));
    }
}

/// What a push decides, once both histories are known. A dry run shows what would be pushed.
/// Else, where there is nothing to bring, it says so; where the remote view holds a change that
/// the local history lacks, it refuses unless forced; where the remote has some of the changes
/// in its default view already, the view is made of that; and where it has none, the first
/// change is uploaded.
pub proof fn law_push_decides(s: PushSession, e: PushEvent, t: PushSession, a: PushAction)
    requires
        s.inv(),
        session::advances(s, e, t, a),
        is_comparing(s.phase),
        is_decision(a),
    ensures
        a is ShowPreview <==> s.command.dry_run,
        a is UpToDate <==> !s.command.dry_run && !has_to_bring(t),
        a is Refuse <==> !s.command.dry_run && has_to_bring(t) && is_diverged(t)
            && !s.command.force,
        a is Fork <==> !s.command.dry_run && has_to_bring(t) && (s.command.force || !is_diverged(t))
            && has_to_adopt(t),
        a is Upload <==> !s.command.dry_run && has_to_bring(t) && (s.command.force
            || !is_diverged(t)) && !has_to_adopt(t),
        a matches PushAction::Refuse(error) ==> (error matches CliError::Conflict { description }
            && description@ == "Remote has changes not present locally"@),
        a matches PushAction::UpToDate { text } ==> text@ == "Already up to date"@,
{
    lemma_grounds(t);
    laws::lemma_inv_kept(s, e, t, a);
    let p = t.plan@;
    if !(session::adopted(p) > 0) && p.len() > 0 {
        lemma_fresh_or_adopted(p);
    }
}

/// Every change is to be uploaded or held already.
proof fn lemma_fresh_or_adopted(plan: Seq<PushChange>)
    ensures
        session::fresh(plan).len() + session::adopted(plan) == plan.len(),
    decreases plan.len(),
{
    reveal(Seq::filter);
    if plan.len() > 0 {
        lemma_fresh_or_adopted(plan.drop_last());
    }
}

/// What a push uploads, counts and names is taken from its plan change by change: of a plan in
/// two parts it is what is taken of the first and then what is taken of the second.
pub proof fn law_plan_is_taken_change_by_change(
    one: Seq<PushChange>,
    two: Seq<PushChange>,
    change: PushChange,
)
    ensures
        session::fresh(one + two) == session::fresh(one) + session::fresh(two),
        session::adopted(one + two) == session::adopted(one) + session::adopted(two),
        session::hashes(one + two) == session::hashes(one) + session::hashes(two),
        session::tagged_states(one + two) == session::tagged_states(one) + session::tagged_states(
            two,
        ),
        session::fresh(seq![change]) == (if change.in_graph {
            Seq::empty()
        } else {
            seq![change]
        }),
        session::adopted(seq![change]) == (if change.in_graph {
            1nat
        } else {
            0nat
        }),
        session::hashes(seq![change]) == seq![change.hash],
        session::tagged_states(seq![change]) == (if change.tagged {
            seq![change.state]
        } else {
            Seq::empty()
        }),
{
    reveal(Seq::filter);
    let is_new = |c: PushChange| !c.in_graph;
    let is_old = |c: PushChange| c.in_graph;
    let is_tagged = |c: PushChange| c.tagged;
    Seq::filter_distributes_over_add(one, two, is_new);
    Seq::filter_distributes_over_add(one, two, is_old);
    Seq::filter_distributes_over_add(one, two, is_tagged);
    assert(session::hashes(one + two) =~= session::hashes(one) + session::hashes(two));
    assert(session::tagged_states(one + two) =~= session::tagged_states(one)
        + session::tagged_states(two));
    let none = Seq::<PushChange>::empty();
    assert(seq![change].drop_last() =~= none);
    assert(none.filter(is_new) =~= none);
    assert(none.filter(is_old) =~= none);
    assert(none.filter(is_tagged) =~= none);
    assert(none.push(change) =~= seq![change]);
    assert(session::hashes(seq![change]) =~= seq![change.hash]);
    assert(session::tagged_states(seq![change]) =~= (if change.tagged {
        seq![change.state]
    } else {
        Seq::empty()
    }));
}

/// The entry's data is among what was uploaded.
pub open spec fn is_uploaded(entry: LocalEntry, sent: Seq<PushChange>) -> bool {
    exists|k: int| 0 <= k < sent.len() && delta::carries(#[trigger] sent[k], entry)
}

/// The change is that of a local entry whose data the remote is to get.
pub open spec fn is_owed(t: PushSession, change: PushChange) -> bool {
    exists|i: int|
        0 <= i < t.local@.len() && delta::carries(change, #[trigger] t.local@[i]) && is_to_bring(
            t,
            t.local@[i],
        ) && !is_to_adopt(t, t.local@[i])
}

/// A push that completes has uploaded every local change whose data the remote lacks, or every
/// local change where all are asked for, with all that the history says of it, and nothing
/// else; and it has done so by the places of the changes in the history.
pub proof fn law_push_uploads_what_the_remote_lacks(
    states: Seq<PushSession>,
    events: Seq<PushEvent>,
    actions: Seq<PushAction>,
)
    requires
        laws::is_run(states, events, actions),
        actions.len() > 0,
        actions.last() is Complete,
    ensures
        ({
            let t = states.last();
            let sent = laws::uploaded(actions);
            &&& forall|i: int|
                0 <= i < t.local@.len() && is_to_bring(t, #[trigger] t.local@[i]) && !is_to_adopt(
                    t,
                    t.local@[i],
                ) ==> is_uploaded(t.local@[i], sent)
            &&& forall|k: int| 0 <= k < sent.len() ==> is_owed(t, #[trigger] sent[k])
            &&& forall|j: int, k: int|
                0 <= j <= k < sent.len() ==> (#[trigger] sent[j]).sequence <= (
                #[trigger] sent[k]).sequence
        }),
{
    laws::law_uploads_follow_the_plan(states, events, actions);
    laws::lemma_run_inv(states, events, actions, states.len() - 1);
    let t = states.last();
    let sent = laws::uploaded(actions);
    let d = t.delta();
    let graph = session::graph_of(t.source@, t.remote@);
    let is_new = |c: PushChange| !c.in_graph;
    delta::law_push_brings_the_entries(t.local@, t.remote@, graph, t.command.all);
    assert forall|i: int|
        0 <= i < t.local@.len() && is_to_bring(t, #[trigger] t.local@[i]) && !is_to_adopt(
            t,
            t.local@[i],
        ) implies is_uploaded(t.local@[i], sent) by {
        if !t.command.all {
            assert(delta::is_unknown(t.local@[i].hash, t.remote@));
        }
        assert(delta::is_brought(t.local@[i], d));
        let k = choose|k: int| 0 <= k < d.len() && delta::carries(#[trigger] d[k], t.local@[i]);
        assert(!d[k].in_graph);
        d.lemma_filter_contains(is_new, k);
        let m = choose|m: int| 0 <= m < sent.len() && sent[m] == d[k];
        assert(delta::carries(sent[m], t.local@[i]));
    }
    assert forall|k: int| 0 <= k < sent.len() implies is_owed(t, #[trigger] sent[k]) by {
        assert(d.filter(is_new).contains(sent[k]));
        d.lemma_filter_pred(is_new, k);
        d.lemma_filter_contains_rev(is_new, sent[k]);
        let m = choose|m: int| 0 <= m < d.len() && d[m] == sent[k];
        assert(delta::is_wanted(d[m], t.local@, t.remote@, t.command.all));
        let i = choose|i: int|
            0 <= i < t.local@.len() && delta::carries(d[m], #[trigger] t.local@[i]) && (
            t.command.all || delta::is_unknown(t.local@[i].hash, t.remote@));
        assert(!d[m].in_graph);
        if is_to_adopt(t, t.local@[i]) {
            let j = choose|j: int|
                0 <= j < t.source@.len() && (#[trigger] t.source@[j]).hash == t.local@[i].hash;
            assert(crate::history::remote_has(t.source@, t.local@[i].hash));
            assert(graph.contains(d[m].hash));
        }
    }
    assert forall|j: int, k: int| 0 <= j <= k < sent.len() implies (#[trigger] sent[j]).sequence
        <= (#[trigger] sent[k]).sequence by {
        lemma_places(sent, j, k);
    }
}

/// What stands in dependency order has ascending places.
proof fn lemma_places(sent: Seq<PushChange>, j: int, k: int)
    requires
        crate::order::in_order(sent),
        0 <= j <= k < sent.len(),
    ensures
        sent[j].sequence <= sent[k].sequence,
{
    assert(crate::order::Sequenced::place(&sent[j]) <= crate::order::Sequenced::place(&sent[k]));
}

/// The state is that after a tagged local change which the push brings.
pub open spec fn is_tag_owed(t: PushSession, state: Merkle) -> bool {
    exists|i: int|
        0 <= i < t.local@.len() && (#[trigger] t.local@[i]).tagged && t.local@[i].state == state
            && is_to_bring(t, t.local@[i])
}

/// A push that completes has uploaded the tagged state after every tagged local change that it
/// brings, and no other.
pub proof fn law_push_uploads_every_tag(
    states: Seq<PushSession>,
    events: Seq<PushEvent>,
    actions: Seq<PushAction>,
)
    requires
        laws::is_run(states, events, actions),
        actions.len() > 0,
        actions.last() is Complete,
    ensures
        ({
            let t = states.last();
            let sent = laws::tags_uploaded(actions);
            &&& forall|i: int|
                0 <= i < t.local@.len() && (#[trigger] t.local@[i]).tagged && is_to_bring(
                    t,
                    t.local@[i],
                ) ==> sent.contains(t.local@[i].state)
            &&& forall|k: int| 0 <= k < sent.len() ==> is_tag_owed(t, #[trigger] sent[k])
        }),
{
    laws::law_tagged_states_follow_the_changes(states, events, actions);
    let t = states.last();
    let sent = laws::tags_uploaded(actions);
    let d = t.delta();
    let graph = session::graph_of(t.source@, t.remote@);
    let is_tagged = |c: PushChange| c.tagged;
    let f = d.filter(is_tagged);
    delta::law_push_brings_the_entries(t.local@, t.remote@, graph, t.command.all);
    assert forall|i: int|
        0 <= i < t.local@.len() && (#[trigger] t.local@[i]).tagged && is_to_bring(
            t,
            t.local@[i],
        ) implies sent.contains(t.local@[i].state) by {
        if !t.command.all {
            assert(delta::is_unknown(t.local@[i].hash, t.remote@));
        }
        assert(delta::is_brought(t.local@[i], d));
        let k = choose|k: int| 0 <= k < d.len() && delta::carries(#[trigger] d[k], t.local@[i]);
        d.lemma_filter_contains(is_tagged, k);
        let m = choose|m: int| 0 <= m < f.len() && f[m] == d[k];
        assert(sent[m] == t.local@[i].state);
    }
    assert forall|k: int| 0 <= k < sent.len() implies is_tag_owed(t, #[trigger] sent[k]) by {
        assert(f.contains(f[k]));
        d.lemma_filter_pred(is_tagged, k);
        d.lemma_filter_contains_rev(is_tagged, f[k]);
        let m = choose|m: int| 0 <= m < d.len() && d[m] == f[k];
        assert(delta::is_wanted(d[m], t.local@, t.remote@, t.command.all));
        let i = choose|i: int|
            0 <= i < t.local@.len() && delta::carries(d[m], #[trigger] t.local@[i]) && (
            t.command.all || delta::is_unknown(t.local@[i].hash, t.remote@));
        assert(t.local@[i].tagged);
    }
}

/// What a push does about a failure: one that it cannot do without ends it, and nothing else
/// does; what is attached to the changes is passed over where it cannot be uploaded.
pub proof fn law_push_ends_on_what_it_needs(
    s: PushSession,
    e: PushEvent,
    t: PushSession,
    a: PushAction,
)
    requires
        session::advances(s, e, t, a),
    ensures
        a is Abort <==> e is Failed && (s.phase is Connecting || s.phase is QueryingState || s.phase
            is LoadingHistory || s.phase is FetchingChangelist || s.phase is Forking || s.phase
            is Uploading || s.phase is UploadingTags),
        a is Abort ==> t.phase is Finished,
        is_last(a) <==> t.phase is Finished && s.phase !is Finished,
        s.phase is SendingAttestations && e is Failed ==> a is SendAttestation || a
            is FindProvenance,
        s.phase is SendingProvenance && e is Failed ==> a is SendProvenance || a is Complete,
        s.phase is Uploading && e is Uploaded ==> !(a is Unexpected),
        s.phase is UploadingTags && e is Uploaded ==> !(a is Unexpected),
        s.phase is Forking && e is Forked ==> !(a is Unexpected),
        s.phase is FindingAttestations && e is Found ==> a is SendAttestation || a
            is FindProvenance,
        s.phase is FindingProvenance && e is Found ==> a is SendProvenance || a is Complete,
{
}

/// How many times an attestation, or a provenance graph, was uploaded.
pub open spec fn synced(
    states: Seq<PushSession>,
    events: Seq<PushEvent>,
    provenance: bool,
) -> nat
    decreases events.len(),
{
    if events.len() == 0 || states.len() != events.len() + 1 {
        0
    } else {
        let rest = synced(states.drop_last(), events.drop_last(), provenance);
        if laws::is_sending(states[events.len() - 1].phase, provenance) && events.last()
            is Uploaded {
            rest + 1
        } else {
            rest
        }
    }
}

/// What was last found of attestations, or of provenance graphs.
pub open spec fn found_of(
    states: Seq<PushSession>,
    events: Seq<PushEvent>,
    provenance: bool,
) -> Seq<Attached>
    decreases events.len(),
{
    if events.len() == 0 || states.len() != events.len() + 1 {
        Seq::empty()
    } else {
        match events.last() {
            PushEvent::Found(found) => if laws::is_finding(
                states[events.len() - 1].phase,
                provenance,
            ) {
                found@
            } else {
                found_of(states.drop_last(), events.drop_last(), provenance)
            },
            _ => found_of(states.drop_last(), events.drop_last(), provenance),
        }
    }
}

/// The attestations, or the provenance graphs, that are uploaded, in their order.
pub open spec fn attached_sent(actions: Seq<PushAction>, provenance: bool) -> Seq<ChangeHash>
    decreases actions.len(),
{
    if actions.len() == 0 {
        Seq::empty()
    } else {
        let rest = attached_sent(actions.drop_last(), provenance);
        match actions.last() {
            PushAction::SendAttestation { hash } => if provenance {
                rest
            } else {
                rest.push(hash)
            },
            PushAction::SendProvenance { hash } => if provenance {
                rest.push(hash)
            } else {
                rest
            },
            _ => rest,
        }
    }
}

/// What has been uploaded of what is attached when a push is at `t`.
spec fn is_attached(
    t: PushSession,
    sent: Seq<ChangeHash>,
    found: Seq<Attached>,
    count: nat,
    provenance: bool,
) -> bool {
    let all = attach::selected(found, session::hashes(t.delta()));
    let counted = if provenance {
        t.stats.provenance_synced
    } else {
        t.stats.attestations_synced
    };
    let before = match t.phase {
        PushPhase::SendingAttestations | PushPhase::FindingProvenance => provenance,
        PushPhase::SendingProvenance => false,
        PushPhase::Finished => false,
        _ => true,
    };
    &&& count == counted
    &&& before ==> sent.len() == 0 && count == 0
    &&& laws::is_sending(t.phase, provenance) ==> {
        &&& t.selected@ == all
        &&& sent == all.take(t.next + 1)
    }
    &&& !provenance && (t.phase is FindingProvenance || t.phase is SendingProvenance) ==> sent
        == all
}

/// At every step of a push, so much has been uploaded of what is attached.
#[verifier::rlimit(100)]
proof fn lemma_attached(
    states: Seq<PushSession>,
    events: Seq<PushEvent>,
    actions: Seq<PushAction>,
    provenance: bool,
)
    requires
        laws::is_run(states, events, actions),
    ensures
        is_attached(
            states.last(),
            attached_sent(actions, provenance),
            found_of(states, events, provenance),
            synced(states, events, provenance),
            provenance,
        ),
        actions.len() > 0 && actions.last() is Complete && laws::uploaded(actions).len() > 0
            ==> attached_sent(actions, provenance) == attach::selected(
            found_of(states, events, provenance),
            session::hashes(states.last().delta()),
        ),
    decreases actions.len(),
{
    if actions.len() > 0 {
        let ss = states.drop_last();
        let es = events.drop_last();
        let acts = actions.drop_last();
        assert forall|i: int| 0 <= i < es.len() implies session::advances(
            ss[i],
            es[i],
            ss[i + 1],
            #[trigger] acts[i],
        ) by {
            assert(acts[i] == actions[i]);
        }
        lemma_attached(ss, es, acts, provenance);
        let i = actions.len() - 1;
        laws::lemma_run_inv(states, events, actions, i);
        laws::lemma_run_inv(states, events, actions, i + 1);
        laws::lemma_sent(ss, es, acts);
        laws::lemma_sent(states, events, actions);
        let s = states[i];
        let t = states[i + 1];
        assert(session::advances(s, events[i], t, actions[i]));
        assert(s.selected.len() == s.selected@.len());
        assert(s.new_changes.len() == s.new_changes@.len());
        assert(s.tags.len() == s.tags@.len());
        let all = attach::selected(
            found_of(states, events, provenance),
            session::hashes(t.delta()),
        );
        let sent = attached_sent(acts, provenance);
        assert(all.take(all.len() as int) =~= all);
        if laws::is_sending(s.phase, provenance) {
            if s.next + 1 < all.len() {
                assert(all.take(s.next + 1).push(all[s.next + 1]) =~= all.take(s.next + 2));
            } else {
                assert(all.take(s.next + 1) =~= all);
            }
        }
        if laws::is_finding(s.phase, provenance) {
            if all.len() > 0 {
                assert(sent.push(all[0]) =~= all.take(1));
            } else {
                assert(sent =~= all);
            }
        }
    }
}

/// A push that uploaded changes and completes has uploaded all attestations that were found for
/// them and cover nothing else, and all provenance graphs that were found for them and explain
/// nothing else, each once and in the order in which they were found first.
pub proof fn law_push_uploads_all_that_is_attached(
    states: Seq<PushSession>,
    events: Seq<PushEvent>,
    actions: Seq<PushAction>,
    provenance: bool,
)
    requires
        laws::is_run(states, events, actions),
        actions.len() > 0,
        actions.last() is Complete,
        laws::uploaded(actions).len() > 0,
    ensures
        attached_sent(actions, provenance) == attach::selected(
            found_of(states, events, provenance),
            session::hashes(states.last().delta()),
        ),
{
    lemma_attached(states, events, actions, provenance);
}

/// What is said of so many attestations or provenance graphs.
pub open spec fn also(count: nat, noun: Seq<char>) -> Seq<char> {
    if count == 0 {
        Seq::empty()
    } else {
        ", "@ + text::counted(count, noun) + " synced"@
    }
}

/// What a push says at its end is what it did: how many changes it uploaded, how many the remote
/// took over from `dev`, and how many attestations and provenance graphs went along. One that
/// had nothing to upload says that the view was made.
pub proof fn law_push_says_what_it_did(
    states: Seq<PushSession>,
    events: Seq<PushEvent>,
    actions: Seq<PushAction>,
)
    requires
        laws::is_run(states, events, actions),
        actions.len() > 0,
        actions.last() is Complete,
    ensures
        ({
            let t = states.last();
            let said = actions.last()->Complete_text@;
            let sent = laws::uploaded(actions).len();
            let taken = session::adopted(t.delta());
            &&& sent == 0 ==> said == "Push complete: "@ + states[0].remote_view@
                + " view created on "@ + states[0].command.remote@
            &&& sent > 0 ==> said == "Push complete: "@ + text::counted(sent, "change"@)
                + " uploaded"@ + (if taken == 0 {
                Seq::empty()
            } else {
                " (forked "@ + text::counted(taken, "change"@) + " from dev)"@
            }) + also(synced(states, events, false), "attestation"@) + also(
                synced(states, events, true),
                "provenance graph"@,
            )
        }),
{
    let i = actions.len() - 1;
    lemma_kept(states, events, actions, i);
    laws::lemma_run_inv(states, events, actions, i);
    laws::lemma_run_inv(states, events, actions, i + 1);
    laws::lemma_sent(states, events, actions);
    lemma_attached(states, events, actions, false);
    lemma_attached(states, events, actions, true);
    let s = states[i];
    let t = states[i + 1];
    assert(session::advances(s, events[i], t, actions[i]));
    assert(s.new_changes.len() == s.new_changes@.len());
    assert(s.tags.len() == s.tags@.len());
    assert(s.selected.len() == s.selected@.len());
    reveal_strlit("");
    reveal_strlit(" from ");
    reveal_strlit("dev");
    reveal_strlit(")");
    reveal_strlit(" from dev)");
    lemma_grounds(t);
    let taken = text::counted(session::adopted(t.delta()), "change"@);
    assert(" (forked "@ + taken + " from "@ + "dev"@ + ")"@ =~= " (forked "@ + taken
        + " from dev)"@);
    assert(""@ =~= Seq::<char>::empty());
}

/// The text begins with the scheme of the gRPC transport.
pub open spec fn is_grpc_text(url: Seq<char>) -> bool {
    (url.len() >= 7 && url.take(7) == "grpc://"@) || (url.len() >= 8 && url.take(8)
        == "grpcs://"@)
}

/// The name that was chosen, or the other one.
pub open spec fn name_or(choice: Option<String>, other: Seq<char>) -> Seq<char> {
    if choice is Some {
        choice->0@
    } else {
        other
    }
}

/// A push begins with the remote, the views and the options that were asked for: from the chosen
/// local view or the current one, to the chosen remote view or the one named like the local
/// view, at the address that the remote stands for, over gRPC exactly where the address says so.
pub proof fn law_push_begins_as_asked(
    command: Push,
    lookup: RemoteLookup,
    current: Seq<char>,
    start: Result<PushStart, CliError>,
)
    requires
        session::begins(command, lookup, current, start),
    ensures
        start matches Ok(PushStart::Http(s, a)) ==> {
            &&& !is_grpc_text(s.url@)
            &&& s.local_view@ == name_or(command.from_view, current)
            &&& s.remote_view@ == name_or(command.to_view, s.local_view@)
            &&& s.command == command
            &&& s.phase is Connecting
            &&& s.local@.len() == 0 && s.remote@.len() == 0 && s.source@.len() == 0
            &&& s.plan@.len() == 0
            &&& s.stats.changes_uploaded == 0 && s.stats.changes_adopted == 0
            &&& s.stats.tags_uploaded == 0
            &&& s.stats.attestations_synced == 0 && s.stats.provenance_synced == 0
            &&& a matches PushAction::Connect { url, config } && url@ == s.url@
                && config.timeout_secs == command.timeout && config.danger_accept_invalid_certs
                == command.insecure && config.identity_url@ == s.url@
        },
        start matches Ok(PushStart::Grpc { url, view, dry_run }) ==> {
            &&& is_grpc_text(url@)
            &&& view@ == name_or(command.to_view, name_or(command.from_view, current))
            &&& dry_run == command.dry_run
        },
        crate::remote::is_written_as_address(command.remote@) ==> start is Ok && (start->Ok_0
            matches PushStart::Http(s, _) ==> s.url@ == command.remote@) && (start->Ok_0
            matches PushStart::Grpc { url, .. } ==> url@ == command.remote@),
        !crate::remote::is_written_as_address(command.remote@) ==> match lookup {
            RemoteLookup::Found(found) => start is Ok && (start->Ok_0 matches PushStart::Http(s, _)
                ==> s.url == found) && (start->Ok_0 matches PushStart::Grpc { url, .. } ==> url
                == found),
            RemoteLookup::NotFound => start matches Err(CliError::RemoteNotFound { name }) && name@
                == command.remote@,
            RemoteLookup::Failed(why) => start matches Err(CliError::Repository(said)) && said
                == why,
        },
{
    crate::remote::lemma_address(command.remote@);
    reveal_strlit("grpc://");
    reveal_strlit("grpcs://");
    if let Ok(PushStart::Http(s, _)) = start {
        lemma_grpc_text(s.url@);
    }
    if let Ok(PushStart::Grpc { url, .. }) = start {
        lemma_grpc_text(url@);
    }
}

/// An address is one of the gRPC transport exactly where it begins like one.
proof fn lemma_grpc_text(url: Seq<char>)
    ensures
        is_grpc_text(url) <==> crate::transport::url::is_grpc(url),
{
    reveal_strlit("grpc://");
    reveal_strlit("grpcs://");
    if url.len() >= 7 {
        assert(url.take(7) =~= url.subrange(0, 7));
    }
    if url.len() >= 8 {
        assert(url.take(8) =~= url.subrange(0, 8));
    }
}

/// What a dry run of a push shows is its plan: a line for each change, in the order in which
/// they would go, with its hash and its message and nothing behind it, under their number and
/// the remote, and the remote's address below; or that there is nothing to push.
pub proof fn law_push_preview_lists_the_plan(
    s: PushSession,
    e: PushEvent,
    t: PushSession,
    a: PushAction,
)
    requires
        session::advances(s, e, t, a),
        a is ShowPreview,
    ensures
        ({
            let preview = a->ShowPreview_0;
            let plan = t.delta();
            &&& preview.rows@.len() == plan.len()
            &&& forall|k: int|
                0 <= k < plan.len() ==> (#[trigger] preview.rows@[k]).hash == plan[k].hash
                    && preview.rows@[k].message == plan[k].message && preview.rows@[k].marker@
                    == ""@
            &&& preview.headline@ == if plan.len() == 0 {
                "Already up to date - nothing to push"@
            } else {
                "Would push "@ + text::counted(plan.len(), "change"@) + " to "@
                    + s.command.remote@ + ":"@
            }
            &&& preview.hint is Some <==> plan.len() > 0
            &&& preview.hint matches Some(hint) ==> hint@ == "Remote URL: "@ + s.url@
        }),
{
}

/// How many uploads of changes, or of tagged states, were answered.
pub open spec fn answered(states: Seq<PushSession>, events: Seq<PushEvent>, tags: bool) -> nat
    decreases events.len(),
{
    if events.len() == 0 || states.len() != events.len() + 1 {
        0
    } else {
        let rest = answered(states.drop_last(), events.drop_last(), tags);
        match (states[events.len() - 1].phase, events.last()) {
            (PushPhase::Uploading, PushEvent::Uploaded) => if tags {
                rest
            } else {
                rest + 1
            },
            (PushPhase::UploadingTags, PushEvent::Uploaded) => if tags {
                rest + 1
            } else {
                rest
            },
            _ => rest,
        }
    }
}

/// A push counts as uploaded the changes and the tagged states whose uploads were answered, and
/// as taken over the changes of its plan that it does not upload.
pub proof fn law_push_counts_what_it_uploads(
    states: Seq<PushSession>,
    events: Seq<PushEvent>,
    actions: Seq<PushAction>,
)
    requires
        laws::is_run(states, events, actions),
    ensures
        states.last().stats.changes_uploaded == answered(states, events, false),
        states.last().stats.tags_uploaded == answered(states, events, true),
        states.last().stats.attestations_synced == synced(states, events, false),
        states.last().stats.provenance_synced == synced(states, events, true),
        states.last().stats.changes_adopted + states.last().new_changes@.len()
            == states.last().plan@.len() || states.last().plan@.len() == 0,
    decreases actions.len(),
{
    lemma_attached(states, events, actions, false);
    lemma_attached(states, events, actions, true);
    if actions.len() > 0 {
        let ss = states.drop_last();
        let es = events.drop_last();
        let acts = actions.drop_last();
        assert forall|i: int| 0 <= i < es.len() implies session::advances(
            ss[i],
            es[i],
            ss[i + 1],
            #[trigger] acts[i],
        ) by {
            assert(acts[i] == actions[i]);
        }
        law_push_counts_what_it_uploads(ss, es, acts);
        let i = actions.len() - 1;
        laws::lemma_run_inv(states, events, actions, i);
        let s = states[i];
        let t = states[i + 1];
        assert(session::advances(s, events[i], t, actions[i]));
        assert(s.new_changes.len() == s.new_changes@.len());
        assert(s.tags.len() == s.tags@.len());
        lemma_shares(t.plan@);
    }
}

/// Every change of a plan is uploaded or taken over, and none is both.
proof fn lemma_shares(plan: Seq<PushChange>)
    ensures
        session::fresh(plan).len() + session::adopted(plan) == plan.len(),
    decreases plan.len(),
{
    reveal(Seq::filter);
    if plan.len() > 0 {
        lemma_shares(plan.drop_last());
    }
}

/// A push without options goes from the current view to the view of the same name on the remote
/// `origin`. It is no dry run, uploads only what is missing, leaves a diverged remote
/// alone, verifies certificates and waits half a minute.
pub proof fn law_plain_push_is_with_origin(
    command: Push,
    lookup: RemoteLookup,
    current: Seq<char>,
    start: Result<PushStart, CliError>,
)
    requires
        command.is_plain(),
        session::begins(command, lookup, current, start),
    ensures
        lookup is NotFound ==> (start matches Err(CliError::RemoteNotFound { name }) && name@
            == "origin"@),
        lookup matches RemoteLookup::Found(found) ==> start is Ok && (start->Ok_0
            matches PushStart::Http(s, _) ==> s.url == found),
        start matches Ok(PushStart::Http(s, a)) ==> {
            &&& s.command.remote@ == "origin"@
            &&& s.local_view@ == current
            &&& s.remote_view@ == current
            &&& !s.command.dry_run && !s.command.all && !s.command.force
            &&& a matches PushAction::Connect { url, config } && config.timeout_secs == 30
                && !config.danger_accept_invalid_certs
        },
        start matches Ok(PushStart::Grpc { url, view, dry_run, .. }) ==> view@ == current
            && !dry_run,
{
    reveal_strlit("origin");
    reveal_strlit("://");
    law_push_begins_as_asked(command, lookup, current, start);
    if crate::remote::is_address("origin"@) {
        let i = choose|i: int| text::occurs_at("origin"@, "://"@, i);
        assert("origin"@.subrange(i, i + 3)[0] == "origin"@[i]);
    }
}

} // verus!
