//! What holds of a push as a whole.

use vstd::prelude::*;

use crate::history;
use crate::order;
use crate::order::Sequenced;
use crate::types::{ChangeHash, Merkle};

use super::attach;
use super::delta;
use super::session;
use super::session::{PushAction, PushEvent, PushPhase, PushSession};
use super::types::PushChange;

verus! {

/// A push from its first step on: `events[i]` leads from `states[i]` to `states[i + 1]`, and
/// `actions[i]` is what is done then.
pub open spec fn is_run(
    states: Seq<PushSession>,
    events: Seq<PushEvent>,
    actions: Seq<PushAction>,
) -> bool {
    &&& states.len() == events.len() + 1
    &&& actions.len() == events.len()
    &&& session::is_started(states[0], states[0].command)
    &&& states[0].inv()
    &&& forall|i: int|
        0 <= i < events.len() ==> session::advances(
            states[i],
            events[i],
            states[i + 1],
            #[trigger] actions[i],
        )
}

/// The action changes something on the remote.
pub open spec fn writes(action: PushAction) -> bool {
    match action {
        PushAction::Fork { .. } => true,
        PushAction::Upload { .. } => true,
        PushAction::UploadTag { .. } => true,
        PushAction::SendAttestation { .. } => true,
        PushAction::SendProvenance { .. } => true,
        _ => false,
    }
}

/// The changes that are uploaded, in their order.
pub open spec fn uploaded(actions: Seq<PushAction>) -> Seq<PushChange>
    decreases actions.len(),
{
    if actions.len() == 0 {
        Seq::empty()
    } else {
        match actions.last() {
            PushAction::Upload { change, .. } => uploaded(actions.drop_last()).push(change),
            _ => uploaded(actions.drop_last()),
        }
    }
}

/// Every step keeps what holds at every step.
pub proof fn lemma_inv_kept(s: PushSession, e: PushEvent, t: PushSession, a: PushAction)
    requires
        s.inv(),
        session::advances(s, e, t, a),
    ensures
        t.inv(),
        t.command == s.command,
        writes(a) ==> t.is_writing(),
        s.phase is Finished ==> t == s && a == PushAction::Unexpected,
{
    assert(s.new_changes.len() == s.new_changes@.len());
    assert(s.tags.len() == s.tags@.len());
    assert(s.selected.len() == s.selected@.len());
}

/// What holds at every step holds after any number of them.
pub proof fn lemma_run_inv(
    states: Seq<PushSession>,
    events: Seq<PushEvent>,
    actions: Seq<PushAction>,
    k: int,
)
    requires
        is_run(states, events, actions),
        0 <= k < states.len(),
    ensures
        states[k].inv(),
        states[k].command == states[0].command,
    decreases k,
{
    if k > 0 {
        lemma_run_inv(states, events, actions, k - 1);
        assert(session::advances(states[k - 1], events[k - 1], states[k], actions[k - 1]));
        lemma_inv_kept(states[k - 1], events[k - 1], states[k], actions[k - 1]);
    }
}

/// A dry run changes nothing on the remote.
pub proof fn law_dry_run_changes_nothing(
    states: Seq<PushSession>,
    events: Seq<PushEvent>,
    actions: Seq<PushAction>,
    i: int,
)
    requires
        is_run(states, events, actions),
        states[0].command.dry_run,
        0 <= i < actions.len(),
    ensures
        !writes(actions[i]),
{
    lemma_run_inv(states, events, actions, i);
    assert(session::advances(states[i], events[i], states[i + 1], actions[i]));
    lemma_inv_kept(states[i], events[i], states[i + 1], actions[i]);
}

/// Without force, nothing is changed on a remote that holds a change which the local
/// history lacks.
pub proof fn law_diverged_remote_is_left_alone(
    states: Seq<PushSession>,
    events: Seq<PushEvent>,
    actions: Seq<PushAction>,
    i: int,
)
    requires
        is_run(states, events, actions),
        !states[0].command.force,
        0 <= i < actions.len(),
        delta::diverged(states[i + 1].local@, states[i + 1].remote@),
    ensures
        !writes(actions[i]),
{
    lemma_run_inv(states, events, actions, i);
    assert(session::advances(states[i], events[i], states[i + 1], actions[i]));
    lemma_inv_kept(states[i], events[i], states[i + 1], actions[i]);
}

/// A view is made only where the remote view holds nothing, out of a default view that is
/// another one and holds something.
pub proof fn law_only_new_views_are_forked(
    states: Seq<PushSession>,
    events: Seq<PushEvent>,
    actions: Seq<PushAction>,
    i: int,
)
    requires
        is_run(states, events, actions),
        0 <= i < actions.len(),
        actions[i] is Fork,
    ensures
        states[i + 1].remote@.len() == 0,
        states[i + 1].remote_view@ != "dev"@,
        states[i + 1].source@.len() > 0,
{
    lemma_run_inv(states, events, actions, i);
    assert(session::advances(states[i], events[i], states[i + 1], actions[i]));
    lemma_inv_kept(states[i], events[i], states[i + 1], actions[i]);
}

/// After a failed upload, or a failure of any other step that a push cannot do without,
/// nothing is done any more.
pub proof fn law_failure_ends_the_push(
    states: Seq<PushSession>,
    events: Seq<PushEvent>,
    actions: Seq<PushAction>,
    i: int,
    j: int,
)
    requires
        is_run(states, events, actions),
        0 <= i < j < actions.len(),
        events[i] is Failed,
        session::aborts(states[i].phase),
    ensures
        actions[i] == PushAction::Abort,
        actions[j] == PushAction::Unexpected,
{
    assert(session::advances(states[i], events[i], states[i + 1], actions[i]));
    lemma_finished_stays(states, events, actions, i + 1, j);
    lemma_run_inv(states, events, actions, j);
    assert(session::advances(states[j], events[j], states[j + 1], actions[j]));
    lemma_inv_kept(states[j], events[j], states[j + 1], actions[j]);
}

proof fn lemma_finished_stays(
    states: Seq<PushSession>,
    events: Seq<PushEvent>,
    actions: Seq<PushAction>,
    i: int,
    j: int,
)
    requires
        is_run(states, events, actions),
        0 <= i <= j < states.len(),
        states[i].phase is Finished,
    ensures
        states[j] == states[i],
    decreases j - i,
{
    if i < j {
        lemma_finished_stays(states, events, actions, i, j - 1);
        lemma_run_inv(states, events, actions, j - 1);
        assert(session::advances(states[j - 1], events[j - 1], states[j], actions[j - 1]));
        lemma_inv_kept(states[j - 1], events[j - 1], states[j], actions[j - 1]);
    }
}

/// What has been uploaded when a push is at `t`.
pub open spec fn is_sent(t: PushSession, sent: Seq<PushChange>) -> bool {
    match t.phase {
        PushPhase::Uploading => sent == t.new_changes@.take(t.next + 1),
        PushPhase::UploadingTags
        | PushPhase::FindingAttestations
        | PushPhase::SendingAttestations
        | PushPhase::FindingProvenance
        | PushPhase::SendingProvenance => sent == t.new_changes@,
        PushPhase::Finished => {
            &&& sent.len() > 0 ==> t.plan@ == t.delta() && t.new_changes@ == session::fresh(
                t.plan@,
            )
            &&& sent.len() <= t.new_changes@.len()
            &&& sent == t.new_changes@.take(sent.len() as int)
        },
        _ => sent.len() == 0,
    }
}

#[verifier::rlimit(30)]
proof fn lemma_sent_step(
    s: PushSession,
    e: PushEvent,
    t: PushSession,
    a: PushAction,
    before: Seq<PushChange>,
    after: Seq<PushChange>,
)
    requires
        s.inv(),
        session::advances(s, e, t, a),
        is_sent(s, before),
        after == match a {
            PushAction::Upload { change, .. } => before.push(change),
            _ => before,
        },
    ensures
        is_sent(t, after),
        a is Complete ==> t.new_changes@ == session::fresh(t.delta()) && after == t.new_changes@,
{
    assert(s.new_changes.len() == s.new_changes@.len());
    assert(s.tags.len() == s.tags@.len());
    assert(s.selected.len() == s.selected@.len());
    assert(before =~= before.take(before.len() as int));
    match s.phase {
        PushPhase::Uploading => {
            if s.next + 1 < s.new_changes@.len() {
                assert(s.new_changes@.take(s.next + 1).push(s.new_changes@[s.next + 1])
                    =~= s.new_changes@.take(s.next + 2));
            } else {
                assert(s.new_changes@.take(s.next + 1) =~= s.new_changes@);
            }
        },
        _ => {
            assert(before.len() == 0 ==> before =~= t.new_changes@.take(0));
            if before.len() == 0 && t.new_changes@.len() == 0 {
                assert(before =~= t.new_changes@);
            }
            if a is Upload {
                assert(before.push(t.new_changes@[0]) =~= t.new_changes@.take(1));
            }
        },
    }
}

/// The changes that a push uploads are those whose data the remote lacks, in dependency
/// order, without a gap; a push that completes has uploaded them all.
pub proof fn law_uploads_follow_the_plan(
    states: Seq<PushSession>,
    events: Seq<PushEvent>,
    actions: Seq<PushAction>,
)
    requires
        is_run(states, events, actions),
    ensures
        uploaded(actions).len() > 0 ==> {
            &&& uploaded(actions).len() <= session::fresh(states.last().delta()).len()
            &&& uploaded(actions) == session::fresh(states.last().delta()).take(
                uploaded(actions).len() as int,
            )
        },
        actions.len() > 0 && actions.last() is Complete ==> uploaded(actions) == session::fresh(
            states.last().delta(),
        ),
        order::in_order(uploaded(actions)),
{
    lemma_sent(states, events, actions);
    lemma_run_inv(states, events, actions, states.len() - 1);
    let t = states.last();
    let sent = uploaded(actions);
    assert(sent =~= sent.take(sent.len() as int));
    if t.phase is Uploading {
        assert(sent.len() == t.next + 1);
    }
    if sent.len() > 0 {
        delta::law_push_in_dependency_order(
            t.local@,
            t.remote@,
            session::graph_of(t.source@, t.remote@),
            t.command.all,
        );
        lemma_fresh(t.delta());
    }
}

/// A change that the remote holds already, in the view that is pushed to or in the one that
/// it is made of, is not uploaded, unless all changes are asked for.
pub proof fn law_known_changes_are_not_uploaded(
    states: Seq<PushSession>,
    events: Seq<PushEvent>,
    actions: Seq<PushAction>,
    i: int,
)
    requires
        is_run(states, events, actions),
        0 <= i < uploaded(actions).len(),
        !states.last().command.all,
    ensures
        !history::remote_has(states.last().remote@, uploaded(actions)[i].hash),
        !history::remote_has(states.last().source@, uploaded(actions)[i].hash),
        history::local_has(states.last().local@, uploaded(actions)[i].hash),
{
    law_uploads_follow_the_plan(states, events, actions);
    let t = states.last();
    let graph = session::graph_of(t.source@, t.remote@);
    let plan = t.delta();
    let change = uploaded(actions)[i];
    delta::law_push_in_dependency_order(t.local@, t.remote@, graph, t.command.all);
    delta::law_push_brings_what_is_missing(t.local@, t.remote@, graph, t.command.all);
    lemma_fresh(plan);
    assert(session::fresh(plan)[i] == change);
    assert(session::fresh(plan).contains(change));
    assert(plan.contains(change));
    assert(!graph.contains(change.hash));
}

/// A push of all changes that completes has uploaded every local change, whatever the remote
/// holds, in dependency order.
pub proof fn law_all_changes_are_uploaded(
    states: Seq<PushSession>,
    events: Seq<PushEvent>,
    actions: Seq<PushAction>,
)
    requires
        is_run(states, events, actions),
        actions.len() > 0,
        actions.last() is Complete,
        states.last().command.all,
    ensures
        uploaded(actions) == states.last().delta(),
        uploaded(actions).len() == states.last().local@.len(),
        forall|i: int|
            0 <= i < states.last().local@.len() ==> uploaded(actions).contains(
                delta::change_of(
                    #[trigger] states.last().local@[i],
                    session::graph_of(states.last().source@, states.last().remote@),
                    true,
                ),
            ),
{
    law_uploads_follow_the_plan(states, events, actions);
    let t = states.last();
    let graph = session::graph_of(t.source@, t.remote@);
    let plan = t.delta();
    delta::law_push_brings_what_is_missing(t.local@, t.remote@, graph, true);
    assert forall|i: int| 0 <= i < plan.len() implies !(#[trigger] plan[i]).in_graph by {
        assert(plan.contains(plan[i]));
    }
    lemma_all_fresh(plan);
}

/// Where the remote graph holds none of the changes, all of them are to be uploaded.
proof fn lemma_all_fresh(plan: Seq<PushChange>)
    requires
        forall|i: int| 0 <= i < plan.len() ==> !(#[trigger] plan[i]).in_graph,
    ensures
        session::fresh(plan) == plan,
    decreases plan.len(),
{
    reveal(Seq::filter);
    if plan.len() > 0 {
        lemma_all_fresh(plan.drop_last());
        assert(!plan.last().in_graph);
        assert(plan.drop_last().push(plan.last()) =~= plan);
    } else {
        assert(session::fresh(plan) =~= plan);
    }
}

/// Attestations and provenance graphs go to the remote only after all changes whose data it
/// lacks.
pub proof fn law_attached_follow_the_changes(
    states: Seq<PushSession>,
    events: Seq<PushEvent>,
    actions: Seq<PushAction>,
)
    requires
        is_run(states, events, actions),
        actions.len() > 0,
        actions.last() is SendAttestation || actions.last() is SendProvenance,
    ensures
        uploaded(actions) == session::fresh(states.last().delta()),
{
    lemma_sent(states, events, actions);
    lemma_run_inv(states, events, actions, states.len() - 1);
    let i = actions.len() - 1;
    lemma_run_inv(states, events, actions, i);
    assert(session::advances(states[i], events[i], states[i + 1], actions[i]));
}

proof fn lemma_fresh(plan: Seq<PushChange>)
    requires
        order::in_order(plan),
    ensures
        order::in_order(session::fresh(plan)),
        forall|c: PushChange| session::fresh(plan).contains(c) ==> #[trigger] plan.contains(c),
        forall|i: int|
            0 <= i < session::fresh(plan).len() ==> !(#[trigger] session::fresh(plan)[i]).in_graph,
    decreases plan.len(),
{
    reveal(Seq::filter);
    let f = session::fresh(plan);
    if plan.len() > 0 {
        let rest = plan.drop_last();
        let fr = session::fresh(rest);
        lemma_fresh(rest);
        assert forall|c: PushChange| f.contains(c) implies #[trigger] plan.contains(c) by {
            let k = choose|k: int| 0 <= k < f.len() && f[k] == c;
            if k < fr.len() {
                assert(fr[k] == c);
                assert(fr.contains(c));
                assert(rest.contains(c));
                let j = choose|j: int| 0 <= j < rest.len() && rest[j] == c;
                assert(plan[j] == c);
            } else {
                assert(plan[plan.len() - 1] == c);
            }
        }
        assert forall|i: int, j: int| 0 <= i <= j < f.len() implies f[i].place()
            <= f[j].place() by {
            if i < fr.len() && j == fr.len() {
                assert(fr[i] == f[i]);
                assert(fr.contains(fr[i]));
                assert(rest.contains(fr[i]));
                let m = choose|m: int| 0 <= m < rest.len() && rest[m] == fr[i];
                assert(plan[m].place() <= plan[plan.len() - 1].place());
            } else if j < fr.len() {
                assert(fr[i].place() <= fr[j].place());
            }
        }
    }
}

/// What has been uploaded fits where the push is.
pub proof fn lemma_sent(states: Seq<PushSession>, events: Seq<PushEvent>, actions: Seq<PushAction>)
    requires
        is_run(states, events, actions),
    ensures
        is_sent(states.last(), uploaded(actions)),
        actions.len() > 0 && actions.last() is Complete ==> uploaded(actions) == session::fresh(
            states.last().delta(),
        ),
    decreases actions.len(),
{
    if actions.len() > 0 {
        let ss = states.drop_last();
        let es = events.drop_last();
        let acts = actions.drop_last();
        assert forall|i: int| 0 <= i < es.len() implies session::advances(
            ss[i],
            es[i],
            ss[i + 1],
            #[trigger] acts[i],
        ) by {
            assert(acts[i] == actions[i]);
        }
        lemma_sent(ss, es, acts);
        lemma_run_inv(ss, es, acts, ss.len() - 1);
        let i = actions.len() - 1;
        assert(session::advances(states[i], events[i], states[i + 1], actions[i]));
        lemma_sent_step(
            states[i],
            events[i],
            states[i + 1],
            actions[i],
            uploaded(acts),
            uploaded(actions),
        );
    }
}

/// The step of the phase looks for provenance graphs, or for attestations.
pub open spec fn is_finding(phase: PushPhase, provenance: bool) -> bool {
    if provenance {
        phase is FindingProvenance
    } else {
        phase is FindingAttestations
    }
}

/// The step of the phase uploads provenance graphs, or attestations.
pub open spec fn is_sending(phase: PushPhase, provenance: bool) -> bool {
    if provenance {
        phase is SendingProvenance
    } else {
        phase is SendingAttestations
    }
}

/// What goes along is what was selected of the find at `j`.
pub open spec fn selected_at(
    states: Seq<PushSession>,
    events: Seq<PushEvent>,
    j: int,
    provenance: bool,
    selected: Seq<ChangeHash>,
    pushed: Seq<ChangeHash>,
) -> bool {
    &&& 0 <= j < events.len()
    &&& is_finding(states[j].phase, provenance)
    &&& events[j] matches PushEvent::Found(found) && selected == attach::selected(found@, pushed)
}

proof fn lemma_selected(
    states: Seq<PushSession>,
    events: Seq<PushEvent>,
    actions: Seq<PushAction>,
    k: int,
    provenance: bool,
)
    requires
        is_run(states, events, actions),
        0 <= k < states.len(),
        is_sending(states[k].phase, provenance),
    ensures
        exists|j: int|
            j < k && #[trigger] selected_at(
                states,
                events,
                j,
                provenance,
                states[k].selected@,
                session::hashes(states[k].plan@),
            ),
    decreases k,
{
    assert(k > 0);
    lemma_run_inv(states, events, actions, k - 1);
    let s = states[k - 1];
    assert(session::advances(s, events[k - 1], states[k], actions[k - 1]));
    if is_finding(s.phase, provenance) {
        assert(selected_at(
            states,
            events,
            k - 1,
            provenance,
            states[k].selected@,
            session::hashes(states[k].plan@),
        ));
    } else {
        assert(is_sending(s.phase, provenance));
        lemma_selected(states, events, actions, k - 1, provenance);
        let j = choose|j: int|
            j < k - 1 && #[trigger] selected_at(
                states,
                events,
                j,
                provenance,
                s.selected@,
                session::hashes(s.plan@),
            );
        assert(selected_at(
            states,
            events,
            j,
            provenance,
            states[k].selected@,
            session::hashes(states[k].plan@),
        ));
    }
}

/// An attestation goes along only where it was found for the pushed changes and covers
/// nothing else; a provenance graph only where it was found for them and explains nothing
/// else.
pub proof fn law_attached_belong_to_the_push(
    states: Seq<PushSession>,
    events: Seq<PushEvent>,
    actions: Seq<PushAction>,
    i: int,
    hash: ChangeHash,
    provenance: bool,
)
    requires
        is_run(states, events, actions),
        0 <= i < actions.len(),
        actions[i] == if provenance {
            (PushAction::SendProvenance { hash })
        } else {
            (PushAction::SendAttestation { hash })
        },
    ensures
        exists|j: int, n: int|
            0 <= j <= i && is_finding(states[j].phase, provenance)
                && #[trigger] is_covered_find(
                events[j],
                n,
                hash,
                session::hashes(states[i + 1].delta()),
            ),
{
    lemma_run_inv(states, events, actions, i);
    assert(session::advances(states[i], events[i], states[i + 1], actions[i]));
    lemma_inv_kept(states[i], events[i], states[i + 1], actions[i]);
    let t = states[i + 1];
    assert(is_sending(t.phase, provenance));
    lemma_selected(states, events, actions, i + 1, provenance);
    let pushed = session::hashes(t.plan@);
    let j = choose|j: int|
        j < i + 1 && #[trigger] selected_at(
            states,
            events,
            j,
            provenance,
            t.selected@,
            pushed,
        );
    let found = events[j]->Found_0@;
    assert(t.selected@[t.next as int] == hash);
    assert(t.selected@.contains(hash));
    attach::law_attached_are_covered(found, pushed);
    let n = choose|n: int|
        attach::is_first_of(found, hash, n) && attach::is_covered(
            (#[trigger] found[n]).covers@,
            pushed,
        );
    assert(is_covered_find(events[j], n, hash, pushed));
}

/// The `n`-th find of the event has this hash and covers none but the pushed changes.
pub open spec fn is_covered_find(
    event: PushEvent,
    n: int,
    hash: ChangeHash,
    pushed: Seq<ChangeHash>,
) -> bool {
    event matches PushEvent::Found(found) && 0 <= n < found@.len() && found@[n].hash == hash
        && attach::is_covered(found@[n].covers@, pushed)
}

/// How far a push has come.
spec fn rank(phase: PushPhase) -> int {
    match phase {
        PushPhase::Connecting => 0,
        PushPhase::QueryingState => 1,
        PushPhase::LoadingHistory => 2,
        PushPhase::FetchingChangelist => 3,
        PushPhase::QueryingDefault => 4,
        PushPhase::FetchingDefault => 5,
        PushPhase::Forking => 6,
        PushPhase::Uploading => 7,
        PushPhase::UploadingTags => 8,
        PushPhase::FindingAttestations => 9,
        PushPhase::SendingAttestations => 10,
        PushPhase::FindingProvenance => 11,
        PushPhase::SendingProvenance => 12,
        PushPhase::Finished => 13,
    }
}

/// A push never goes back, and while it uploads attestations or provenance graphs it goes
/// through one list from the front.
proof fn lemma_onward(
    states: Seq<PushSession>,
    events: Seq<PushEvent>,
    actions: Seq<PushAction>,
    k: int,
    m: int,
)
    requires
        is_run(states, events, actions),
        0 <= k <= m < states.len(),
    ensures
        rank(states[k].phase) <= rank(states[m].phase),
        forall|provenance: bool| #[trigger]
            is_sending(states[k].phase, provenance) && is_sending(states[m].phase, provenance)
                ==> {
                &&& states[m].selected == states[k].selected
                &&& states[k].next <= states[m].next
            },
    decreases m - k,
{
    if k < m {
        lemma_onward(states, events, actions, k, m - 1);
        lemma_run_inv(states, events, actions, m - 1);
        assert(session::advances(states[m - 1], events[m - 1], states[m], actions[m - 1]));
        let s = states[m - 1];
        assert(s.selected.len() == s.selected@.len());
    }
}

/// No attestation and no provenance graph is uploaded twice.
pub proof fn law_attached_are_sent_once(
    states: Seq<PushSession>,
    events: Seq<PushEvent>,
    actions: Seq<PushAction>,
    i: int,
    j: int,
)
    requires
        is_run(states, events, actions),
        0 <= i < j < actions.len(),
        actions[i] is SendAttestation || actions[i] is SendProvenance,
    ensures
        actions[j] != actions[i],
{
    let provenance = actions[i] is SendProvenance;
    if actions[j] == actions[i] {
        lemma_run_inv(states, events, actions, i);
        lemma_run_inv(states, events, actions, j);
        assert(session::advances(states[i], events[i], states[i + 1], actions[i]));
        assert(session::advances(states[j], events[j], states[j + 1], actions[j]));
        let s = states[j];
        assert(s.selected.len() == s.selected@.len());
        assert(is_sending(states[i + 1].phase, provenance));
        assert(is_sending(states[j + 1].phase, provenance));
        lemma_onward(states, events, actions, i + 1, j);
        lemma_onward(states, events, actions, i + 1, j + 1);
        assert(is_sending(s.phase, provenance));
        lemma_selected(states, events, actions, i + 1, provenance);
        let k = choose|k: int|
            k < i + 1 && #[trigger] selected_at(
                states,
                events,
                k,
                provenance,
                states[i + 1].selected@,
                session::hashes(states[i + 1].plan@),
            );
        attach::law_attached_once(
            events[k]->Found_0@,
            session::hashes(states[i + 1].plan@),
        );
        assert(states[i + 1].next < states[j + 1].next);
    }
}

/// The tagged states that are uploaded, in their order.
pub open spec fn tags_uploaded(actions: Seq<PushAction>) -> Seq<Merkle>
    decreases actions.len(),
{
    if actions.len() == 0 {
        Seq::empty()
    } else {
        match actions.last() {
            PushAction::UploadTag { state, .. } => tags_uploaded(actions.drop_last()).push(state),
            _ => tags_uploaded(actions.drop_last()),
        }
    }
}

/// What tagged states have been uploaded when a push is at `t`.
spec fn is_tagged(t: PushSession, sent: Seq<Merkle>) -> bool {
    let all = session::tagged_states(t.plan@);
    match t.phase {
        PushPhase::UploadingTags => sent == all.take(t.next + 1),
        PushPhase::FindingAttestations
        | PushPhase::SendingAttestations
        | PushPhase::FindingProvenance
        | PushPhase::SendingProvenance => sent == all,
        PushPhase::Finished => {
            &&& sent.len() > 0 ==> t.plan@ == t.delta()
            &&& sent.len() <= all.len()
            &&& sent == all.take(sent.len() as int)
        },
        _ => sent.len() == 0,
    }
}

#[verifier::rlimit(30)]
proof fn lemma_tags_step(
    s: PushSession,
    e: PushEvent,
    t: PushSession,
    a: PushAction,
    before: Seq<Merkle>,
    after: Seq<Merkle>,
)
    requires
        s.inv(),
        session::advances(s, e, t, a),
        is_tagged(s, before),
        after == match a {
            PushAction::UploadTag { state, .. } => before.push(state),
            _ => before,
        },
    ensures
        is_tagged(t, after),
        a is Complete ==> t.plan@ == t.delta() && after == session::tagged_states(t.plan@),
{
    assert(s.tags.len() == s.tags@.len());
    assert(s.selected.len() == s.selected@.len());
    assert(before =~= before.take(before.len() as int));
    let all = session::tagged_states(t.plan@);
    match s.phase {
        PushPhase::UploadingTags => {
            if s.next + 1 < all.len() {
                assert(all.take(s.next + 1).push(all[s.next + 1]) =~= all.take(s.next + 2));
            } else {
                assert(all.take(s.next + 1) =~= all);
            }
            assert(all.take(all.len() as int) =~= all);
        },
        _ => {
            assert(all.take(all.len() as int) =~= all);
            if before.len() == 0 {
                assert(before =~= all.take(0));
                if all.len() == 0 {
                    assert(before =~= all);
                }
            }
            if a is UploadTag {
                assert(before.push(all[0]) =~= all.take(1));
            }
        },
    }
}

proof fn lemma_tags(states: Seq<PushSession>, events: Seq<PushEvent>, actions: Seq<PushAction>)
    requires
        is_run(states, events, actions),
    ensures
        is_tagged(states.last(), tags_uploaded(actions)),
        actions.len() > 0 && actions.last() is Complete ==> tags_uploaded(actions)
            == session::tagged_states(states.last().delta()),
    decreases actions.len(),
{
    if actions.len() > 0 {
        let ss = states.drop_last();
        let es = events.drop_last();
        let acts = actions.drop_last();
        assert forall|i: int| 0 <= i < es.len() implies session::advances(
            ss[i],
            es[i],
            ss[i + 1],
            #[trigger] acts[i],
        ) by {
            assert(acts[i] == actions[i]);
        }
        lemma_tags(ss, es, acts);
        lemma_run_inv(ss, es, acts, ss.len() - 1);
        let i = actions.len() - 1;
        assert(session::advances(states[i], events[i], states[i + 1], actions[i]));
        lemma_tags_step(
            states[i],
            events[i],
            states[i + 1],
            actions[i],
            tags_uploaded(acts),
            tags_uploaded(actions),
        );
    }
}

/// The tagged states that a push uploads are those after the changes that it brings, in
/// their order and without a gap, and none of them before all changes are on the remote; a
/// push that completes has uploaded them all.
pub proof fn law_tagged_states_follow_the_changes(
    states: Seq<PushSession>,
    events: Seq<PushEvent>,
    actions: Seq<PushAction>,
)
    requires
        is_run(states, events, actions),
    ensures
        tags_uploaded(actions).len() > 0 ==> {
            let all = session::tagged_states(states.last().delta());
            &&& tags_uploaded(actions).len() <= all.len()
            &&& tags_uploaded(actions) == all.take(tags_uploaded(actions).len() as int)
        },
        actions.len() > 0 && actions.last() is UploadTag ==> uploaded(actions) == session::fresh(
            states.last().delta(),
        ),
        actions.len() > 0 && actions.last() is Complete ==> tags_uploaded(actions)
            == session::tagged_states(states.last().delta()),
{
    lemma_tags(states, events, actions);
    lemma_sent(states, events, actions);
    lemma_run_inv(states, events, actions, states.len() - 1);
    let sent = tags_uploaded(actions);
    assert(sent =~= sent.take(sent.len() as int));
    if actions.len() > 0 {
        let i = actions.len() - 1;
        lemma_run_inv(states, events, actions, i);
        assert(session::advances(states[i], events[i], states[i + 1], actions[i]));
    }
}

} // verus!
