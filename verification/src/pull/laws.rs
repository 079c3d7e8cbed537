//! What holds of a pull as a whole.

use vstd::prelude::*;

use crate::order;
use crate::types::{ChangeHash, Merkle};

use super::delta;
use super::session;
use super::session::{PullAction, PullEvent, PullPhase, PullSession};
use super::types::PullChange;

verus! {

/// A pull from its first step on: `events[i]` leads from `states[i]` to `states[i + 1]`, and
/// `actions[i]` is what is done then.
pub open spec fn is_run(
    states: Seq<PullSession>,
    events: Seq<PullEvent>,
    actions: Seq<PullAction>,
) -> bool {
    &&& states.len() == events.len() + 1
    &&& actions.len() == events.len()
    &&& session::is_started(states[0], states[0].command)
    &&& states[0].inv()
    &&& forall|i: int|
        0 <= i < events.len() ==> session::advances(
            states[i],
            events[i],
            states[i + 1],
            #[trigger] actions[i],
        )
}

/// The action changes the local view, the working copy or the vault.
pub open spec fn applies(action: PullAction) -> bool {
    match action {
        PullAction::Apply { .. } => true,
        PullAction::Materialize => true,
        PullAction::Enrich => true,
        PullAction::MaterializeVault => true,
        _ => false,
    }
}

/// The action ends a pull that had something to download and was not broken off.
pub open spec fn is_end(action: PullAction) -> bool {
    action is Complete || action is Downloaded || action is Fail
}

/// The changes that are downloaded, in their order.
pub open spec fn downloaded(actions: Seq<PullAction>) -> Seq<PullChange>
    decreases actions.len(),
{
    if actions.len() == 0 {
        Seq::empty()
    } else {
        match actions.last() {
            PullAction::Download { change, .. } => downloaded(actions.drop_last()).push(change),
            _ => downloaded(actions.drop_last()),
        }
    }
}

/// The changes that are applied, in their order.
pub open spec fn applied(actions: Seq<PullAction>) -> Seq<ChangeHash>
    decreases actions.len(),
{
    if actions.len() == 0 {
        Seq::empty()
    } else {
        match actions.last() {
            PullAction::Apply { hash, .. } => applied(actions.drop_last()).push(hash),
            _ => applied(actions.drop_last()),
        }
    }
}

/// The hashes of the changes.
pub open spec fn hashes(plan: Seq<PullChange>) -> Seq<ChangeHash> {
    plan.map_values(|c: PullChange| c.hash)
}

/// Every step keeps what holds at every step.
pub proof fn lemma_inv_kept(s: PullSession, e: PullEvent, t: PullSession, a: PullAction)
    requires
        s.inv(),
        session::advances(s, e, t, a),
    ensures
        t.inv(),
        t.command == s.command,
        a is Download || a is DownloadTag ==> t.is_writing(),
        applies(a) ==> t.is_applying(),
        a is Materialize ==> t.stats.changes_applied > 0,
        s.phase is Finished ==> t == s && a == PullAction::Unexpected,
{
    assert(s.plan.len() == s.plan@.len());
    assert(s.tags.len() == s.tags@.len());
}

/// What holds at every step holds after any number of them.
pub proof fn lemma_run_inv(
    states: Seq<PullSession>,
    events: Seq<PullEvent>,
    actions: Seq<PullAction>,
    k: int,
)
    requires
        is_run(states, events, actions),
        0 <= k < states.len(),
    ensures
        states[k].inv(),
        states[k].command == states[0].command,
    decreases k,
{
    if k > 0 {
        lemma_run_inv(states, events, actions, k - 1);
        assert(session::advances(states[k - 1], events[k - 1], states[k], actions[k - 1]));
        lemma_inv_kept(states[k - 1], events[k - 1], states[k], actions[k - 1]);
    }
}

/// A dry run downloads nothing and applies nothing.
pub proof fn law_dry_run_changes_nothing(
    states: Seq<PullSession>,
    events: Seq<PullEvent>,
    actions: Seq<PullAction>,
    i: int,
)
    requires
        is_run(states, events, actions),
        states[0].command.dry_run,
        0 <= i < actions.len(),
    ensures
        !(actions[i] is Download),
        !(actions[i] is DownloadTag),
        !applies(actions[i]),
{
    lemma_run_inv(states, events, actions, i);
    assert(session::advances(states[i], events[i], states[i + 1], actions[i]));
    lemma_inv_kept(states[i], events[i], states[i + 1], actions[i]);
}

/// A pull that is to download only applies nothing.
pub proof fn law_download_only_applies_nothing(
    states: Seq<PullSession>,
    events: Seq<PullEvent>,
    actions: Seq<PullAction>,
    i: int,
)
    requires
        is_run(states, events, actions),
        states[0].command.download_only,
        0 <= i < actions.len(),
    ensures
        !applies(actions[i]),
{
    lemma_run_inv(states, events, actions, i);
    assert(session::advances(states[i], events[i], states[i + 1], actions[i]));
    lemma_inv_kept(states[i], events[i], states[i + 1], actions[i]);
}

/// The working copy is updated only where a change was applied.
pub proof fn law_working_copy_follows_changes(
    states: Seq<PullSession>,
    events: Seq<PullEvent>,
    actions: Seq<PullAction>,
    i: int,
)
    requires
        is_run(states, events, actions),
        0 <= i < actions.len(),
        actions[i] is Materialize,
    ensures
        states[i + 1].stats.changes_applied > 0,
{
    lemma_run_inv(states, events, actions, i);
    assert(session::advances(states[i], events[i], states[i + 1], actions[i]));
    lemma_inv_kept(states[i], events[i], states[i + 1], actions[i]);
}

/// After a failed download, or a failure of any other step that a pull cannot do without,
/// nothing is done any more.
pub proof fn law_failure_ends_the_pull(
    states: Seq<PullSession>,
    events: Seq<PullEvent>,
    actions: Seq<PullAction>,
    i: int,
    j: int,
)
    requires
        is_run(states, events, actions),
        0 <= i < j < actions.len(),
        events[i] is Failed,
        session::aborts(states[i].phase),
    ensures
        actions[i] == PullAction::Abort,
        actions[j] == PullAction::Unexpected,
{
    assert(session::advances(states[i], events[i], states[i + 1], actions[i]));
    lemma_finished_stays(states, events, actions, i + 1, j);
    lemma_run_inv(states, events, actions, j);
    assert(session::advances(states[j], events[j], states[j + 1], actions[j]));
    lemma_inv_kept(states[j], events[j], states[j + 1], actions[j]);
}

proof fn lemma_finished_stays(
    states: Seq<PullSession>,
    events: Seq<PullEvent>,
    actions: Seq<PullAction>,
    i: int,
    j: int,
)
    requires
        is_run(states, events, actions),
        0 <= i <= j < states.len(),
        states[i].phase is Finished,
    ensures
        states[j] == states[i],
    decreases j - i,
{
    if i < j {
        lemma_finished_stays(states, events, actions, i, j - 1);
        lemma_run_inv(states, events, actions, j - 1);
        assert(session::advances(states[j - 1], events[j - 1], states[j], actions[j - 1]));
        lemma_inv_kept(states[j - 1], events[j - 1], states[j], actions[j - 1]);
    }
}

/// What has been downloaded and applied when a pull is at `t`.
pub open spec fn is_done(t: PullSession, got: Seq<PullChange>, put: Seq<ChangeHash>) -> bool {
    match t.phase {
        PullPhase::Downloading => got == t.plan@.take(t.next + 1) && put.len() == 0,
        PullPhase::Applying => got == t.plan@ && put == hashes(t.plan@).take(t.next + 1),
        PullPhase::Materializing
        | PullPhase::QueryingVault
        | PullPhase::Enriching
        | PullPhase::MaterializingVault => got == t.plan@ && put == hashes(t.plan@),
        PullPhase::DownloadingTags => {
            &&& got == t.plan@
            &&& t.command.download_only ==> put.len() == 0
            &&& !t.command.download_only ==> put == hashes(t.plan@)
        },
        PullPhase::Finished => {
            &&& got.len() > 0 ==> t.plan@ == t.delta()
            &&& got.len() <= t.plan@.len()
            &&& got == t.plan@.take(got.len() as int)
            &&& put.len() == 0 || (got == t.plan@ && put == hashes(t.plan@))
        },
        _ => got.len() == 0 && put.len() == 0,
    }
}

#[verifier::rlimit(40)]
proof fn lemma_done_step(
    s: PullSession,
    e: PullEvent,
    t: PullSession,
    a: PullAction,
    got: Seq<PullChange>,
    put: Seq<ChangeHash>,
    got2: Seq<PullChange>,
    put2: Seq<ChangeHash>,
)
    requires
        s.inv(),
        session::advances(s, e, t, a),
        is_done(s, got, put),
        got2 == match a {
            PullAction::Download { change, .. } => got.push(change),
            _ => got,
        },
        put2 == match a {
            PullAction::Apply { hash, .. } => put.push(hash),
            _ => put,
        },
    ensures
        is_done(t, got2, put2),
        a is Complete || a is Fail || a is Downloaded ==> t.plan@ == t.delta() && got2 == t.plan@,
        a is Complete || (a is Fail && !t.command.download_only) ==> put2 == hashes(t.plan@),
        a is Downloaded ==> put2.len() == 0,
{
    assert(s.plan.len() == s.plan@.len());
    assert(s.tags.len() == s.tags@.len());
    assert(got =~= got.take(got.len() as int));
    let plan = s.plan@;
    let names = hashes(plan);
    match s.phase {
        PullPhase::Downloading => {
            if s.next + 1 < plan.len() {
                assert(plan.take(s.next + 1).push(plan[s.next + 1]) =~= plan.take(s.next + 2));
            } else {
                assert(plan.take(s.next + 1) =~= plan);
                assert(put.push(names[0]) =~= names.take(1));
            }
        },
        PullPhase::Applying => {
            if s.next + 1 < plan.len() {
                assert(names.take(s.next + 1).push(names[s.next + 1]) =~= names.take(s.next + 2));
            } else {
                assert(names.take(s.next + 1) =~= names);
                assert(plan.take(plan.len() as int) =~= plan);
            }
        },
        PullPhase::LoadingHistory => {
            assert(got =~= t.plan@.take(0));
            if a is Download {
                assert(got.push(t.plan@[0]) =~= t.plan@.take(1));
            }
        },
        _ => {
            assert(got.len() == 0 ==> got =~= t.plan@.take(0));
            assert(plan.take(plan.len() as int) =~= plan);
        },
    }
}

/// What has been downloaded and applied fits where the pull is.
pub proof fn lemma_done(states: Seq<PullSession>, events: Seq<PullEvent>, actions: Seq<PullAction>)
    requires
        is_run(states, events, actions),
    ensures
        is_done(states.last(), downloaded(actions), applied(actions)),
        actions.len() > 0 && is_end(actions.last()) ==> downloaded(actions)
            == states.last().delta(),
        actions.len() > 0 && is_end(actions.last()) && !states.last().command.download_only
            ==> applied(actions) == hashes(states.last().delta()),
    decreases actions.len(),
{
    if actions.len() > 0 {
        let ss = states.drop_last();
        let es = events.drop_last();
        let acts = actions.drop_last();
        assert forall|i: int| 0 <= i < es.len() implies session::advances(
            ss[i],
            es[i],
            ss[i + 1],
            #[trigger] acts[i],
        ) by {
            assert(acts[i] == actions[i]);
        }
        lemma_done(ss, es, acts);
        lemma_run_inv(ss, es, acts, ss.len() - 1);
        let i = actions.len() - 1;
        assert(session::advances(states[i], events[i], states[i + 1], actions[i]));
        lemma_done_step(
            states[i],
            events[i],
            states[i + 1],
            actions[i],
            downloaded(acts),
            applied(acts),
            downloaded(actions),
            applied(actions),
        );
    }
}

/// The changes that a pull downloads are those that the local history lacks, or all, in
/// dependency order and without a gap. A pull that comes to its end has downloaded all of
/// them.
pub proof fn law_downloads_follow_the_plan(
    states: Seq<PullSession>,
    events: Seq<PullEvent>,
    actions: Seq<PullAction>,
)
    requires
        is_run(states, events, actions),
    ensures
        downloaded(actions).len() > 0 ==> {
            &&& downloaded(actions).len() <= states.last().delta().len()
            &&& downloaded(actions) == states.last().delta().take(downloaded(actions).len() as int)
        },
        order::in_order(downloaded(actions)),
        actions.len() > 0 && is_end(actions.last()) ==> downloaded(actions)
            == states.last().delta(),
{
    lemma_done(states, events, actions);
    lemma_run_inv(states, events, actions, states.len() - 1);
    let t = states.last();
    let got = downloaded(actions);
    assert(got =~= got.take(got.len() as int));
    if t.phase is Downloading {
        assert(got.len() == t.next + 1);
    }
    if got.len() > 0 {
        delta::law_pull_in_dependency_order(t.remote@, t.local@, t.command.all);
    }
}

/// The changes that a pull applies are those that it set out to download, each once, in the
/// same order, whether or not the one before could be applied; and none of them before all
/// were downloaded.
pub proof fn law_all_changes_are_applied(
    states: Seq<PullSession>,
    events: Seq<PullEvent>,
    actions: Seq<PullAction>,
)
    requires
        is_run(states, events, actions),
    ensures
        applied(actions).len() > 0 ==> {
            &&& downloaded(actions) == states.last().delta()
            &&& applied(actions).len() <= states.last().delta().len()
            &&& applied(actions) == hashes(states.last().delta()).take(
                applied(actions).len() as int,
            )
        },
        actions.len() > 0 && is_end(actions.last()) && !states.last().command.download_only
            ==> applied(actions) == hashes(states.last().delta()),
{
    lemma_done(states, events, actions);
    lemma_run_inv(states, events, actions, states.len() - 1);
    let t = states.last();
    let put = applied(actions);
    assert(put =~= put.take(put.len() as int));
    if t.phase is Applying {
        assert(put.len() == t.next + 1);
    }
}

/// The count of changes that could not be saved never goes down.
proof fn lemma_failures_stay(
    states: Seq<PullSession>,
    events: Seq<PullEvent>,
    actions: Seq<PullAction>,
    i: int,
    j: int,
)
    requires
        is_run(states, events, actions),
        0 <= i <= j < states.len(),
    ensures
        states[i].stats.changes_failed <= states[j].stats.changes_failed,
    decreases j - i,
{
    if i < j {
        lemma_failures_stay(states, events, actions, i, j - 1);
        lemma_run_inv(states, events, actions, j - 1);
        let s = states[j - 1];
        assert(s.plan.len() == s.plan@.len());
        assert(session::advances(s, events[j - 1], states[j], actions[j - 1]));
    }
}

/// A pull that could not save a change it had downloaded never ends well.
pub proof fn law_unsaved_change_fails_the_pull(
    states: Seq<PullSession>,
    events: Seq<PullEvent>,
    actions: Seq<PullAction>,
    i: int,
    j: int,
)
    requires
        is_run(states, events, actions),
        0 <= i <= j < actions.len(),
        states[i].phase is Downloading,
        events[i] is NotSaved,
    ensures
        !(actions[j] is Complete),
        !(actions[j] is Downloaded),
{
    lemma_run_inv(states, events, actions, i);
    lemma_run_inv(states, events, actions, j);
    let s = states[i];
    assert(s.plan.len() == s.plan@.len());
    assert(session::advances(s, events[i], states[i + 1], actions[i]));
    assert(states[i + 1].stats.changes_failed > 0);
    lemma_failures_stay(states, events, actions, i + 1, j + 1);
    assert(session::advances(states[j], events[j], states[j + 1], actions[j]));
}

/// A pull that ends well has downloaded and saved everything that it set out to.
pub proof fn law_success_means_all_saved(
    states: Seq<PullSession>,
    events: Seq<PullEvent>,
    actions: Seq<PullAction>,
    i: int,
)
    requires
        is_run(states, events, actions),
        0 <= i < actions.len(),
        actions[i] is Complete || actions[i] is Downloaded,
    ensures
        states[i + 1].stats.changes_failed == 0,
        states[i + 1].stats.changes_downloaded == states[i + 1].delta().len(),
{
    lemma_run_inv(states, events, actions, i);
    let s = states[i];
    assert(s.plan.len() == s.plan@.len());
    assert(session::advances(s, events[i], states[i + 1], actions[i]));
}

/// The tags that are downloaded, in their order.
pub open spec fn tags_downloaded(actions: Seq<PullAction>) -> Seq<Merkle>
    decreases actions.len(),
{
    if actions.len() == 0 {
        Seq::empty()
    } else {
        match actions.last() {
            PullAction::DownloadTag { state } => tags_downloaded(actions.drop_last()).push(state),
            _ => tags_downloaded(actions.drop_last()),
        }
    }
}

/// What tags have been downloaded when a pull is at `t`.
spec fn is_tagged(t: PullSession, got: Seq<Merkle>) -> bool {
    let all = session::tagged_states(t.plan@);
    match t.phase {
        PullPhase::DownloadingTags => got == all.take(t.next + 1),
        PullPhase::Finished => {
            &&& got.len() > 0 ==> t.plan@ == t.delta()
            &&& got.len() <= all.len()
            &&& got == all.take(got.len() as int)
        },
        _ => got.len() == 0,
    }
}

#[verifier::rlimit(30)]
proof fn lemma_tags_step(
    s: PullSession,
    e: PullEvent,
    t: PullSession,
    a: PullAction,
    before: Seq<Merkle>,
    after: Seq<Merkle>,
)
    requires
        s.inv(),
        session::advances(s, e, t, a),
        is_tagged(s, before),
        after == match a {
            PullAction::DownloadTag { state } => before.push(state),
            _ => before,
        },
    ensures
        is_tagged(t, after),
        is_end(a) ==> t.plan@ == t.delta() && after == session::tagged_states(t.plan@),
{
    assert(s.plan.len() == s.plan@.len());
    assert(s.tags.len() == s.tags@.len());
    assert(before =~= before.take(before.len() as int));
    let all = session::tagged_states(t.plan@);
    assert(all.take(all.len() as int) =~= all);
    match s.phase {
        PullPhase::DownloadingTags => {
            if s.next + 1 < all.len() {
                assert(all.take(s.next + 1).push(all[s.next + 1]) =~= all.take(s.next + 2));
            } else {
                assert(all.take(s.next + 1) =~= all);
            }
        },
        _ => {
            if before.len() == 0 {
                assert(before =~= all.take(0));
                if all.len() == 0 {
                    assert(before =~= all);
                }
            }
            if a is DownloadTag {
                assert(before.push(all[0]) =~= all.take(1));
            }
        },
    }
}

proof fn lemma_tags(states: Seq<PullSession>, events: Seq<PullEvent>, actions: Seq<PullAction>)
    requires
        is_run(states, events, actions),
    ensures
        is_tagged(states.last(), tags_downloaded(actions)),
        actions.len() > 0 && is_end(actions.last()) ==> tags_downloaded(actions)
            == session::tagged_states(states.last().delta()),
    decreases actions.len(),
{
    if actions.len() > 0 {
        let ss = states.drop_last();
        let es = events.drop_last();
        let acts = actions.drop_last();
        assert forall|i: int| 0 <= i < es.len() implies session::advances(
            ss[i],
            es[i],
            ss[i + 1],
            #[trigger] acts[i],
        ) by {
            assert(acts[i] == actions[i]);
        }
        lemma_tags(ss, es, acts);
        lemma_run_inv(ss, es, acts, ss.len() - 1);
        let i = actions.len() - 1;
        assert(session::advances(states[i], events[i], states[i + 1], actions[i]));
        lemma_tags_step(
            states[i],
            events[i],
            states[i + 1],
            actions[i],
            tags_downloaded(acts),
            tags_downloaded(actions),
        );
    }
}

/// The tags that a pull downloads are those of the tagged states after the changes that it
/// brings, in their order and without a gap; a pull that comes to its end has downloaded
/// them all.
pub proof fn law_tags_follow_the_changes(
    states: Seq<PullSession>,
    events: Seq<PullEvent>,
    actions: Seq<PullAction>,
)
    requires
        is_run(states, events, actions),
    ensures
        tags_downloaded(actions).len() > 0 ==> {
            let all = session::tagged_states(states.last().delta());
            &&& tags_downloaded(actions).len() <= all.len()
            &&& tags_downloaded(actions) == all.take(tags_downloaded(actions).len() as int)
        },
        actions.len() > 0 && is_end(actions.last()) ==> tags_downloaded(actions)
            == session::tagged_states(states.last().delta()),
{
    lemma_tags(states, events, actions);
    lemma_run_inv(states, events, actions, states.len() - 1);
    let got = tags_downloaded(actions);
    assert(got =~= got.take(got.len() as int));
}

} // verus!
