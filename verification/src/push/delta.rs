//! What a push has to bring to the remote.

use vstd::prelude::*;

use crate::history;
use crate::history::{copy_message, is_local, is_remote};
use crate::order;
use crate::order::{insert_in_order, Sequenced};
use crate::types::{ChangeHash, ChangeSet, LocalEntry, RemoteEntry};

use super::types::PushChange;

verus! {

/// The entry as a change to push. Its data need not be uploaded where the remote graph holds
/// it, unless all changes are asked for.
pub open spec fn change_of(entry: LocalEntry, graph: Set<ChangeHash>, all: bool) -> PushChange {
    PushChange {
        hash: entry.hash,
        sequence: entry.sequence,
        state: entry.state,
        message: entry.message,
        tagged: entry.tagged,
        in_graph: !all && graph.contains(entry.hash),
    }
}

/// The local changes that the remote view lacks, or all of them, as they stand in the
/// history.
pub open spec fn missing(
    local: Seq<LocalEntry>,
    remote: Seq<RemoteEntry>,
    graph: Set<ChangeHash>,
    all: bool,
) -> Seq<PushChange>
    decreases local.len(),
{
    if local.len() == 0 {
        Seq::empty()
    } else {
        let rest = missing(local.drop_last(), remote, graph, all);
        if all || !history::remote_has(remote, local.last().hash) {
            rest.push(change_of(local.last(), graph, all))
        } else {
            rest
        }
    }
}

/// What a push brings to the remote view, in dependency order.
pub open spec fn push_delta(
    local: Seq<LocalEntry>,
    remote: Seq<RemoteEntry>,
    graph: Set<ChangeHash>,
    all: bool,
) -> Seq<PushChange> {
    order::sorted(missing(local, remote, graph, all))
}

/// The remote view holds a change that the local history lacks.
pub open spec fn diverged(local: Seq<LocalEntry>, remote: Seq<RemoteEntry>) -> bool {
    exists|i: int|
        0 <= i < remote.len() && !history::local_has(local, (#[trigger] remote[i]).hash)
}

/// What to bring to the remote view: the local changes that it lacks or, with `all`,
/// every local change, in dependency order.
pub fn calculate_push_delta(
    local: &Vec<LocalEntry>,
    remote: &Vec<RemoteEntry>,
    graph: &ChangeSet,
    all: bool,
) -> (delta: Vec<PushChange>)
    ensures
        delta@ == push_delta(local@, remote@, graph@, all),
{
    let mut delta: Vec<PushChange> = Vec::new();
    let mut i: usize = 0;
    assert(delta@ =~= push_delta(local@.take(0), remote@, graph@, all));
    while i < local.len()
        invariant
            i <= local@.len(),
            delta@ == push_delta(local@.take(i as int), remote@, graph@, all),
        decreases local@.len() - i,
    {
        let entry = &local[i];
        let ghost before = local@.take(i as int);
        let ghost after = local@.take(i + 1);
        assert(after.drop_last() =~= before);
        assert(after.last() == *entry);
        if all || !is_remote(remote, &entry.hash) {
            let change = PushChange {
                hash: entry.hash,
                sequence: entry.sequence,
                state: entry.state,
                message: copy_message(&entry.message),
                tagged: entry.tagged,
                in_graph: !all && graph.contains(&entry.hash),
            };
            insert_in_order(&mut delta, change);
            assert(missing(after, remote@, graph@, all).drop_last() =~= missing(
                before,
                remote@,
                graph@,
                all,
            ));
        }
        i = i + 1;
    }
    assert(local@.take(i as int) =~= local@);
    delta
}

/// Whether the remote view holds a change that the local history lacks.
pub fn has_diverged(local: &Vec<LocalEntry>, remote: &Vec<RemoteEntry>) -> (found: bool)
    ensures
        found == diverged(local@, remote@),
{
    let mut i: usize = 0;
    while i < remote.len()
        invariant
            i <= remote@.len(),
            forall|j: int|
                0 <= j < i ==> history::local_has(local@, (#[trigger] remote@[j]).hash),
        decreases remote@.len() - i,
    {
        if !is_local(local, &remote[i].hash) {
            assert(!history::local_has(local@, remote@[i as int].hash));
            return true;
        }
        i = i + 1;
    }
    false
}

/// What `missing` picks: the entries that the remote lacks, or all of them.
proof fn lemma_missing(
    local: Seq<LocalEntry>,
    remote: Seq<RemoteEntry>,
    graph: Set<ChangeHash>,
    all: bool,
)
    ensures
        forall|c: PushChange| #[trigger]
            missing(local, remote, graph, all).contains(c) <==> exists|i: int|
                0 <= i < local.len() && c == change_of(#[trigger] local[i], graph, all) && (all
                    || !history::remote_has(remote, local[i].hash)),
        all ==> missing(local, remote, graph, all).len() == local.len(),
    decreases local.len(),
{
    let m = missing(local, remote, graph, all);
    if local.len() > 0 {
        let rest = local.drop_last();
        let mr = missing(rest, remote, graph, all);
        lemma_missing(rest, remote, graph, all);
        assert forall|c: PushChange| #[trigger] m.contains(c) <==> exists|i: int|
            0 <= i < local.len() && c == change_of(#[trigger] local[i], graph, all) && (all
                || !history::remote_has(remote, local[i].hash)) by {
            if m.contains(c) {
                let k = choose|k: int| 0 <= k < m.len() && m[k] == c;
                if k < mr.len() {
                    assert(mr[k] == c);
                    assert(mr.contains(c));
                    let i = choose|i: int|
                        0 <= i < rest.len() && c == change_of(#[trigger] rest[i], graph, all) && (
                        all || !history::remote_has(remote, rest[i].hash));
                    assert(local[i] == rest[i]);
                } else {
                    assert(c == change_of(local[local.len() - 1], graph, all));
                }
            }
            if exists|i: int|
                0 <= i < local.len() && c == change_of(#[trigger] local[i], graph, all) && (all
                    || !history::remote_has(remote, local[i].hash)) {
                let i = choose|i: int|
                    0 <= i < local.len() && c == change_of(#[trigger] local[i], graph, all) && (all
                        || !history::remote_has(remote, local[i].hash));
                if i < rest.len() {
                    assert(c == change_of(rest[i], graph, all));
                    assert(mr.contains(c));
                    let k = choose|k: int| 0 <= k < mr.len() && mr[k] == c;
                    assert(m[k] == c);
                } else {
                    assert(m[mr.len() as int] == c);
                }
            }
        }
    }
}

/// A push brings its changes in dependency order: a change never goes before one that has
/// a lower place in the history.
pub proof fn law_push_in_dependency_order(
    local: Seq<LocalEntry>,
    remote: Seq<RemoteEntry>,
    graph: Set<ChangeHash>,
    all: bool,
)
    ensures
        order::in_order(push_delta(local, remote, graph, all)),
{
    order::lemma_sorted(missing(local, remote, graph, all));
}

/// A push brings exactly the local changes that the remote view lacks; with `all`, exactly
/// the local changes.
pub proof fn law_push_brings_what_is_missing(
    local: Seq<LocalEntry>,
    remote: Seq<RemoteEntry>,
    graph: Set<ChangeHash>,
    all: bool,
)
    ensures
        forall|c: PushChange| #[trigger]
            push_delta(local, remote, graph, all).contains(c) <==> exists|i: int|
                0 <= i < local.len() && c == change_of(#[trigger] local[i], graph, all) && (all
                    || !history::remote_has(remote, local[i].hash)),
        all ==> push_delta(local, remote, graph, all).len() == local.len(),
{
    lemma_missing(local, remote, graph, all);
    order::lemma_sorted(missing(local, remote, graph, all));
    let m = missing(local, remote, graph, all);
    let d = push_delta(local, remote, graph, all);
    assert forall|c: PushChange| #[trigger] d.contains(c) <==> exists|i: int|
        0 <= i < local.len() && c == change_of(#[trigger] local[i], graph, all) && (all
            || !history::remote_has(remote, local[i].hash)) by {
        assert(d.contains(c) <==> m.contains(c));
    }
}

/// A remote view that holds every local change has nothing to get from a push, unless all
/// changes are asked for.
pub proof fn law_nothing_to_push(
    local: Seq<LocalEntry>,
    remote: Seq<RemoteEntry>,
    graph: Set<ChangeHash>,
)
    ensures
        (forall|i: int|
            0 <= i < local.len() ==> history::remote_has(remote, (#[trigger] local[i]).hash))
            <==> push_delta(local, remote, graph, false).len() == 0,
{
    let d = push_delta(local, remote, graph, false);
    law_push_brings_what_is_missing(local, remote, graph, false);
    if d.len() > 0 {
        assert(d.contains(d[0]));
    }
    assert forall|i: int| 0 <= i < local.len() && d.len() == 0 implies history::remote_has(
        remote,
        (#[trigger] local[i]).hash,
    ) by {
        if !history::remote_has(remote, local[i].hash) {
            assert(d.contains(change_of(local[i], graph, false)));
        }
    }
}

/// The change to push is the one of this entry, with all that the entry says of it.
pub open spec fn carries(change: PushChange, entry: LocalEntry) -> bool {
    &&& change.hash == entry.hash
    &&& change.sequence == entry.sequence
    &&& change.state == entry.state
    &&& change.message == entry.message
    &&& change.tagged == entry.tagged
}

/// What a push has to bring is found entry by entry: of a history in two parts it is what there
/// is to bring of the first and then what there is to bring of the second. An entry is brought,
/// with all that it says, unless a remote entry has its hash and not all changes are asked for;
/// its data is taken to be there exactly where the remote graph holds it and not all changes
/// are asked for.
pub proof fn law_missing_is_found_entry_by_entry(
    one: Seq<LocalEntry>,
    two: Seq<LocalEntry>,
    entry: LocalEntry,
    remote: Seq<RemoteEntry>,
    graph: Set<ChangeHash>,
    all: bool,
)
    ensures
        missing(one + two, remote, graph, all) == missing(one, remote, graph, all) + missing(
            two,
            remote,
            graph,
            all,
        ),
        !all && (exists|j: int| 0 <= j < remote.len() && (#[trigger] remote[j]).hash == entry.hash)
            ==> missing(seq![entry], remote, graph, all).len() == 0,
        all || (forall|j: int|
            0 <= j < remote.len() ==> (#[trigger] remote[j]).hash != entry.hash) ==> {
            let found = missing(seq![entry], remote, graph, all);
            &&& found.len() == 1
            &&& carries(found[0], entry)
            &&& found[0].in_graph == (!all && graph.contains(entry.hash))
        },
    decreases two.len(),
{
    let f = |s: Seq<LocalEntry>| missing(s, remote, graph, all);
    assert(seq![entry].drop_last() =~= Seq::empty());
    assert(f(Seq::empty()).len() == 0);
    if two.len() > 0 {
        law_missing_is_found_entry_by_entry(one, two.drop_last(), entry, remote, graph, all);
        assert((one + two).drop_last() =~= one + two.drop_last());
        assert((one + two).last() == two.last());
        assert(f(one + two) =~= f(one) + f(two));
    } else {
        assert(one + two =~= one);
        assert(f(one + two) =~= f(one) + f(two));
    }
}

/// A push goes by the places of its changes in the history and changes nothing else about their
/// order: the places ascend, and of the changes with one place all are there, as the history
/// has them.
pub proof fn law_push_order_is_by_sequence(
    local: Seq<LocalEntry>,
    remote: Seq<RemoteEntry>,
    graph: Set<ChangeHash>,
    all: bool,
    place: u64,
)
    ensures
        forall|i: int, j: int|
            0 <= i <= j < push_delta(local, remote, graph, all).len() ==> (
            #[trigger] push_delta(local, remote, graph, all)[i]).sequence <= (
            #[trigger] push_delta(local, remote, graph, all)[j]).sequence,
        push_delta(local, remote, graph, all).filter(|c: PushChange| c.sequence == place)
            == missing(local, remote, graph, all).filter(|c: PushChange| c.sequence == place),
        push_delta(local, remote, graph, all).len() == missing(local, remote, graph, all).len(),
{
    let m = missing(local, remote, graph, all);
    order::law_sorting_is_stable(m, place);
    assert((|c: PushChange| c.sequence == place) =~= (|c: PushChange| c.place() == place));
    assert forall|i: int, j: int|
        0 <= i <= j < push_delta(local, remote, graph, all).len() implies (
    #[trigger] push_delta(local, remote, graph, all)[i]).sequence <= (
    #[trigger] push_delta(local, remote, graph, all)[j]).sequence by {
        assert(order::sorted(m)[i].place() <= order::sorted(m)[j].place());
    }
}

/// No entry of the other side has the hash.
pub open spec fn is_unknown(hash: ChangeHash, remote: Seq<RemoteEntry>) -> bool {
    forall|j: int| 0 <= j < remote.len() ==> (#[trigger] remote[j]).hash != hash
}

/// The change is that of an entry which the other side does not know, or of any entry.
pub open spec fn is_wanted(
    change: PushChange,
    local: Seq<LocalEntry>,
    remote: Seq<RemoteEntry>,
    all: bool,
) -> bool {
    exists|i: int|
        0 <= i < local.len() && carries(change, #[trigger] local[i]) && (all || is_unknown(
            local[i].hash,
            remote,
        ))
}

/// The entry is among the changes.
pub open spec fn is_brought(entry: LocalEntry, changes: Seq<PushChange>) -> bool {
    exists|k: int| 0 <= k < changes.len() && carries(#[trigger] changes[k], entry)
}

/// What a push brings is what the local entries say that the remote lacks, or all
/// entries: each change that it brings is that of an entry, and each such entry is brought.
pub proof fn law_push_brings_the_entries(
    local: Seq<LocalEntry>,
    remote: Seq<RemoteEntry>,
    graph: Set<ChangeHash>,
    all: bool,
)
    ensures
        forall|k: int|
            0 <= k < push_delta(local, remote, graph, all).len() ==> is_wanted(
                #[trigger] push_delta(local, remote, graph, all)[k],
                local, remote,
                all,
            ),
        forall|k: int|
            0 <= k < push_delta(local, remote, graph, all).len() ==> (
            #[trigger] push_delta(local, remote, graph, all)[k]).in_graph == (!all
                && graph.contains(push_delta(local, remote, graph, all)[k].hash)),
        forall|i: int|
            0 <= i < local.len() && (all || is_unknown(local[i].hash, remote))
                ==> is_brought(#[trigger] local[i], push_delta(local, remote, graph, all)),
{
    law_push_brings_what_is_missing(local, remote, graph, all);
    let d = push_delta(local, remote, graph, all);
    assert forall|k: int| 0 <= k < d.len() implies {
        &&& is_wanted(#[trigger] d[k], local, remote, all)
        &&& d[k].in_graph == (!all && graph.contains(d[k].hash))
    } by {
        assert(d.contains(d[k]));
        let i = choose|i: int|
            0 <= i < local.len() && d[k] == change_of(#[trigger] local[i], graph, all) && (all
                || !history::remote_has(remote, local[i].hash));
        assert(carries(d[k], local[i]));
    }
    assert forall|i: int|
        0 <= i < local.len() && (all || is_unknown(local[i].hash, remote)) implies is_brought(
        #[trigger] local[i],
        d,
    ) by {
        let c = change_of(local[i], graph, all);
        assert(d.contains(c));
        let k = choose|k: int| 0 <= k < d.len() && d[k] == c;
        assert(carries(d[k], local[i]));
    }
}

} // verus!
