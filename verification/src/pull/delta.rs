//! What a pull has to bring from the remote.

use vstd::prelude::*;

use crate::history;
use crate::history::{copy_message, is_local, is_remote};
use crate::order;
use crate::order::{insert_in_order, Sequenced};
use crate::types::{ChangeHash, LocalEntry, RemoteEntry};

use super::types::PullChange;

verus! {

/// The entry as a change to pull.
pub open spec fn change_of(entry: RemoteEntry) -> PullChange {
    PullChange {
        hash: entry.hash,
        sequence: entry.sequence,
        state: entry.state,
        message: entry.message,
        tagged: entry.tagged,
    }
}

/// The remote changes that the local history lacks, or all of them, as they stand in the
/// changelist.
pub open spec fn missing(
    remote: Seq<RemoteEntry>,
    local: Seq<LocalEntry>,
    all: bool,
) -> Seq<PullChange>
    decreases remote.len(),
{
    if remote.len() == 0 {
        Seq::empty()
    } else {
        let rest = missing(remote.drop_last(), local, all);
        if all || !history::local_has(local, remote.last().hash) {
            rest.push(change_of(remote.last()))
        } else {
            rest
        }
    }
}

/// What a pull brings to the local repository, in dependency order.
pub open spec fn pull_delta(
    remote: Seq<RemoteEntry>,
    local: Seq<LocalEntry>,
    all: bool,
) -> Seq<PullChange> {
    order::sorted(missing(remote, local, all))
}

/// The local changes that the remote lacks, as they stand in the history.
pub open spec fn local_only(local: Seq<LocalEntry>, remote: Seq<RemoteEntry>) -> Seq<ChangeHash>
    decreases local.len(),
{
    if local.len() == 0 {
        Seq::empty()
    } else {
        let rest = local_only(local.drop_last(), remote);
        if !history::remote_has(remote, local.last().hash) {
            rest.push(local.last().hash)
        } else {
            rest
        }
    }
}

/// What to bring to the local repository: the remote changes that its history lacks or,
/// with `all`, every remote change, in dependency order.
pub fn calculate_pull_delta(
    remote: &Vec<RemoteEntry>,
    local: &Vec<LocalEntry>,
    all: bool,
) -> (delta: Vec<PullChange>)
    ensures
        delta@ == pull_delta(remote@, local@, all),
{
    let mut delta: Vec<PullChange> = Vec::new();
    let mut i: usize = 0;
    assert(delta@ =~= pull_delta(remote@.take(0), local@, all));
    while i < remote.len()
        invariant
            i <= remote@.len(),
            delta@ == pull_delta(remote@.take(i as int), local@, all),
        decreases remote@.len() - i,
    {
        let entry = &remote[i];
        let ghost before = remote@.take(i as int);
        let ghost after = remote@.take(i + 1);
        assert(after.drop_last() =~= before);
        assert(after.last() == *entry);
        if all || !is_local(local, &entry.hash) {
            let change = PullChange {
                hash: entry.hash,
                sequence: entry.sequence,
                state: entry.state,
                message: copy_message(&entry.message),
                tagged: entry.tagged,
            };
            insert_in_order(&mut delta, change);
            assert(missing(after, local@, all).drop_last() =~= missing(before, local@, all));
        }
        i = i + 1;
    }
    assert(remote@.take(i as int) =~= remote@);
    delta
}

/// Whether the local history holds a change that the remote lacks.
pub fn has_local_only_changes(local: &Vec<LocalEntry>, remote: &Vec<RemoteEntry>) -> (found: bool)
    ensures
        found == (local_only(local@, remote@).len() > 0),
{
    find_local_only_changes(local, remote).len() > 0
}

/// The local changes that the remote lacks.
pub fn find_local_only_changes(
    local: &Vec<LocalEntry>,
    remote: &Vec<RemoteEntry>,
) -> (found: Vec<ChangeHash>)
    ensures
        found@ == local_only(local@, remote@),
{
    let mut found: Vec<ChangeHash> = Vec::new();
    let mut i: usize = 0;
    while i < local.len()
        invariant
            i <= local@.len(),
            found@ == local_only(local@.take(i as int), remote@),
        decreases local@.len() - i,
    {
        assert(local@.take(i + 1).drop_last() =~= local@.take(i as int));
        if !is_remote(remote, &local[i].hash) {
            found.push(local[i].hash);
        }
        i = i + 1;
    }
    assert(local@.take(i as int) =~= local@);
    found
}

proof fn lemma_missing(remote: Seq<RemoteEntry>, local: Seq<LocalEntry>, all: bool)
    ensures
        forall|c: PullChange| #[trigger]
            missing(remote, local, all).contains(c) <==> exists|i: int|
                0 <= i < remote.len() && c == change_of(#[trigger] remote[i]) && (all
                    || !history::local_has(local, remote[i].hash)),
        all ==> missing(remote, local, all).len() == remote.len(),
    decreases remote.len(),
{
    let m = missing(remote, local, all);
    if remote.len() > 0 {
        let rest = remote.drop_last();
        let mr = missing(rest, local, all);
        lemma_missing(rest, local, all);
        assert forall|c: PullChange| #[trigger] m.contains(c) <==> exists|i: int|
            0 <= i < remote.len() && c == change_of(#[trigger] remote[i]) && (all
                || !history::local_has(local, remote[i].hash)) by {
            if m.contains(c) {
                let k = choose|k: int| 0 <= k < m.len() && m[k] == c;
                if k < mr.len() {
                    assert(mr[k] == c);
                    assert(mr.contains(c));
                    let i = choose|i: int|
                        0 <= i < rest.len() && c == change_of(#[trigger] rest[i]) && (all
                            || !history::local_has(local, rest[i].hash));
                    assert(remote[i] == rest[i]);
                } else {
                    assert(c == change_of(remote[remote.len() - 1]));
                }
            }
            if exists|i: int|
                0 <= i < remote.len() && c == change_of(#[trigger] remote[i]) && (all
                    || !history::local_has(local, remote[i].hash)) {
                let i = choose|i: int|
                    0 <= i < remote.len() && c == change_of(#[trigger] remote[i]) && (all
                        || !history::local_has(local, remote[i].hash));
                if i < rest.len() {
                    assert(c == change_of(rest[i]));
                    assert(mr.contains(c));
                    let k = choose|k: int| 0 <= k < mr.len() && mr[k] == c;
                    assert(m[k] == c);
                } else {
                    assert(m[mr.len() as int] == c);
                }
            }
        }
    }
}

/// A pull brings its changes in dependency order: a change never comes before one that has
/// a lower place in the changelist.
pub proof fn law_pull_in_dependency_order(
    remote: Seq<RemoteEntry>,
    local: Seq<LocalEntry>,
    all: bool,
)
    ensures
        order::in_order(pull_delta(remote, local, all)),
{
    order::lemma_sorted(missing(remote, local, all));
}

/// A pull brings exactly the remote changes that the local history lacks; with `all`,
/// exactly the remote changes.
pub proof fn law_pull_brings_what_is_missing(
    remote: Seq<RemoteEntry>,
    local: Seq<LocalEntry>,
    all: bool,
)
    ensures
        forall|c: PullChange| #[trigger]
            pull_delta(remote, local, all).contains(c) <==> exists|i: int|
                0 <= i < remote.len() && c == change_of(#[trigger] remote[i]) && (all
                    || !history::local_has(local, remote[i].hash)),
        all ==> pull_delta(remote, local, all).len() == remote.len(),
{
    lemma_missing(remote, local, all);
    order::lemma_sorted(missing(remote, local, all));
    let m = missing(remote, local, all);
    let d = pull_delta(remote, local, all);
    assert forall|c: PullChange| #[trigger] d.contains(c) <==> exists|i: int|
        0 <= i < remote.len() && c == change_of(#[trigger] remote[i]) && (all
            || !history::local_has(local, remote[i].hash)) by {
        assert(d.contains(c) <==> m.contains(c));
    }
}

/// A local history that holds every remote change has nothing to get from a pull, unless all
/// changes are asked for.
pub proof fn law_nothing_to_pull(remote: Seq<RemoteEntry>, local: Seq<LocalEntry>)
    ensures
        (forall|i: int|
            0 <= i < remote.len() ==> history::local_has(local, (#[trigger] remote[i]).hash))
            <==> pull_delta(remote, local, false).len() == 0,
{
    let d = pull_delta(remote, local, false);
    law_pull_brings_what_is_missing(remote, local, false);
    if d.len() > 0 {
        assert(d.contains(d[0]));
    }
    assert forall|i: int| 0 <= i < remote.len() && d.len() == 0 implies history::local_has(
        local,
        (#[trigger] remote[i]).hash,
    ) by {
        if !history::local_has(local, remote[i].hash) {
            assert(d.contains(change_of(remote[i])));
        }
    }
}

/// The warning about diverged histories names exactly the changes of the local history that
/// the remote lacks.
pub proof fn law_local_only_changes_are_named(local: Seq<LocalEntry>, remote: Seq<RemoteEntry>)
    ensures
        forall|h: ChangeHash| #[trigger]
            local_only(local, remote).contains(h) <==> history::local_has(local, h)
                && !history::remote_has(remote, h),
    decreases local.len(),
{
    let l = local_only(local, remote);
    if local.len() > 0 {
        let rest = local.drop_last();
        let lr = local_only(rest, remote);
        law_local_only_changes_are_named(rest, remote);
        assert forall|h: ChangeHash| #[trigger] l.contains(h) <==> history::local_has(local, h)
            && !history::remote_has(remote, h) by {
            if l.contains(h) {
                let k = choose|k: int| 0 <= k < l.len() && l[k] == h;
                if k < lr.len() {
                    assert(lr[k] == h);
                    assert(lr.contains(h));
                    let i = choose|i: int| 0 <= i < rest.len() && (#[trigger] rest[i]).hash == h;
                    assert(local[i].hash == h);
                } else {
                    assert(local[local.len() - 1].hash == h);
                }
            }
            if history::local_has(local, h) && !history::remote_has(remote, h) {
                let i = choose|i: int| 0 <= i < local.len() && (#[trigger] local[i]).hash == h;
                if i < rest.len() {
                    assert(rest[i].hash == h);
                    assert(lr.contains(h));
                    let k = choose|k: int| 0 <= k < lr.len() && lr[k] == h;
                    assert(l[k] == h);
                } else {
                    assert(l[lr.len() as int] == h);
                }
            }
        }
    }
}

/// Where the histories have diverged, a pull still brings what only the remote has, and
/// nothing that only the local history has.
pub proof fn law_diverged_histories_are_pulled(
    remote: Seq<RemoteEntry>,
    local: Seq<LocalEntry>,
    c: PullChange,
)
    requires
        pull_delta(remote, local, false).contains(c),
    ensures
        history::remote_has(remote, c.hash),
        !history::local_has(local, c.hash),
        !local_only(local, remote).contains(c.hash),
{
    law_pull_brings_what_is_missing(remote, local, false);
    law_local_only_changes_are_named(local, remote);
}

/// The change to pull is the one of this entry, with all that the entry says of it.
pub open spec fn carries(change: PullChange, entry: RemoteEntry) -> bool {
    &&& change.hash == entry.hash
    &&& change.sequence == entry.sequence
    &&& change.state == entry.state
    &&& change.message == entry.message
    &&& change.tagged == entry.tagged
}

/// What a pull has to bring is found entry by entry: of a changelist in two parts it is what
/// there is to bring of the first and then what there is to bring of the second. An entry is
/// brought, with all that it says, unless a local entry has its hash and not all changes are
/// asked for.
pub proof fn law_missing_is_found_entry_by_entry(
    one: Seq<RemoteEntry>,
    two: Seq<RemoteEntry>,
    entry: RemoteEntry,
    local: Seq<LocalEntry>,
    all: bool,
)
    ensures
        missing(one + two, local, all) == missing(one, local, all) + missing(two, local, all),
        !all && (exists|j: int| 0 <= j < local.len() && (#[trigger] local[j]).hash == entry.hash)
            ==> missing(seq![entry], local, all).len() == 0,
        all || (forall|j: int| 0 <= j < local.len() ==> (#[trigger] local[j]).hash != entry.hash)
            ==> {
            let found = missing(seq![entry], local, all);
            found.len() == 1 && carries(found[0], entry)
        },
    decreases two.len(),
{
    let f = |s: Seq<RemoteEntry>| missing(s, local, all);
    assert(seq![entry].drop_last() =~= Seq::empty());
    assert(f(Seq::empty()).len() == 0);
    if two.len() > 0 {
        law_missing_is_found_entry_by_entry(one, two.drop_last(), entry, local, all);
        assert((one + two).drop_last() =~= one + two.drop_last());
        assert((one + two).last() == two.last());
        assert(f(one + two) =~= f(one) + f(two));
    } else {
        assert(one + two =~= one);
        assert(f(one + two) =~= f(one) + f(two));
    }
}

/// A pull goes by the places of its changes in the changelist and changes nothing else about
/// their order: the places ascend, and of the changes with one place all are there, as the
/// changelist has them.
pub proof fn law_pull_order_is_by_sequence(
    remote: Seq<RemoteEntry>,
    local: Seq<LocalEntry>,
    all: bool,
    place: u64,
)
    ensures
        forall|i: int, j: int|
            0 <= i <= j < pull_delta(remote, local, all).len() ==> (
            #[trigger] pull_delta(remote, local, all)[i]).sequence <= (
            #[trigger] pull_delta(remote, local, all)[j]).sequence,
        pull_delta(remote, local, all).filter(|c: PullChange| c.sequence == place) == missing(
            remote,
            local,
            all,
        ).filter(|c: PullChange| c.sequence == place),
        pull_delta(remote, local, all).len() == missing(remote, local, all).len(),
{
    let m = missing(remote, local, all);
    order::law_sorting_is_stable(m, place);
    assert((|c: PullChange| c.sequence == place) =~= (|c: PullChange| c.place() == place));
    assert forall|i: int, j: int| 0 <= i <= j < pull_delta(remote, local, all).len() implies (
    #[trigger] pull_delta(remote, local, all)[i]).sequence <= (
    #[trigger] pull_delta(remote, local, all)[j]).sequence by {
        assert(order::sorted(m)[i].place() <= order::sorted(m)[j].place());
    }
}

/// No entry of the other side has the hash.
pub open spec fn is_unknown(hash: ChangeHash, local: Seq<LocalEntry>) -> bool {
    forall|j: int| 0 <= j < local.len() ==> (#[trigger] local[j]).hash != hash
}

/// The change is that of an entry which the other side does not know, or of any entry.
pub open spec fn is_wanted(
    change: PullChange,
    remote: Seq<RemoteEntry>,
    local: Seq<LocalEntry>,
    all: bool,
) -> bool {
    exists|i: int|
        0 <= i < remote.len() && carries(change, #[trigger] remote[i]) && (all || is_unknown(
            remote[i].hash,
            local,
        ))
}

/// The entry is among the changes.
pub open spec fn is_brought(entry: RemoteEntry, changes: Seq<PullChange>) -> bool {
    exists|k: int| 0 <= k < changes.len() && carries(#[trigger] changes[k], entry)
}

/// What a pull brings is what the remote entries say that the local history lacks, or all
/// entries: each change that it brings is that of an entry, and each such entry is brought.
pub proof fn law_pull_brings_the_entries(
    remote: Seq<RemoteEntry>,
    local: Seq<LocalEntry>,
    all: bool,
)
    ensures
        forall|k: int|
            0 <= k < pull_delta(remote, local, all).len() ==> is_wanted(
                #[trigger] pull_delta(remote, local, all)[k],
                remote, local,
                all,
            ),
        forall|i: int|
            0 <= i < remote.len() && (all || is_unknown(remote[i].hash, local))
                ==> is_brought(#[trigger] remote[i], pull_delta(remote, local, all)),
{
    law_pull_brings_what_is_missing(remote, local, all);
    let d = pull_delta(remote, local, all);
    assert forall|k: int| 0 <= k < d.len() implies {
        &&& is_wanted(#[trigger] d[k], remote, local, all)
    } by {
        assert(d.contains(d[k]));
        let i = choose|i: int|
            0 <= i < remote.len() && d[k] == change_of(#[trigger] remote[i]) && (all
                || !history::local_has(local, remote[i].hash));
        assert(carries(d[k], remote[i]));
    }
    assert forall|i: int|
        0 <= i < remote.len() && (all || is_unknown(remote[i].hash, local)) implies is_brought(
        #[trigger] remote[i],
        d,
    ) by {
        let c = change_of(remote[i]);
        assert(d.contains(c));
        let k = choose|k: int| 0 <= k < d.len() && d[k] == c;
        assert(carries(d[k], remote[i]));
    }
}

/// The local changes that the remote lacks are found entry by entry, in the order of the
/// history: an entry is among them exactly where no remote entry has its hash.
pub proof fn law_local_only_is_found_entry_by_entry(
    one: Seq<LocalEntry>,
    two: Seq<LocalEntry>,
    entry: LocalEntry,
    remote: Seq<RemoteEntry>,
)
    ensures
        local_only(one + two, remote) == local_only(one, remote) + local_only(two, remote),
        (exists|j: int| 0 <= j < remote.len() && (#[trigger] remote[j]).hash == entry.hash)
            ==> local_only(seq![entry], remote).len() == 0,
        (forall|j: int| 0 <= j < remote.len() ==> (#[trigger] remote[j]).hash != entry.hash)
            ==> local_only(seq![entry], remote) == seq![entry.hash],
    decreases two.len(),
{
    let f = |s: Seq<LocalEntry>| local_only(s, remote);
    assert(seq![entry].drop_last() =~= Seq::empty());
    assert(f(Seq::empty()).len() == 0);
    assert(f(Seq::empty()).push(entry.hash) =~= seq![entry.hash]);
    if two.len() > 0 {
        law_local_only_is_found_entry_by_entry(one, two.drop_last(), entry, remote);
        assert((one + two).drop_last() =~= one + two.drop_last());
        assert((one + two).last() == two.last());
        assert(f(one + two) =~= f(one) + f(two));
    } else {
        assert(one + two =~= one);
        assert(f(one + two) =~= f(one) + f(two));
    }
}

} // verus!
