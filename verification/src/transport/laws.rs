//! What holds of whole exchanges with the server: whom they are about, what is asked and what
//! becomes of the answers.

use vstd::prelude::*;

use crate::types::ChangeHash;

use super::messages;
use super::messages::{PullRequest, ViewRequest};
use super::pull;
use super::pull::{PullExchange, PullReply, PullStep, PullTask};
use super::push;
use super::push::{PushExchange, PushReply, PushStep, PushTask};
use super::watch;
use super::watch::{WatchExchange, WatchReply, WatchStep, WatchTask};

verus! {

/// A request about a view carries the owner, the repository and the view each in the field of
/// that name, and leaves the token out; there is no other request about the same view.
pub proof fn law_request_names_its_view(
    request: ViewRequest,
    owner: Seq<char>,
    repo: Seq<char>,
    view: Seq<char>,
)
    ensures
        messages::asks_for(request, owner, repo, view) <==> request.owner@ == owner
            && request.repo@ == repo && request.view@ == view && request.token@.len() == 0,
{
    assert(request.token@.len() == 0 ==> request.token@ =~= Seq::<char>::empty());
}

/// A request for changes names the view and lists the bytes of every change that is there
/// already, in their order, and nothing else.
pub proof fn law_pull_request_lists_what_is_there(
    request: PullRequest,
    owner: Seq<char>,
    repo: Seq<char>,
    view: Seq<char>,
    local: Seq<ChangeHash>,
)
    requires
        pull::requests(request, owner, repo, view, local),
    ensures
        request.target.owner@ == owner,
        request.target.repo@ == repo,
        request.target.view@ == view,
        request.target.token@.len() == 0,
        request.have_hashes@.len() == local.len(),
        forall|i: int|
            0 <= i < local.len() ==> (#[trigger] request.have_hashes@[i])@ == local[i].bytes@,
{
}

/// Of a store's changes those count whose hashes could be read, each in its place: a store
/// that is listed in two parts has what the first part and then what the second part has.
pub proof fn law_readable_hashes_are_kept(
    one: Seq<Option<ChangeHash>>,
    two: Seq<Option<ChangeHash>>,
    hash: ChangeHash,
)
    ensures
        messages::readable(one + two) == messages::readable(one) + messages::readable(two),
        messages::readable(seq![Some(hash)]) == seq![hash],
        messages::readable(seq![None::<ChangeHash>]) == Seq::<ChangeHash>::empty(),
        messages::readable(Seq::empty()) == Seq::<ChangeHash>::empty(),
    decreases two.len(),
{
    assert(seq![Some(hash)].drop_last() =~= Seq::empty());
    assert(seq![None::<ChangeHash>].drop_last() =~= Seq::empty());
    assert(messages::readable(Seq::<Option<ChangeHash>>::empty()).push(hash) =~= seq![hash]);
    if two.len() > 0 {
        law_readable_hashes_are_kept(one, two.drop_last(), hash);
        assert((one + two).drop_last() =~= one + two.drop_last());
        assert((one + two).last() == two.last());
        assert(messages::readable(one + two) =~= messages::readable(one) + messages::readable(two));
    } else {
        assert(one + two =~= one);
        assert(messages::readable(one + two) =~= messages::readable(one) + messages::readable(two));
    }
}

/// What the server lacks is found change by change: of a store that is listed in two parts it
/// lacks what it lacks of the first and then what it lacks of the second, and of a single
/// change it lacks that change unless it has it.
pub proof fn law_absent_changes_keep_their_order(
    one: Seq<ChangeHash>,
    two: Seq<ChangeHash>,
    server: Set<ChangeHash>,
    hash: ChangeHash,
)
    ensures
        push::absent(one + two, server) == push::absent(one, server) + push::absent(two, server),
        server.contains(hash) ==> push::absent(seq![hash], server).len() == 0,
        !server.contains(hash) ==> push::absent(seq![hash], server) == seq![hash],
{
    reveal(Seq::filter);
    let lacks = |h: ChangeHash| !server.contains(h);
    Seq::filter_distributes_over_add(one, two, lacks);
    assert(seq![hash].drop_last() =~= Seq::empty());
    assert(Seq::<ChangeHash>::empty().filter(lacks) =~= Seq::empty());
    assert(Seq::<ChangeHash>::empty().push(hash) =~= seq![hash]);
}

/// What a push is about never changes.
proof fn lemma_push_kept(
    states: Seq<PushExchange>,
    replies: Seq<PushReply>,
    tasks: Seq<PushTask>,
    k: int,
)
    requires
        push::is_run(states, replies, tasks),
        0 <= k < states.len(),
    ensures
        states[k].inv(),
        states[k].owner == states[0].owner,
        states[k].repo == states[0].repo,
        states[k].view == states[0].view,
        states[k].local == states[0].local,
    decreases k,
{
    if k > 0 {
        lemma_push_kept(states, replies, tasks, k - 1);
        let s = states[k - 1];
        assert(push::advances(s, replies[k - 1], states[k], tasks[k - 1]));
        assert(s.to_upload.len() == s.to_upload@.len());
        assert(s.local.len() == s.local@.len());
        push::lemma_absent_len(s.local@, s.server@);
    }
}

/// A push is about one view from its beginning to its end: the header that is sent names the
/// owner, the repository and the view that the push was begun with, which are those whose
/// changes were listed, and the changes that it says are there are those that the store
/// listed, in their order.
pub proof fn law_push_is_about_one_view(
    states: Seq<PushExchange>,
    replies: Seq<PushReply>,
    tasks: Seq<PushTask>,
    listed: ViewRequest,
    owner: Seq<char>,
    repo: Seq<char>,
    view: Seq<char>,
    local: Seq<ChangeHash>,
    i: int,
)
    requires
        push::is_run(states, replies, tasks),
        push::is_started(states[0], owner, repo, view, local),
        messages::asks_for(listed, owner, repo, view),
        0 <= i < tasks.len(),
    ensures
        tasks[i] matches PushTask::SendHeader(header) ==> {
            &&& header.owner@ == owner && listed.owner@ == owner
            &&& header.repo@ == repo && listed.repo@ == repo
            &&& header.view@ == view && listed.view@ == view
            &&& header.token@.len() == 0
        },
        tasks[i] matches PushTask::SendHave { hashes } ==> {
            &&& hashes@.len() == local.len()
            &&& forall|j: int| 0 <= j < local.len() ==> (#[trigger] hashes@[j])@ == local[j].bytes@
        },
        states[i + 1].owner@ == owner,
        states[i + 1].repo@ == repo,
        states[i + 1].view@ == view,
        states[i + 1].local@ == local,
{
    lemma_push_kept(states, replies, tasks, i);
    lemma_push_kept(states, replies, tasks, i + 1);
    assert(push::advances(states[i], replies[i], states[i + 1], tasks[i]));
}

/// What a push was last told to do, replies that did not belong to its step aside.
pub open spec fn push_asked(tasks: Seq<PushTask>) -> Option<PushTask>
    decreases tasks.len(),
{
    if tasks.len() == 0 {
        None
    } else if tasks.last() is Unexpected {
        push_asked(tasks.drop_last())
    } else {
        Some(tasks.last())
    }
}

/// At every step a push waits for what came of one task: first the server's list is read to
/// its end, then the header is sent, then the list of local changes, then each change that the
/// server lacks is loaded and sent, and at last the result is awaited.
pub proof fn law_push_keeps_to_the_protocol(
    states: Seq<PushExchange>,
    replies: Seq<PushReply>,
    tasks: Seq<PushTask>,
)
    requires
        push::is_run(states, replies, tasks),
    ensures
        ({
            let t = states.last();
            let asked = push_asked(tasks);
            match t.step {
                PushStep::Listing => asked is None || asked->0 is NextEntry,
                PushStep::SendingHeader => asked is Some && asked->0 is SendHeader,
                PushStep::SendingHave => asked is Some && asked->0 is SendHave,
                PushStep::Loading => asked == Some(
                    PushTask::Load {
                        hash: push::absent(states[0].local@, t.server@)[t.next as int],
                    },
                ),
                PushStep::SendingChange => asked is Some && asked->0 is SendChange,
                PushStep::AwaitingResult => asked == Some(PushTask::AwaitResult),
                PushStep::Finished => asked is Some && (asked->0 is Done || asked->0 is Abort),
            }
        }),
    decreases tasks.len(),
{
    if tasks.len() > 0 {
        let ss = states.drop_last();
        let rs = replies.drop_last();
        let ts = tasks.drop_last();
        assert forall|i: int| 0 <= i < rs.len() implies push::advances(
            ss[i],
            rs[i],
            ss[i + 1],
            #[trigger] ts[i],
        ) by {
            assert(ts[i] == tasks[i]);
        }
        law_push_keeps_to_the_protocol(ss, rs, ts);
        let i = tasks.len() - 1;
        lemma_push_kept(states, replies, tasks, i);
        lemma_push_kept(states, replies, tasks, i + 1);
        assert(push::advances(states[i], replies[i], states[i + 1], tasks[i]));
    }
}

/// The data that a push got when it loaded changes, in its order.
pub open spec fn data_loaded(states: Seq<PushExchange>, replies: Seq<PushReply>) -> Seq<Vec<u8>>
    decreases replies.len(),
{
    if replies.len() == 0 || states.len() != replies.len() + 1 {
        Seq::empty()
    } else {
        let rest = data_loaded(states.drop_last(), replies.drop_last());
        match (states[replies.len() - 1].step, replies.last()) {
            (PushStep::Loading, PushReply::Loaded(bytes)) => rest.push(bytes),
            _ => rest,
        }
    }
}

/// The data that a push sends, in its order.
pub open spec fn data_sent(tasks: Seq<PushTask>) -> Seq<Vec<u8>>
    decreases tasks.len(),
{
    if tasks.len() == 0 {
        Seq::empty()
    } else {
        let rest = data_sent(tasks.drop_last());
        match tasks.last() {
            PushTask::SendChange { bytes } => rest.push(bytes),
            _ => rest,
        }
    }
}

/// A push sends the data that it loaded, all of it, as it is and in the same order. One that
/// comes to its end after sending anything has sent as much data as there were changes that
/// the server lacked, and gives the server's count of what it turned down.
pub proof fn law_push_sends_what_it_loaded(
    states: Seq<PushExchange>,
    replies: Seq<PushReply>,
    tasks: Seq<PushTask>,
)
    requires
        push::is_run(states, replies, tasks),
    ensures
        data_sent(tasks) == data_loaded(states, replies),
        states.last().step is AwaitingResult ==> data_sent(tasks).len() == push::absent(
            states[0].local@,
            states.last().server@,
        ).len(),
        states.last().step is Loading || states.last().step is SendingHeader
            || states.last().step is SendingHave ==> data_sent(tasks).len()
            == states.last().next,
        states.last().step is SendingChange ==> data_sent(tasks).len() == states.last().next + 1,
        states.last().step is Listing ==> data_sent(tasks).len() == 0,
        tasks.len() > 0 && tasks.last() is Done ==> {
            let stats = tasks.last()->Done_0;
            let lacking = push::absent(states[0].local@, states.last().server@).len();
            &&& stats.uploaded == lacking
            &&& stats.already_present == states[0].local@.len() - lacking
            &&& data_sent(tasks).len() == lacking
            &&& lacking == 0 ==> stats.rejected == 0
            &&& lacking > 0 ==> replies.last() == (PushReply::Result {
                rejected: stats.rejected as u32,
            })
        },
    decreases tasks.len(),
{
    if tasks.len() > 0 {
        let ss = states.drop_last();
        let rs = replies.drop_last();
        let ts = tasks.drop_last();
        assert forall|i: int| 0 <= i < rs.len() implies push::advances(
            ss[i],
            rs[i],
            ss[i + 1],
            #[trigger] ts[i],
        ) by {
            assert(ts[i] == tasks[i]);
        }
        law_push_sends_what_it_loaded(ss, rs, ts);
        let i = tasks.len() - 1;
        let s = states[i];
        lemma_push_kept(states, replies, tasks, i);
        lemma_push_kept(states, replies, tasks, i + 1);
        assert(push::advances(s, replies[i], states[i + 1], tasks[i]));
        assert(s.to_upload.len() == s.to_upload@.len());
        assert(s.local.len() == s.local@.len());
        push::lemma_absent_len(s.local@, s.server@);
    }
}

/// A push that fails says what it was doing, and nothing follows; a reply that does not belong
/// to its step changes nothing. Only a step that failed ends a push without a result.
pub proof fn law_push_failures_are_named(
    s: PushExchange,
    e: PushReply,
    t: PushExchange,
    a: PushTask,
)
    requires
        push::advances(s, e, t, a),
    ensures
        a is Unexpected ==> t == s,
        s.step is Finished ==> a is Unexpected,
        a is Abort ==> t.step is Finished && (e is Failed || e is NotSerialized),
        s.step !is Finished && e is Failed ==> a is Abort,
        s.step is Loading && e is NotSerialized ==> a == (PushTask::Abort {
            context: "serialize change",
        }),
        e is Failed ==> (a matches PushTask::Abort { context } ==> {
            &&& s.step is Listing ==> context == ""
            &&& s.step is SendingHeader ==> context == "send push header"
            &&& s.step is SendingHave ==> context == "send SyncHave"
            &&& s.step is Loading ==> context == "load change"
            &&& s.step is SendingChange ==> context == "send ChangeData"
            &&& s.step is AwaitingResult ==> context == "push RPC"
        }),
        s.step is Listing && (e is Entry || e is End) ==> a !is Unexpected && a !is Abort,
        s.step is SendingHeader && e is Sent ==> a is SendHave,
        s.step is SendingHave && e is Sent ==> a is Load || a is AwaitResult,
        s.step is Loading && e is Loaded ==> a is SendChange,
        s.step is SendingChange && e is Sent ==> a is Load || a is AwaitResult,
        s.step is AwaitingResult && e is Result ==> a is Done,
{
}

/// The data with something in it that a pull received, in its order.
pub open spec fn pull_received(states: Seq<PullExchange>, replies: Seq<PullReply>) -> Seq<Vec<u8>>
    decreases replies.len(),
{
    if replies.len() == 0 || states.len() != replies.len() + 1 {
        Seq::empty()
    } else {
        let rest = pull_received(states.drop_last(), replies.drop_last());
        match (states[replies.len() - 1].step, replies.last()) {
            (PullStep::Receiving, PullReply::Data(bytes)) => if bytes@.len() > 0 {
                rest.push(bytes)
            } else {
                rest
            },
            _ => rest,
        }
    }
}

/// The data that a pull decodes, in its order.
pub open spec fn pull_decoded(tasks: Seq<PullTask>) -> Seq<Vec<u8>>
    decreases tasks.len(),
{
    if tasks.len() == 0 {
        Seq::empty()
    } else {
        let rest = pull_decoded(tasks.drop_last());
        match tasks.last() {
            PullTask::Decode { bytes } => rest.push(bytes),
            _ => rest,
        }
    }
}

/// How many changes a pull could decode.
pub open spec fn pull_decodings(states: Seq<PullExchange>, replies: Seq<PullReply>) -> nat
    decreases replies.len(),
{
    if replies.len() == 0 || states.len() != replies.len() + 1 {
        0
    } else {
        let rest = pull_decodings(states.drop_last(), replies.drop_last());
        if states[replies.len() - 1].step is Decoding && replies.last() is Decoded {
            rest + 1
        } else {
            rest
        }
    }
}

/// A pull decodes everything that it receives with something in it, as it is and in the same
/// order. It saves every change that could be decoded: one that comes to its end has as many
/// saved changes as there were such changes, and gives that count.
pub proof fn law_pull_takes_what_it_receives(
    states: Seq<PullExchange>,
    replies: Seq<PullReply>,
    tasks: Seq<PullTask>,
)
    requires
        pull::is_run(states, replies, tasks),
    ensures
        pull_decoded(tasks) == pull_received(states, replies),
        states.last().step is Requesting || states.last().step is Receiving
            || states.last().step is Decoding ==> states.last().saved@.len() == pull_decodings(
            states,
            replies,
        ),
        states.last().step is Saving ==> states.last().saved@.len() + 1 == pull_decodings(
            states,
            replies,
        ),
        tasks.len() > 0 && tasks.last() is Done ==> {
            &&& tasks.last()->Done_0.downloaded == pull_decodings(states, replies)
            &&& tasks.last()->Done_0.already_present == states[0].local_count
            &&& states.last().saved@.len() == pull_decodings(states, replies)
        },
        states.last().local_count == states[0].local_count,
    decreases tasks.len(),
{
    if tasks.len() > 0 {
        let ss = states.drop_last();
        let rs = replies.drop_last();
        let ts = tasks.drop_last();
        assert forall|i: int| 0 <= i < rs.len() implies pull::advances(
            ss[i],
            rs[i],
            ss[i + 1],
            #[trigger] ts[i],
        ) by {
            assert(ts[i] == tasks[i]);
        }
        law_pull_takes_what_it_receives(ss, rs, ts);
        let i = tasks.len() - 1;
        let s = states[i];
        assert(pull::advances(s, replies[i], states[i + 1], tasks[i]));
        assert(s.saved.len() == s.saved@.len());
    }
}

/// What a pull does about each reply: a change that cannot be decoded is passed over, any other
/// failure ends the pull and names what was being done, and a reply that does not belong to the
/// step changes nothing.
pub proof fn law_pull_failures_are_named(
    s: PullExchange,
    e: PullReply,
    t: PullExchange,
    a: PullTask,
)
    requires
        pull::advances(s, e, t, a),
    ensures
        a is Unexpected ==> t == s,
        s.step is Finished ==> a is Unexpected,
        a is Abort ==> t.step is Finished && e is Failed && t.saved@ == s.saved@,
        s.step is Requesting && e is Failed ==> a == (PullTask::Abort { context: "pull RPC" }),
        s.step is Receiving && e is Failed ==> a == (PullTask::Abort {
            context: "receive ChangeData",
        }),
        s.step is Saving && e is Failed ==> a == (PullTask::Abort {
            context: "save pulled change",
        }),
        s.step is Decoding && e is Failed ==> a is Receive && t.step is Receiving && t.saved@
            == s.saved@,
        s.step is Requesting && e is Opened ==> a is Receive && t.step is Receiving,
        s.step is Receiving && e is Data ==> if e->Data_0@.len() > 0 {
            a == (PullTask::Decode { bytes: e->Data_0 }) && t.step is Decoding
        } else {
            a is Receive && t.step is Receiving
        },
        s.step is Receiving && e is End ==> a is Done && t.step is Finished,
        s.step is Decoding && e is Decoded ==> a is Save && t.step is Saving,
        s.step is Saving && e is Saved ==> a is Receive && t.step is Receiving && t.saved@
            == s.saved@.push(e->hash),
{
}

/// The data with something in it that a watch received, in its order.
pub open spec fn watch_received(states: Seq<WatchExchange>, replies: Seq<WatchReply>) -> Seq<
    Vec<u8>,
>
    decreases replies.len(),
{
    if replies.len() == 0 || states.len() != replies.len() + 1 {
        Seq::empty()
    } else {
        let rest = watch_received(states.drop_last(), replies.drop_last());
        match (states[replies.len() - 1].step, replies.last()) {
            (WatchStep::Receiving, WatchReply::Data(bytes)) => if bytes@.len() > 0 {
                rest.push(bytes)
            } else {
                rest
            },
            _ => rest,
        }
    }
}

/// The data that a watch decodes, in its order.
pub open spec fn watch_decoded(tasks: Seq<WatchTask>) -> Seq<Vec<u8>>
    decreases tasks.len(),
{
    if tasks.len() == 0 {
        Seq::empty()
    } else {
        let rest = watch_decoded(tasks.drop_last());
        match tasks.last() {
            WatchTask::Decode { bytes } => rest.push(bytes),
            _ => rest,
        }
    }
}

/// How many changes a watch could decode.
pub open spec fn watch_decodings(states: Seq<WatchExchange>, replies: Seq<WatchReply>) -> nat
    decreases replies.len(),
{
    if replies.len() == 0 || states.len() != replies.len() + 1 {
        0
    } else {
        let rest = watch_decodings(states.drop_last(), replies.drop_last());
        if states[replies.len() - 1].step is Decoding && replies.last() is Decoded {
            rest + 1
        } else {
            rest
        }
    }
}

/// How many times a watch is told to save a change.
pub open spec fn watch_saves(tasks: Seq<WatchTask>) -> nat
    decreases tasks.len(),
{
    if tasks.len() == 0 {
        0
    } else if tasks.last() is Save {
        watch_saves(tasks.drop_last()) + 1
    } else {
        watch_saves(tasks.drop_last())
    }
}

/// How many changes were saved since the changes of a notification were last asked for.
pub open spec fn saved_since(states: Seq<WatchExchange>, replies: Seq<WatchReply>) -> nat
    decreases replies.len(),
{
    if replies.len() == 0 || states.len() != replies.len() + 1 {
        0
    } else {
        let rest = saved_since(states.drop_last(), replies.drop_last());
        match (states[replies.len() - 1].step, replies.last()) {
            (WatchStep::Pulling, WatchReply::Opened) => 0,
            (WatchStep::Saving, WatchReply::Saved { .. }) => rest + 1,
            _ => rest,
        }
    }
}

/// A watch decodes everything that it receives with something in it, as it is and in the same
/// order, however many changes follow one notification, and saves everything that it could
/// decode. Its count is that of the changes saved for the last notification.
pub proof fn law_watch_takes_what_it_receives(
    states: Seq<WatchExchange>,
    replies: Seq<WatchReply>,
    tasks: Seq<WatchTask>,
)
    requires
        watch::is_run(states, replies, tasks),
        states[0].count == 0,
    ensures
        watch_decoded(tasks) == watch_received(states, replies),
        watch_saves(tasks) == watch_decodings(states, replies),
        saved_since(states, replies) < usize::MAX ==> states.last().count == saved_since(
            states,
            replies,
        ),
        saved_since(states, replies) >= usize::MAX ==> states.last().count == usize::MAX,
    decreases tasks.len(),
{
    if tasks.len() > 0 {
        let ss = states.drop_last();
        let rs = replies.drop_last();
        let ts = tasks.drop_last();
        assert forall|i: int| 0 <= i < rs.len() implies watch::advances(
            ss[i],
            rs[i],
            ss[i + 1],
            #[trigger] ts[i],
        ) by {
            assert(ts[i] == tasks[i]);
        }
        law_watch_takes_what_it_receives(ss, rs, ts);
        let i = tasks.len() - 1;
        assert(watch::advances(states[i], replies[i], states[i + 1], tasks[i]));
    }
}

/// A watch is about one view from its beginning to its end: every request for changes names the
/// owner, the repository and the view that the watch was begun with, and lists what the local
/// store has at that moment, as far as its hashes could be read.
pub proof fn law_watch_is_about_one_view(
    states: Seq<WatchExchange>,
    replies: Seq<WatchReply>,
    tasks: Seq<WatchTask>,
    i: int,
)
    requires
        watch::is_run(states, replies, tasks),
        0 <= i < tasks.len(),
    ensures
        tasks[i] matches WatchTask::Request(request) ==> {
            &&& request.target.owner@ == states[0].owner@
            &&& request.target.repo@ == states[0].repo@
            &&& request.target.view@ == states[0].view@
            &&& request.target.token@.len() == 0
            &&& replies[i] matches WatchReply::Local(listed) && {
                let local = messages::readable(listed@);
                &&& request.have_hashes@.len() == local.len()
                &&& forall|j: int|
                    0 <= j < local.len() ==> (#[trigger] request.have_hashes@[j])@
                        == local[j].bytes@
            }
        },
        tasks[i] matches WatchTask::Apply { view, .. } ==> view@ == states[0].view@,
        states[i + 1].owner == states[0].owner,
        states[i + 1].repo == states[0].repo,
        states[i + 1].view == states[0].view,
    decreases i,
{
    if i > 0 {
        law_watch_is_about_one_view(states, replies, tasks, i - 1);
    }
    assert(watch::advances(states[i], replies[i], states[i + 1], tasks[i]));
}

/// What a watch does about each reply. Every notification with a whole hash leads to a pull,
/// everything received with something in it is decoded, what could be decoded is saved and what
/// was saved is applied; what goes wrong on the way leads back to the next change or the next
/// notification. A reply that does not belong to the step changes nothing.
pub proof fn law_watch_follows_every_reply(
    s: WatchExchange,
    e: WatchReply,
    t: WatchExchange,
    a: WatchTask,
)
    requires
        watch::advances(s, e, t, a),
    ensures
        a is Unexpected ==> t == s,
        s.step is Finished ==> a is Unexpected,
        s.step is Requesting && e is Opened ==> a is Listen && t.step is Listening,
        s.step is Requesting && e is Failed ==> a == (WatchTask::Abort { context: "watch RPC" }),
        s.step is Listening && e is Failed ==> a == (WatchTask::Abort {
            context: "receive ChangeNotification",
        }),
        a is Abort ==> t.step is Finished,
        s.step is Listening && e is Notified ==> if e->Notified_0@.len() == 32 {
            a is ListLocal && t.step is ListingLocal
        } else {
            a is Listen && t.step is Listening
        },
        s.step is Listening && e is Closed ==> a is Done,
        s.step is ListingLocal && e is Local ==> a is Request && t.step is Pulling,
        s.step is Pulling && e is Opened ==> a is Receive && t.step is Receiving && t.count == 0,
        s.step is Pulling && e is Failed ==> a is Listen && t.step is Listening,
        s.step is Receiving && e is Data ==> if e->Data_0@.len() > 0 {
            a == (WatchTask::Decode { bytes: e->Data_0 }) && t.step is Decoding
        } else {
            a is Receive && t.step is Receiving
        },
        s.step is Receiving && (e is End || e is Failed) ==> a is Listen && t.step is Listening,
        s.step is Decoding && e is Decoded ==> a is Save && t.step is Saving,
        s.step is Decoding && e is Failed ==> a is Receive && t.step is Receiving,
        s.step is Saving && e is Saved ==> t.step is Applying && a == (WatchTask::Apply {
            view: s.view,
            hash: e->hash,
        }),
        s.step is Saving && e is Failed ==> a is Receive && t.step is Receiving,
        s.step is Applying && (e is Applied || e is Failed) ==> a is Receive && t.step
            is Receiving,
{
}

} // verus!
