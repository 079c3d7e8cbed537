//! Following a view of the server, step by step.
//!
//! The server tells of every new change. For each, the client asks for all changes that it
//! lacks, decodes and saves them, and applies each one that it saved to the view. What goes
//! wrong with one change or one notification does not keep the next from being followed.

use vstd::prelude::*;

use crate::types::ChangeHash;

use super::messages;
use super::messages::{readable_hashes, view_request, PullRequest, ViewRequest};
use super::pull;
use super::pull::pull_request;

verus! {

/// Which step a watch is at.
#[derive(Debug, Clone, Copy, PartialEq, Eq, Structural)]
pub enum WatchStep {
    /// Asking for notifications.
    Requesting,
    /// Waiting for a notification.
    Listening,
    /// Listing the local changes.
    ListingLocal,
    /// Asking for the changes.
    Pulling,
    /// Waiting for the next change.
    Receiving,
    /// Decoding a change.
    Decoding,
    /// Saving a change.
    Saving,
    /// Applying a change to the local view.
    Applying,
    /// Nothing is left to do.
    Finished,
}

/// What came of a step.
#[derive(Debug)]
pub enum WatchReply {
    /// The server takes the request.
    Opened,
    /// A change with this hash is new on the server.
    Notified(Vec<u8>),
    /// The server closed the stream of notifications.
    Closed,
    /// The changes of the local store, without a hash where it could not be read.
    Local(Vec<Option<ChangeHash>>),
    /// The data of a change.
    Data(Vec<u8>),
    /// There is no other change.
    End,
    /// The change was decoded.
    Decoded,
    /// The change was saved.
    Saved {
        /// Its hash.
        hash: ChangeHash,
    },
    /// The change was applied.
    Applied,
    /// The step failed.
    Failed,
}

/// What to do next.
#[derive(Debug)]
pub enum WatchTask {
    /// Ask for notifications.
    Watch(ViewRequest),
    /// Wait for a notification.
    Listen,
    /// List the local changes.
    ListLocal,
    /// Ask for the changes.
    Request(PullRequest),
    /// Wait for the next change.
    Receive,
    /// Decode the change.
    Decode {
        /// Its data.
        bytes: Vec<u8>,
    },
    /// Save the change that was decoded.
    Save,
    /// Apply the change that was saved, with the changes that it depends on.
    Apply {
        /// To this view.
        view: String,
        /// The change.
        hash: ChangeHash,
    },
    /// Stop: the server closed the stream.
    Done,
    /// Stop with the error of the step that failed.
    Abort {
        /// What was being done.
        context: &'static str,
    },
    /// The reply does not belong to the step: nothing to do.
    Unexpected,
}

/// A watch on its way.
#[derive(Debug)]
#[non_exhaustive]
pub struct WatchExchange {
    /// The owner of the repository.
    pub owner: String,
    /// The name of the repository.
    pub repo: String,
    /// The view, on the server and in the local repository.
    pub view: String,
    /// The step that it is at.
    pub step: WatchStep,
    /// How many changes were saved for the last notification, as far as it can be counted.
    pub count: usize,
}

/// The next notification is waited for.
pub open spec fn listens(s: WatchExchange, t: WatchExchange, a: WatchTask) -> bool {
    &&& t == (WatchExchange { step: WatchStep::Listening, ..s })
    &&& a == WatchTask::Listen
}

/// The next change is waited for.
pub open spec fn receives(s: WatchExchange, t: WatchExchange, a: WatchTask) -> bool {
    &&& t == (WatchExchange { step: WatchStep::Receiving, ..s })
    &&& a == WatchTask::Receive
}

/// The watch ended in this step.
pub open spec fn ended(s: WatchExchange, t: WatchExchange) -> bool {
    t == (WatchExchange { step: WatchStep::Finished, ..s })
}

/// The step of the watch `s` that the reply `e` ends, and the next one.
pub open spec fn advances(s: WatchExchange, e: WatchReply, t: WatchExchange, a: WatchTask) -> bool {
    match (s.step, e) {
        (WatchStep::Requesting, WatchReply::Opened) => listens(s, t, a),
        (WatchStep::Requesting, WatchReply::Failed) => {
            &&& ended(s, t)
            &&& a == (WatchTask::Abort { context: "watch RPC" })
        },
        (WatchStep::Listening, WatchReply::Notified(hash)) => {
            if hash@.len() != 32 {
                listens(s, t, a)
            } else {
                &&& t == (WatchExchange { step: WatchStep::ListingLocal, ..s })
                &&& a == WatchTask::ListLocal
            }
        },
        (WatchStep::Listening, WatchReply::Closed) => {
            &&& ended(s, t)
            &&& a == WatchTask::Done
        },
        (WatchStep::Listening, WatchReply::Failed) => {
            &&& ended(s, t)
            &&& a == (WatchTask::Abort { context: "receive ChangeNotification" })
        },
        (WatchStep::ListingLocal, WatchReply::Local(listed)) => {
            &&& t == (WatchExchange { step: WatchStep::Pulling, ..s })
            &&& a matches WatchTask::Request(request) && pull::requests(
                request,
                s.owner@,
                s.repo@,
                s.view@,
                messages::readable(listed@),
            )
        },
        (WatchStep::Pulling, WatchReply::Opened) => receives(
            WatchExchange { count: 0, ..s },
            t,
            a,
        ),
        (WatchStep::Pulling, WatchReply::Failed) => listens(s, t, a),
        (WatchStep::Receiving, WatchReply::Data(bytes)) => {
            if bytes@.len() == 0 {
                receives(s, t, a)
            } else {
                &&& t == (WatchExchange { step: WatchStep::Decoding, ..s })
                &&& a == (WatchTask::Decode { bytes })
            }
        },
        (WatchStep::Receiving, WatchReply::End)
        | (WatchStep::Receiving, WatchReply::Failed) => listens(s, t, a),
        (WatchStep::Decoding, WatchReply::Decoded) => {
            &&& t == (WatchExchange { step: WatchStep::Saving, ..s })
            &&& a == WatchTask::Save
        },
        (WatchStep::Decoding, WatchReply::Failed) => receives(s, t, a),
        (WatchStep::Saving, WatchReply::Saved { hash }) => {
            &&& t == (WatchExchange {
                step: WatchStep::Applying,
                count: s.count.saturating_add(1),
                ..s
            })
            &&& a == (WatchTask::Apply { view: s.view, hash })
        },
        (WatchStep::Saving, WatchReply::Failed) => receives(s, t, a),
        (WatchStep::Applying, WatchReply::Applied)
        | (WatchStep::Applying, WatchReply::Failed) => receives(s, t, a),
        _ => t == s && a == WatchTask::Unexpected,
    }
}

/// Begin to follow a view.
pub fn watch_and_sync(owner: &str, repo: &str, view: &str) -> (begun: (WatchExchange, WatchTask))
    ensures
        begun.0.owner@ == owner@,
        begun.0.repo@ == repo@,
        begun.0.view@ == view@,
        begun.0.step is Requesting,
        begun.0.count == 0,
        begun.1 matches WatchTask::Watch(request) && messages::asks_for(
            request,
            owner@,
            repo@,
            view@,
        ),
{
    let exchange = WatchExchange {
        owner: owner.to_string(),
        repo: repo.to_string(),
        view: view.to_string(),
        step: WatchStep::Requesting,
        count: 0,
    };
    let request = view_request(&exchange.owner, &exchange.repo, &exchange.view);
    (exchange, WatchTask::Watch(request))
}

impl WatchExchange {
    /// End the step that the watch is at, with what came of it, and say what to do next.
    pub fn advance(&mut self, reply: WatchReply) -> (task: WatchTask)
        ensures
            advances(*old(self), reply, *final(self), task),
    {
        match (self.step, reply) {
            (WatchStep::Requesting, WatchReply::Opened) => {
                self.step = WatchStep::Listening;
                WatchTask::Listen
            },
            (WatchStep::Requesting, WatchReply::Failed) => {
                self.step = WatchStep::Finished;
                WatchTask::Abort { context: "watch RPC" }
            },
            (WatchStep::Listening, WatchReply::Notified(hash)) => {
                if hash.len() != 32 {
                    WatchTask::Listen
                } else {
                    self.step = WatchStep::ListingLocal;
                    WatchTask::ListLocal
                }
            },
            (WatchStep::Listening, WatchReply::Closed) => {
                self.step = WatchStep::Finished;
                WatchTask::Done
            },
            (WatchStep::Listening, WatchReply::Failed) => {
                self.step = WatchStep::Finished;
                WatchTask::Abort { context: "receive ChangeNotification" }
            },
            (WatchStep::ListingLocal, WatchReply::Local(listed)) => {
                let local = readable_hashes(&listed);
                self.step = WatchStep::Pulling;
                WatchTask::Request(pull_request(&self.owner, &self.repo, &self.view, &local))
            },
            (WatchStep::Pulling, WatchReply::Opened) => {
                self.count = 0;
                self.step = WatchStep::Receiving;
                WatchTask::Receive
            },
            (WatchStep::Pulling, WatchReply::Failed) => {
                self.step = WatchStep::Listening;
                WatchTask::Listen
            },
            (WatchStep::Receiving, WatchReply::Data(bytes)) => {
                if bytes.len() == 0 {
                    WatchTask::Receive
                } else {
                    self.step = WatchStep::Decoding;
                    WatchTask::Decode { bytes }
                }
            },
            (WatchStep::Receiving, WatchReply::End)
            | (WatchStep::Receiving, WatchReply::Failed) => {
                self.step = WatchStep::Listening;
                WatchTask::Listen
            },
            (WatchStep::Decoding, WatchReply::Decoded) => {
                self.step = WatchStep::Saving;
                WatchTask::Save
            },
            (WatchStep::Decoding, WatchReply::Failed) => {
                self.step = WatchStep::Receiving;
                WatchTask::Receive
            },
            (WatchStep::Saving, WatchReply::Saved { hash }) => {
                self.count = self.count.saturating_add(1);
                self.step = WatchStep::Applying;
                WatchTask::Apply { view: self.view.clone(), hash }
            },
            (WatchStep::Applying, WatchReply::Applied)
            | (WatchStep::Applying, WatchReply::Failed) => {
                self.step = WatchStep::Receiving;
                WatchTask::Receive
            },
            (WatchStep::Saving, WatchReply::Failed) => {
                self.step = WatchStep::Receiving;
                WatchTask::Receive
            },
            _ => WatchTask::Unexpected,
        }
    }
}

/// A watch ends only where the server refuses it, closes the stream of notifications or
/// breaks it off; it ends well exactly where the server closes the stream.
pub proof fn law_only_the_server_ends_a_watch(
    s: WatchExchange,
    e: WatchReply,
    t: WatchExchange,
    a: WatchTask,
)
    requires
        advances(s, e, t, a),
    ensures
        t.step is Finished && s.step !is Finished <==> (s.step is Listening && (e is Closed
            || e is Failed)) || (s.step is Requesting && e is Failed),
        a is Done <==> s.step is Listening && e is Closed,
{
}

/// A change that cannot be had, decoded, saved or applied never keeps a watch from the next
/// notification or the next change.
pub proof fn law_a_watch_outlives_failed_pulls(
    s: WatchExchange,
    e: WatchReply,
    t: WatchExchange,
    a: WatchTask,
)
    requires
        advances(s, e, t, a),
        e is Failed,
        s.step is Pulling || s.step is Receiving || s.step is Decoding || s.step is Saving
            || s.step is Applying,
    ensures
        a is Listen || a is Receive,
        t.count == s.count,
{
}

/// A watch from its first reply on: `replies[i]` leads from `states[i]` to `states[i + 1]`,
/// and `tasks[i]` is what is done then.
pub open spec fn is_run(
    states: Seq<WatchExchange>,
    replies: Seq<WatchReply>,
    tasks: Seq<WatchTask>,
) -> bool {
    &&& states.len() == replies.len() + 1
    &&& tasks.len() == replies.len()
    &&& states[0].step is Requesting
    &&& forall|i: int|
        0 <= i < replies.len() ==> advances(
            states[i],
            replies[i],
            states[i + 1],
            #[trigger] tasks[i],
        )
}

/// The changes that were saved, in their order.
pub open spec fn saves(states: Seq<WatchExchange>, replies: Seq<WatchReply>) -> Seq<ChangeHash>
    decreases replies.len(),
{
    if replies.len() == 0 || states.len() != replies.len() + 1 {
        Seq::empty()
    } else {
        let rest = saves(states.drop_last(), replies.drop_last());
        match (states[replies.len() - 1].step, replies.last()) {
            (WatchStep::Saving, WatchReply::Saved { hash }) => rest.push(hash),
            _ => rest,
        }
    }
}

/// The changes that are applied, in their order.
pub open spec fn applied(tasks: Seq<WatchTask>) -> Seq<ChangeHash>
    decreases tasks.len(),
{
    if tasks.len() == 0 {
        Seq::empty()
    } else {
        let rest = applied(tasks.drop_last());
        match tasks.last() {
            WatchTask::Apply { hash, .. } => rest.push(hash),
            _ => rest,
        }
    }
}

/// Every change that a watch saves is applied to the watched view before anything else is
/// received, and nothing else is: at every point of a watch the changes applied are those
/// saved, in the same order.
pub proof fn law_saved_changes_are_applied(
    states: Seq<WatchExchange>,
    replies: Seq<WatchReply>,
    tasks: Seq<WatchTask>,
)
    requires
        is_run(states, replies, tasks),
    ensures
        applied(tasks) == saves(states, replies),
        forall|i: int|
            0 <= i < tasks.len() ==> (#[trigger] tasks[i] matches WatchTask::Apply {
                view,
                ..
            } ==> view == states[0].view),
        states.last().view == states[0].view,
    decreases tasks.len(),
{
    if tasks.len() > 0 {
        let ss = states.drop_last();
        let rs = replies.drop_last();
        let ts = tasks.drop_last();
        assert forall|i: int| 0 <= i < rs.len() implies advances(
            ss[i],
            rs[i],
            ss[i + 1],
            #[trigger] ts[i],
        ) by {
            assert(ts[i] == tasks[i]);
        }
        law_saved_changes_are_applied(ss, rs, ts);
        assert(forall|j: int| 0 <= j < ts.len() ==> #[trigger] tasks[j] == ts[j]);
        let i = tasks.len() - 1;
        assert(advances(states[i], replies[i], states[i + 1], tasks[i]));
    }
}

/// A change that is being applied is done with before the next one is received: what came of
/// it leads to the next change, whether or not it was applied, and the watch goes on.
pub proof fn law_an_application_leads_to_the_next_change(
    s: WatchExchange,
    e: WatchReply,
    t: WatchExchange,
    a: WatchTask,
)
    requires
        advances(s, e, t, a),
    ensures
        a is Apply <==> s.step is Saving && e is Saved,
        a is Apply ==> t.step is Applying && e->hash == a->Apply_hash && a->view == s.view,
        s.step is Applying && (e is Applied || e is Failed) ==> a is Receive && t.step is Receiving,
{
}

} // verus!
