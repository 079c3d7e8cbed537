//! A pull from the server over gRPC, step by step.
//!
//! The client tells which changes it has. The server streams the data of all others, and
//! the client decodes and saves each.

use vstd::prelude::*;

use crate::types::ChangeHash;

use super::messages;
use super::messages::{have_list, readable_hashes, view_request, PullRequest};

verus! {

/// The counts of a pull.
#[derive(Debug, Clone, Copy, PartialEq, Eq)]
pub struct PullStats {
    /// Changes that were received and saved.
    pub downloaded: usize,
    /// Changes that were there before.
    pub already_present: usize,
}

impl Default for PullStats {
    fn default() -> (stats: PullStats)
        ensures
            stats == (PullStats { downloaded: 0, already_present: 0 }),
    {
        PullStats { downloaded: 0, already_present: 0 }
    }
}

/// Which step a pull is at.
#[derive(Debug, Clone, Copy, PartialEq, Eq, Structural)]
pub enum PullStep {
    /// Asking for the changes.
    Requesting,
    /// Waiting for the next change.
    Receiving,
    /// Decoding a change.
    Decoding,
    /// Saving a change.
    Saving,
    /// Nothing is left to do.
    Finished,
}

/// What came of a step.
#[derive(Debug)]
pub enum PullReply {
    /// The server takes the request.
    Opened,
    /// The data of a change.
    Data(Vec<u8>),
    /// There is no other change.
    End,
    /// The change was decoded.
    Decoded,
    /// The change was saved.
    Saved {
        /// Its hash.
        hash: ChangeHash,
    },
    /// The step failed.
    Failed,
}

/// What to do next.
#[derive(Debug)]
pub enum PullTask {
    /// Ask for the changes.
    Request(PullRequest),
    /// Wait for the next change.
    Receive,
    /// Decode the change.
    Decode {
        /// Its data.
        bytes: Vec<u8>,
    },
    /// Save the change that was decoded.
    Save,
    /// Give these counts, and stop.
    Done(PullStats),
    /// Stop with the error of the step that failed.
    Abort {
        /// What was being done.
        context: &'static str,
    },
    /// The reply does not belong to the step: nothing to do.
    Unexpected,
}

/// A pull on its way.
#[derive(Debug)]
#[non_exhaustive]
pub struct PullExchange {
    /// The step that it is at.
    pub step: PullStep,
    /// How many changes there were before.
    pub local_count: usize,
    /// The changes that were received and saved, in their order.
    pub saved: Vec<ChangeHash>,
}

/// The request names the view and the changes that are not wanted, and no token.
pub open spec fn requests(
    request: PullRequest,
    owner: Seq<char>,
    repo: Seq<char>,
    view: Seq<char>,
    local: Seq<ChangeHash>,
) -> bool {
    &&& messages::asks_for(request.target, owner, repo, view)
    &&& messages::is_have_list(request.have_hashes@, local)
}

/// A request for what is not in the list.
pub fn pull_request(
    owner: &String,
    repo: &String,
    view: &String,
    local: &Vec<ChangeHash>,
) -> (request: PullRequest)
    ensures
        requests(request, owner@, repo@, view@, local@),
{
    PullRequest { target: view_request(owner, repo, view), have_hashes: have_list(local) }
}

/// The pull ended in this step.
pub open spec fn ended(s: PullExchange, t: PullExchange) -> bool {
    t == (PullExchange { step: PullStep::Finished, ..s })
}

/// The next change is waited for.
pub open spec fn receives(s: PullExchange, t: PullExchange, a: PullTask) -> bool {
    &&& t == (PullExchange { step: PullStep::Receiving, ..s })
    &&& a == PullTask::Receive
}

/// The step of the pull `s` that the reply `e` ends, and the next one. A change without data
/// and one that cannot be decoded are passed over; one that cannot be saved ends the pull.
pub open spec fn advances(s: PullExchange, e: PullReply, t: PullExchange, a: PullTask) -> bool {
    match (s.step, e) {
        (PullStep::Requesting, PullReply::Opened) => receives(s, t, a),
        (PullStep::Requesting, PullReply::Failed) => {
            &&& ended(s, t)
            &&& a == (PullTask::Abort { context: "pull RPC" })
        },
        (PullStep::Receiving, PullReply::Data(bytes)) => {
            if bytes@.len() == 0 {
                receives(s, t, a)
            } else {
                &&& t == (PullExchange { step: PullStep::Decoding, ..s })
                &&& a == (PullTask::Decode { bytes })
            }
        },
        (PullStep::Receiving, PullReply::End) => {
            &&& ended(s, t)
            &&& a == PullTask::Done(
                PullStats {
                    downloaded: s.saved@.len() as usize,
                    already_present: s.local_count,
                },
            )
        },
        (PullStep::Receiving, PullReply::Failed) => {
            &&& ended(s, t)
            &&& a == (PullTask::Abort { context: "receive ChangeData" })
        },
        (PullStep::Decoding, PullReply::Decoded) => {
            &&& t == (PullExchange { step: PullStep::Saving, ..s })
            &&& a == PullTask::Save
        },
        (PullStep::Decoding, PullReply::Failed) => receives(s, t, a),
        (PullStep::Saving, PullReply::Saved { hash }) => {
            &&& t.saved@ == s.saved@.push(hash)
            &&& receives(PullExchange { saved: t.saved, ..s }, t, a)
        },
        (PullStep::Saving, PullReply::Failed) => {
            &&& ended(s, t)
            &&& a == (PullTask::Abort { context: "save pulled change" })
        },
        _ => t == s && a == PullTask::Unexpected,
    }
}

/// Begin a pull into a store whose changes are these, as far as their hashes could be read.
pub fn pull_changes(
    owner: &str,
    repo: &str,
    view: &str,
    listed: &Vec<Option<ChangeHash>>,
) -> (begun: (PullExchange, PullTask))
    ensures
        begun.0.step is Requesting,
        begun.0.saved@.len() == 0,
        begun.0.local_count == messages::readable(listed@).len(),
        begun.1 matches PullTask::Request(request) && requests(
            request,
            owner@,
            repo@,
            view@,
            messages::readable(listed@),
        ),
{
    let local = readable_hashes(listed);
    let request = pull_request(&owner.to_string(), &repo.to_string(), &view.to_string(), &local);
    (
        PullExchange {
            step: PullStep::Requesting,
            local_count: local.len(),
            saved: Vec::new(),
        },
        PullTask::Request(request),
    )
}

impl PullExchange {
    /// End the step that the pull is at, with what came of it, and say what to do next.
    pub fn advance(&mut self, reply: PullReply) -> (task: PullTask)
        ensures
            advances(*old(self), reply, *final(self), task),
    {
        match (self.step, reply) {
            (PullStep::Requesting, PullReply::Opened) => {
                self.step = PullStep::Receiving;
                PullTask::Receive
            },
            (PullStep::Requesting, PullReply::Failed) => {
                self.step = PullStep::Finished;
                PullTask::Abort { context: "pull RPC" }
            },
            (PullStep::Receiving, PullReply::Data(bytes)) => {
                if bytes.len() == 0 {
                    PullTask::Receive
                } else {
                    self.step = PullStep::Decoding;
                    PullTask::Decode { bytes }
                }
            },
            (PullStep::Receiving, PullReply::End) => {
                self.step = PullStep::Finished;
                PullTask::Done(
                    PullStats { downloaded: self.saved.len(), already_present: self.local_count },
                )
            },
            (PullStep::Receiving, PullReply::Failed) => {
                self.step = PullStep::Finished;
                PullTask::Abort { context: "receive ChangeData" }
            },
            (PullStep::Decoding, PullReply::Decoded) => {
                self.step = PullStep::Saving;
                PullTask::Save
            },
            (PullStep::Decoding, PullReply::Failed) => {
                self.step = PullStep::Receiving;
                PullTask::Receive
            },
            (PullStep::Saving, PullReply::Saved { hash }) => {
                self.saved.push(hash);
                self.step = PullStep::Receiving;
                PullTask::Receive
            },
            (PullStep::Saving, PullReply::Failed) => {
                self.step = PullStep::Finished;
                PullTask::Abort { context: "save pulled change" }
            },
            _ => PullTask::Unexpected,
        }
    }
}

/// A pull from its first reply on: `replies[i]` leads from `states[i]` to `states[i + 1]`,
/// and `tasks[i]` is what is done then.
pub open spec fn is_run(
    states: Seq<PullExchange>,
    replies: Seq<PullReply>,
    tasks: Seq<PullTask>,
) -> bool {
    &&& states.len() == replies.len() + 1
    &&& tasks.len() == replies.len()
    &&& states[0].step is Requesting
    &&& states[0].saved@.len() == 0
    &&& forall|i: int|
        0 <= i < replies.len() ==> advances(
            states[i],
            replies[i],
            states[i + 1],
            #[trigger] tasks[i],
        )
}

/// The changes that were saved, in their order.
pub open spec fn saves(replies: Seq<PullReply>, tasks: Seq<PullTask>) -> Seq<ChangeHash>
    decreases replies.len(),
{
    if replies.len() == 0 || tasks.len() != replies.len() {
        Seq::empty()
    } else {
        let rest = saves(replies.drop_last(), tasks.drop_last());
        match (replies.last(), tasks.last()) {
            (PullReply::Saved { hash }, PullTask::Receive) => rest.push(hash),
            _ => rest,
        }
    }
}

/// A pull knows the changes that were saved. The counts of one that comes to its end are
/// those of the changes that were there before and of the changes that were saved.
pub proof fn law_pull_counts_what_was_saved(
    states: Seq<PullExchange>,
    replies: Seq<PullReply>,
    tasks: Seq<PullTask>,
)
    requires
        is_run(states, replies, tasks),
    ensures
        states.last().saved@ == saves(replies, tasks),
        states.last().local_count == states[0].local_count,
        tasks.len() > 0 && tasks.last() is Done ==> {
            &&& tasks.last()->Done_0.downloaded == saves(replies, tasks).len()
            &&& tasks.last()->Done_0.already_present == states[0].local_count
        },
    decreases tasks.len(),
{
    if tasks.len() > 0 {
        let ss = states.drop_last();
        let rs = replies.drop_last();
        let ts = tasks.drop_last();
        assert forall|i: int| 0 <= i < rs.len() implies advances(
            ss[i],
            rs[i],
            ss[i + 1],
            #[trigger] ts[i],
        ) by {
            assert(ts[i] == tasks[i]);
        }
        law_pull_counts_what_was_saved(ss, rs, ts);
        let i = tasks.len() - 1;
        let s = states[i];
        assert(advances(s, replies[i], states[i + 1], tasks[i]));
        assert(s.saved.len() == s.saved@.len());
    } else {
        assert(states.last().saved@ =~= saves(replies, tasks));
    }
}

} // verus!
