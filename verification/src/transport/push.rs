//! A push to the server over gRPC, step by step.
//!
//! The client asks which changes the server has. It then streams a header, the hashes of all
//! local changes and the data of each change that the server lacks, and reads the result.

use vstd::prelude::*;

use crate::types::{ChangeHash, ChangeSet};

use super::messages;
use super::messages::{have_list, readable_hashes, view_request, ViewRequest};

verus! {

/// The counts of a push.
#[derive(Debug, Clone, Copy, PartialEq, Eq)]
pub struct PushStats {
    /// Changes that were sent.
    pub uploaded: usize,
    /// Changes that the server had already.
    pub already_present: usize,
    /// Changes that the server turned down.
    pub rejected: usize,
}

impl Default for PushStats {
    fn default() -> (stats: PushStats)
        ensures
            stats == (PushStats { uploaded: 0, already_present: 0, rejected: 0 }),
    {
        PushStats { uploaded: 0, already_present: 0, rejected: 0 }
    }
}

/// Which step a push is at.
#[derive(Debug, Clone, Copy, PartialEq, Eq, Structural)]
pub enum PushStep {
    /// Reading which changes the server has.
    Listing,
    /// Sending the header.
    SendingHeader,
    /// Sending the hashes of the local changes.
    SendingHave,
    /// Loading and serializing a change.
    Loading,
    /// Sending a change.
    SendingChange,
    /// Waiting for the result.
    AwaitingResult,
    /// Nothing is left to do.
    Finished,
}

/// What came of a step.
#[derive(Debug)]
pub enum PushReply {
    /// The server has a change with this hash.
    Entry(Vec<u8>),
    /// The server has no other change.
    End,
    /// The message was sent.
    Sent,
    /// The change was loaded and serialized.
    Loaded(Vec<u8>),
    /// The change was loaded and could not be serialized.
    NotSerialized,
    /// The result of the push.
    Result {
        /// How many changes the server turned down.
        rejected: u32,
    },
    /// The step failed.
    Failed,
}

/// What to do next.
#[derive(Debug)]
pub enum PushTask {
    /// Ask which changes the server has, and read the first.
    ListHashes(ViewRequest),
    /// Read the next change that the server has.
    NextEntry,
    /// Send the header.
    SendHeader(ViewRequest),
    /// Send the hashes of the local changes.
    SendHave {
        /// Their bytes.
        hashes: Vec<Vec<u8>>,
    },
    /// Load and serialize a change.
    Load {
        /// Its hash.
        hash: ChangeHash,
    },
    /// Send a change.
    SendChange {
        /// Its data.
        bytes: Vec<u8>,
    },
    /// End the stream and wait for the result.
    AwaitResult,
    /// Give these counts, and stop.
    Done(PushStats),
    /// Stop with the error of the step that failed.
    Abort {
        /// What was being done; empty where nothing is to be said of it.
        context: &'static str,
    },
    /// The reply does not belong to the step: nothing to do.
    Unexpected,
}

/// A push on its way. Only `push_changes` makes one; its fields are there to be read.
#[derive(Debug)]
#[non_exhaustive]
pub struct PushExchange {
    /// The owner of the repository.
    pub owner: String,
    /// The name of the repository.
    pub repo: String,
    /// The view.
    pub view: String,
    /// The step that it is at.
    pub step: PushStep,
    /// The local changes.
    pub local: Vec<ChangeHash>,
    /// The changes that the server has.
    pub server: ChangeSet,
    /// The changes to send.
    pub to_upload: Vec<ChangeHash>,
    /// Which of them is on its way.
    pub next: usize,
}

/// The local changes that the server lacks, in their order.
pub open spec fn absent(local: Seq<ChangeHash>, server: Set<ChangeHash>) -> Seq<ChangeHash> {
    local.filter(|h: ChangeHash| !server.contains(h))
}

impl PushExchange {
    /// What holds at every step of a push.
    pub open spec fn inv(&self) -> bool {
        &&& self.step !is Listing && self.step !is Finished ==> {
            &&& self.to_upload@ == absent(self.local@, self.server@)
            &&& 0 < self.to_upload@.len() <= self.local@.len()
        }
        &&& self.step is Loading || self.step is SendingChange ==> self.next
            < self.to_upload@.len()
        &&& self.step is AwaitingResult ==> self.next == self.to_upload@.len()
        &&& self.step is SendingHeader || self.step is SendingHave ==> self.next == 0
    }
}

/// The push ended in this step.
pub open spec fn ended(s: PushExchange, t: PushExchange) -> bool {
    t == (PushExchange { step: PushStep::Finished, ..s })
}

/// The hash that the server told is known, where it is one.
pub open spec fn noted(s: PushExchange, bytes: Seq<u8>, t: PushExchange) -> bool {
    &&& t == (PushExchange { server: t.server, ..s })
    &&& if bytes.len() == 32 {
        exists|h: ChangeHash|
            h.bytes@ == bytes && t.server@ == #[trigger] s.server@.insert(h)
    } else {
        t.server == s.server
    }
}

/// All that the server has is known: what it lacks is sent, if anything.
pub open spec fn compares(s: PushExchange, t: PushExchange, a: PushTask) -> bool {
    let compared = PushExchange { to_upload: t.to_upload, next: 0, ..s };
    &&& t.to_upload@ == absent(s.local@, s.server@)
    &&& if t.to_upload@.len() == 0 {
        &&& ended(compared, t)
        &&& a == PushTask::Done(
            PushStats { uploaded: 0, already_present: s.local@.len() as usize, rejected: 0 },
        )
    } else {
        &&& t == (PushExchange { step: PushStep::SendingHeader, ..compared })
        &&& a matches PushTask::SendHeader(request) && messages::asks_for(
            request,
            s.owner@,
            s.repo@,
            s.view@,
        )
    }
}

/// The change whose turn it is is loaded or, after the last, the result is awaited.
pub open spec fn sends_next(s: PushExchange, t: PushExchange, a: PushTask) -> bool {
    if s.next < s.to_upload@.len() {
        &&& t == (PushExchange { step: PushStep::Loading, ..s })
        &&& a == (PushTask::Load { hash: s.to_upload@[s.next as int] })
    } else {
        &&& t == (PushExchange { step: PushStep::AwaitingResult, ..s })
        &&& a == PushTask::AwaitResult
    }
}

/// What was being done when a step failed.
pub open spec fn context_of(step: PushStep) -> &'static str {
    match step {
        PushStep::Listing => "",
        PushStep::SendingHeader => "send push header",
        PushStep::SendingHave => "send SyncHave",
        PushStep::Loading => "load change",
        PushStep::SendingChange => "send ChangeData",
        PushStep::AwaitingResult => "push RPC",
        PushStep::Finished => "",
    }
}

/// The step of the push `s` that the reply `e` ends, and the next one.
pub open spec fn advances(s: PushExchange, e: PushReply, t: PushExchange, a: PushTask) -> bool {
    match (s.step, e) {
        (PushStep::Listing, PushReply::Entry(bytes)) => {
            &&& noted(s, bytes@, t)
            &&& a == PushTask::NextEntry
        },
        (PushStep::Listing, PushReply::End) => compares(s, t, a),
        (PushStep::SendingHeader, PushReply::Sent) => {
            &&& t == (PushExchange { step: PushStep::SendingHave, ..s })
            &&& a matches PushTask::SendHave { hashes } && messages::is_have_list(
                hashes@,
                s.local@,
            )
        },
        (PushStep::SendingHave, PushReply::Sent) => sends_next(s, t, a),
        (PushStep::Loading, PushReply::Loaded(bytes)) => {
            &&& t == (PushExchange { step: PushStep::SendingChange, ..s })
            &&& a == (PushTask::SendChange { bytes })
        },
        (PushStep::Loading, PushReply::NotSerialized) => {
            &&& ended(s, t)
            &&& a == (PushTask::Abort { context: "serialize change" })
        },
        (PushStep::SendingChange, PushReply::Sent) => {
            sends_next(PushExchange { next: (s.next + 1) as usize, ..s }, t, a)
        },
        (PushStep::AwaitingResult, PushReply::Result { rejected }) => {
            &&& ended(s, t)
            &&& a == PushTask::Done(
                PushStats {
                    uploaded: s.next,
                    already_present: (s.local@.len() - s.to_upload@.len()) as usize,
                    rejected: rejected as usize,
                },
            )
        },
        (PushStep::Finished, _) => t == s && a == PushTask::Unexpected,
        (step, PushReply::Failed) => {
            &&& ended(s, t)
            &&& a == (PushTask::Abort { context: context_of(step) })
        },
        _ => t == s && a == PushTask::Unexpected,
    }
}

/// The push before its first reply.
pub open spec fn is_started(
    s: PushExchange,
    owner: Seq<char>,
    repo: Seq<char>,
    view: Seq<char>,
    local: Seq<ChangeHash>,
) -> bool {
    &&& s.owner@ == owner
    &&& s.repo@ == repo
    &&& s.view@ == view
    &&& s.step is Listing
    &&& s.local@ == local
    &&& s.server@ == Set::<ChangeHash>::empty()
    &&& s.to_upload@.len() == 0
    &&& s.next == 0
}

/// Begin a push of the changes of a store, as far as their hashes could be read.
pub fn push_changes(
    owner: &str,
    repo: &str,
    view: &str,
    listed: &Vec<Option<ChangeHash>>,
) -> (begun: (PushExchange, PushTask))
    ensures
        is_started(begun.0, owner@, repo@, view@, messages::readable(listed@)),
        begun.0.inv(),
        begun.1 matches PushTask::ListHashes(request) && messages::asks_for(
            request,
            owner@,
            repo@,
            view@,
        ),
{
    let exchange = PushExchange {
        owner: owner.to_string(),
        repo: repo.to_string(),
        view: view.to_string(),
        step: PushStep::Listing,
        local: readable_hashes(listed),
        server: ChangeSet::new(),
        to_upload: Vec::new(),
        next: 0,
    };
    let request = view_request(&exchange.owner, &exchange.repo, &exchange.view);
    (exchange, PushTask::ListHashes(request))
}

/// The local changes that the server lacks.
pub fn find_absent(local: &Vec<ChangeHash>, server: &ChangeSet) -> (found: Vec<ChangeHash>)
    ensures
        found@ == absent(local@, server@),
        found@.len() <= local@.len(),
{
    let mut found: Vec<ChangeHash> = Vec::new();
    let mut i: usize = 0;
    let ghost lacks = |h: ChangeHash| !server@.contains(h);
    proof {
        reveal(Seq::filter);
    }
    while i < local.len()
        invariant
            i <= local@.len(),
            lacks == (|h: ChangeHash| !server@.contains(h)),
            found@ == local@.take(i as int).filter(lacks),
            found@.len() <= i,
        decreases local@.len() - i,
    {
        proof {
            reveal(Seq::filter);
            assert(local@.take(i + 1).drop_last() =~= local@.take(i as int));
        }
        if !server.contains(&local[i]) {
            found.push(local[i]);
        }
        i = i + 1;
    }
    assert(local@.take(i as int) =~= local@);
    found
}

/// What was being done when a step failed.
fn failure_context(step: PushStep) -> (context: &'static str)
    ensures
        context == context_of(step),
{
    match step {
        PushStep::Listing => "",
        PushStep::SendingHeader => "send push header",
        PushStep::SendingHave => "send SyncHave",
        PushStep::Loading => "load change",
        PushStep::SendingChange => "send ChangeData",
        PushStep::AwaitingResult => "push RPC",
        PushStep::Finished => "",
    }
}

impl PushExchange {
    /// End the step that the push is at, with what came of it, and say what to do next.
    pub fn advance(&mut self, reply: PushReply) -> (task: PushTask)
        requires
            old(self).inv(),
        ensures
            advances(*old(self), reply, *final(self), task),
            final(self).inv(),
    {
        match (self.step, reply) {
            (PushStep::Listing, PushReply::Entry(bytes)) => {
                self.note(&bytes);
                PushTask::NextEntry
            },
            (PushStep::Listing, PushReply::End) => self.compare_all(),
            (PushStep::SendingHeader, PushReply::Sent) => {
                self.step = PushStep::SendingHave;
                PushTask::SendHave { hashes: have_list(&self.local) }
            },
            (PushStep::SendingHave, PushReply::Sent) => self.send_next(),
            (PushStep::Loading, PushReply::Loaded(bytes)) => {
                self.step = PushStep::SendingChange;
                PushTask::SendChange { bytes }
            },
            (PushStep::Loading, PushReply::NotSerialized) => {
                self.step = PushStep::Finished;
                PushTask::Abort { context: "serialize change" }
            },
            (PushStep::SendingChange, PushReply::Sent) => {
                let total: usize = self.to_upload.len();
                assert(self.next < total);
                self.next = self.next + 1;
                self.send_next()
            },
            (PushStep::AwaitingResult, PushReply::Result { rejected }) => {
                self.step = PushStep::Finished;
                PushTask::Done(
                    PushStats {
                        uploaded: self.next,
                        already_present: self.local.len() - self.to_upload.len(),
                        rejected: rejected as usize,
                    },
                )
            },
            (PushStep::Finished, _) => PushTask::Unexpected,
            (step, PushReply::Failed) => {
                self.step = PushStep::Finished;
                PushTask::Abort { context: failure_context(step) }
            },
            _ => PushTask::Unexpected,
        }
    }

    /// Note a hash that the server told, where it is one.
    fn note(&mut self, bytes: &Vec<u8>)
        ensures
            noted(*old(self), bytes@, *final(self)),
    {
        let ghost known = self.server@;
        if let Some(hash) = ChangeHash::from_slice(bytes) {
            self.server.insert(hash);
            assert(self.server@ == known.insert(hash));
        }
    }

    /// Compare what the server has with what there is.
    fn compare_all(&mut self) -> (task: PushTask)
        ensures
            compares(*old(self), *final(self), task),
            final(self).inv(),
    {
        self.to_upload = find_absent(&self.local, &self.server);
        self.next = 0;
        if self.to_upload.len() == 0 {
            self.step = PushStep::Finished;
            return PushTask::Done(
                PushStats { uploaded: 0, already_present: self.local.len(), rejected: 0 },
            );
        }
        self.step = PushStep::SendingHeader;
        PushTask::SendHeader(view_request(&self.owner, &self.repo, &self.view))
    }

    /// Load the change whose turn it is, or await the result.
    fn send_next(&mut self) -> (task: PushTask)
        ensures
            sends_next(*old(self), *final(self), task),
    {
        if self.next < self.to_upload.len() {
            self.step = PushStep::Loading;
            PushTask::Load { hash: self.to_upload[self.next] }
        } else {
            self.step = PushStep::AwaitingResult;
            PushTask::AwaitResult
        }
    }
}

/// What is sent is what the server lacks: local changes that it did not list, each as often
/// and in the order in which the store lists them.
pub proof fn law_only_absent_changes_are_sent(local: Seq<ChangeHash>, server: Set<ChangeHash>)
    ensures
        forall|h: ChangeHash| #[trigger]
            absent(local, server).contains(h) <==> local.contains(h) && !server.contains(h),
    decreases local.len(),
{
    reveal(Seq::filter);
    let a = absent(local, server);
    if local.len() > 0 {
        let rest = local.drop_last();
        let ar = absent(rest, server);
        law_only_absent_changes_are_sent(rest, server);
        assert forall|h: ChangeHash| #[trigger] a.contains(h) <==> local.contains(h)
            && !server.contains(h) by {
            if a.contains(h) {
                let k = choose|k: int| 0 <= k < a.len() && a[k] == h;
                if k < ar.len() {
                    assert(ar[k] == h);
                    assert(ar.contains(h));
                    let j = choose|j: int| 0 <= j < rest.len() && rest[j] == h;
                    assert(local[j] == h);
                } else {
                    assert(local[local.len() - 1] == h);
                }
            }
            if local.contains(h) && !server.contains(h) {
                let j = choose|j: int| 0 <= j < local.len() && local[j] == h;
                if j < rest.len() {
                    assert(rest[j] == h);
                    assert(ar.contains(h));
                    let k = choose|k: int| 0 <= k < ar.len() && ar[k] == h;
                    assert(a[k] == h);
                } else {
                    assert(a[ar.len() as int] == h);
                }
            }
        }
    }
}

/// A push from its first reply on: `replies[i]` leads from `states[i]` to `states[i + 1]`,
/// and `tasks[i]` is what is done then.
pub open spec fn is_run(
    states: Seq<PushExchange>,
    replies: Seq<PushReply>,
    tasks: Seq<PushTask>,
) -> bool {
    &&& states.len() == replies.len() + 1
    &&& tasks.len() == replies.len()
    &&& states[0].step is Listing
    &&& states[0].inv()
    &&& forall|i: int|
        0 <= i < replies.len() ==> advances(
            states[i],
            replies[i],
            states[i + 1],
            #[trigger] tasks[i],
        )
}

/// The changes that are loaded to be sent, in their order.
pub open spec fn loaded(tasks: Seq<PushTask>) -> Seq<ChangeHash>
    decreases tasks.len(),
{
    if tasks.len() == 0 {
        Seq::empty()
    } else {
        match tasks.last() {
            PushTask::Load { hash } => loaded(tasks.drop_last()).push(hash),
            _ => loaded(tasks.drop_last()),
        }
    }
}

/// What has been loaded when a push is at `t`.
spec fn is_sent(t: PushExchange, sent: Seq<ChangeHash>) -> bool {
    match t.step {
        PushStep::Loading | PushStep::SendingChange => sent == t.to_upload@.take(t.next + 1),
        PushStep::AwaitingResult => sent == t.to_upload@,
        PushStep::Finished => {
            &&& sent.len() > 0 ==> t.to_upload@ == absent(t.local@, t.server@)
            &&& sent.len() <= t.to_upload@.len()
            &&& sent == t.to_upload@.take(sent.len() as int)
        },
        _ => sent.len() == 0,
    }
}

proof fn lemma_sent(
    states: Seq<PushExchange>,
    replies: Seq<PushReply>,
    tasks: Seq<PushTask>,
)
    requires
        is_run(states, replies, tasks),
    ensures
        states.last().inv(),
        states.last().local == states[0].local,
        is_sent(states.last(), loaded(tasks)),
        tasks.len() > 0 && tasks.last() is Done ==> {
            &&& loaded(tasks) == absent(states.last().local@, states.last().server@)
            &&& tasks.last()->Done_0.uploaded == loaded(tasks).len()
            &&& tasks.last()->Done_0.uploaded + tasks.last()->Done_0.already_present
                == states.last().local@.len()
        },
    decreases tasks.len(),
{
    if tasks.len() > 0 {
        let ss = states.drop_last();
        let rs = replies.drop_last();
        let ts = tasks.drop_last();
        assert forall|i: int| 0 <= i < rs.len() implies advances(
            ss[i],
            rs[i],
            ss[i + 1],
            #[trigger] ts[i],
        ) by {
            assert(ts[i] == tasks[i]);
        }
        lemma_sent(ss, rs, ts);
        let i = tasks.len() - 1;
        let s = states[i];
        let t = states[i + 1];
        assert(advances(s, replies[i], t, tasks[i]));
        assert(s.to_upload.len() == s.to_upload@.len());
        assert(s.local.len() == s.local@.len());
        lemma_absent_len(s.local@, s.server@);
        let before = loaded(ts);
        let after = loaded(tasks);
        assert(before =~= before.take(before.len() as int));
        let plan = s.to_upload@;
        match s.step {
            PushStep::SendingChange => {
                if s.next + 1 < plan.len() {
                    assert(plan.take(s.next + 1).push(plan[s.next + 1]) =~= plan.take(s.next + 2));
                } else {
                    assert(plan.take(s.next + 1) =~= plan);
                }
            },
            _ => {
                assert(before.len() == 0 ==> before =~= t.to_upload@.take(0));
                assert(plan.take(plan.len() as int) =~= plan);
                if tasks[i] is Load {
                    assert(before.push(plan[0]) =~= plan.take(1));
                }
            },
        }
    }
}

/// The server never lacks more than there is.
pub proof fn lemma_absent_len(local: Seq<ChangeHash>, server: Set<ChangeHash>)
    ensures
        absent(local, server).len() <= local.len(),
    decreases local.len(),
{
    reveal(Seq::filter);
    if local.len() > 0 {
        lemma_absent_len(local.drop_last(), server);
    }
}

/// A push sends the changes that the server lacks in the order of the store and without a
/// gap; one that comes to its end has sent them all.
pub proof fn law_absent_changes_are_sent_in_order(
    states: Seq<PushExchange>,
    replies: Seq<PushReply>,
    tasks: Seq<PushTask>,
)
    requires
        is_run(states, replies, tasks),
    ensures
        loaded(tasks).len() > 0 ==> {
            let all = absent(states.last().local@, states.last().server@);
            &&& loaded(tasks).len() <= all.len()
            &&& loaded(tasks) == all.take(loaded(tasks).len() as int)
        },
        tasks.len() > 0 && tasks.last() is Done ==> loaded(tasks) == absent(
            states.last().local@,
            states.last().server@,
        ),
{
    lemma_sent(states, replies, tasks);
    let sent = loaded(tasks);
    assert(sent =~= sent.take(sent.len() as int));
}

/// The counts of a push that comes to its end add up: every local change was sent or was
/// on the server before.
pub proof fn law_push_counts_add_up(
    states: Seq<PushExchange>,
    replies: Seq<PushReply>,
    tasks: Seq<PushTask>,
)
    requires
        is_run(states, replies, tasks),
        tasks.len() > 0,
        tasks.last() is Done,
    ensures
        tasks.last()->Done_0.uploaded == loaded(tasks).len(),
        tasks.last()->Done_0.uploaded + tasks.last()->Done_0.already_present
            == states[0].local@.len(),
{
    lemma_sent(states, replies, tasks);
}

/// The server listed this change: a reply with its hash came while the list was read.
pub open spec fn was_listed(
    states: Seq<PushExchange>,
    replies: Seq<PushReply>,
    hash: ChangeHash,
) -> bool {
    exists|i: int|
        0 <= i < replies.len() && states[i].step is Listing && is_entry(
            #[trigger] replies[i],
            hash,
        )
}

/// The reply says that the server has the change.
pub open spec fn is_entry(reply: PushReply, hash: ChangeHash) -> bool {
    reply matches PushReply::Entry(bytes) && bytes@ == hash.bytes@
}

/// What counts as being on the server is exactly what it listed; an entry that is no hash
/// counts for nothing.
pub proof fn law_server_has_what_it_listed(
    states: Seq<PushExchange>,
    replies: Seq<PushReply>,
    tasks: Seq<PushTask>,
)
    requires
        is_run(states, replies, tasks),
        states[0].server@ == Set::<ChangeHash>::empty(),
    ensures
        forall|h: ChangeHash| #[trigger]
            states.last().server@.contains(h) <==> was_listed(states, replies, h),
    decreases tasks.len(),
{
    if tasks.len() > 0 {
        let ss = states.drop_last();
        let rs = replies.drop_last();
        let ts = tasks.drop_last();
        assert forall|i: int| 0 <= i < rs.len() implies advances(
            ss[i],
            rs[i],
            ss[i + 1],
            #[trigger] ts[i],
        ) by {
            assert(ts[i] == tasks[i]);
        }
        law_server_has_what_it_listed(ss, rs, ts);
        let n = tasks.len() - 1;
        let s = states[n];
        let t = states[n + 1];
        let e = replies[n];
        assert(advances(s, e, t, tasks[n]));
        assert(ss.last() == s);
        assert forall|h: ChangeHash| #[trigger] t.server@.contains(h) <==> was_listed(
            states,
            replies,
            h,
        ) by {
            assert(s.server@.contains(h) <==> was_listed(ss, rs, h));
            if was_listed(ss, rs, h) {
                let i = choose|i: int|
                    0 <= i < rs.len() && ss[i].step is Listing && is_entry(#[trigger] rs[i], h);
                assert(replies[i] == rs[i]);
                assert(states[i] == ss[i]);
            }
            if was_listed(states, replies, h) {
                let i = choose|i: int|
                    0 <= i < replies.len() && states[i].step is Listing && is_entry(
                        #[trigger] replies[i],
                        h,
                    );
                if i < n {
                    assert(replies[i] == rs[i]);
                    assert(states[i] == ss[i]);
                    assert(was_listed(ss, rs, h));
                }
            }
            if s.step is Listing && e is Entry {
                let bytes = e->Entry_0@;
                if bytes.len() == 32 {
                    let told = choose|k: ChangeHash|
                        k.bytes@ == bytes && t.server@ == #[trigger] s.server@.insert(k);
                    if h.bytes@ == bytes {
                        assert(h.bytes =~= told.bytes);
                        assert(h == told);
                        assert(is_entry(replies[n], h));
                    }
                    if h == told {
                        assert(is_entry(replies[n], h));
                    }
                } else {
                    assert(h.bytes@.len() == 32);
                }
            }
        }
    }
}

} // verus!
