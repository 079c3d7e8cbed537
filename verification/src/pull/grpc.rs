//! The `pull` command over gRPC, step by step.

use vstd::prelude::*;

use crate::error::CliError;
use crate::text;
use crate::text::{decimal_text, format_count};
use crate::transport::auth::TokenRequest;
use crate::transport::parse_owner_repo;
use crate::transport::url;
use crate::types::ChangeHash;

verus! {

/// The environment variable that may hold a token.
pub const TOKEN_VARIABLE: &'static str = "ATOMIC_GRPC_TOKEN";

/// Which step a pull over gRPC is at.
#[derive(Debug, Clone, Copy, PartialEq, Eq, Structural)]
pub enum GrpcPullStep {
    /// Reading the environment variable.
    ReadingEnv,
    /// Asking the user for name and password.
    Prompting,
    /// Asking the server for a token.
    RequestingToken,
    /// Connecting to the server.
    Connecting,
    /// Pulling the changes.
    Pulling,
    /// Applying a change to the local view.
    Applying,
    /// Nothing is left to do.
    Finished,
}

/// What came of a step.
#[derive(Debug)]
pub enum GrpcPullEvent {
    /// What the environment variable holds, where it is set.
    Env(Option<String>),
    /// The name and the password.
    Credentials(TokenRequest),
    /// The token.
    Token(String),
    /// The server can be reached.
    Connected,
    /// The changes were pulled.
    Pulled {
        /// Those that were downloaded and saved, in their order.
        changes: Vec<ChangeHash>,
    },
    /// The change was applied.
    Applied,
    /// The step failed; why.
    Failed(String),
}

/// What to do next.
#[derive(Debug)]
pub enum GrpcPullAction {
    /// Show these lines, and stop.
    ShowDryRun {
        /// The first.
        headline: String,
        /// The second.
        remark: &'static str,
    },
    /// Read an environment variable.
    ReadEnv {
        /// Its name.
        name: &'static str,
    },
    /// Ask the user for name and password.
    Prompt,
    /// Ask the server for a token.
    RequestToken {
        /// The server.
        grpc_url: String,
        /// The name and the password.
        request: TokenRequest,
    },
    /// Connect to the server.
    Connect {
        /// The server.
        grpc_url: String,
        /// The token.
        token: String,
    },
    /// Pull the changes.
    Pull {
        /// The owner of the repository.
        owner: String,
        /// The name of the repository.
        repo: String,
        /// The view.
        view: String,
    },
    /// Apply a change, with the changes that it depends on.
    Apply {
        /// The change.
        hash: ChangeHash,
        /// To this view.
        view: String,
    },
    /// Say that the pull is done, and stop.
    Complete {
        /// In these words.
        text: String,
    },
    /// Stop with this error.
    Fail(CliError),
    /// The event does not belong to the step: nothing to do.
    Unexpected,
}

/// A pull over gRPC on its way.
#[derive(Debug)]
#[non_exhaustive]
pub struct GrpcPull {
    /// The address of the server.
    pub grpc_url: String,
    /// The owner of the repository.
    pub owner: String,
    /// The name of the repository.
    pub repo: String,
    /// The view that is pulled from.
    pub view: String,
    /// The view that is pulled into.
    pub local_view: String,
    /// Changes are to be downloaded and not applied.
    pub download_only: bool,
    /// The step that it is at.
    pub step: GrpcPullStep,
    /// The changes that were downloaded.
    pub changes: Vec<ChangeHash>,
    /// Which of them is being applied.
    pub next: usize,
}

/// What goes before the reason for a failure of this step.
pub open spec fn blame(step: GrpcPullStep) -> Seq<char> {
    match step {
        GrpcPullStep::Prompting => "prompt error: "@,
        GrpcPullStep::RequestingToken => "authentication failed: "@,
        GrpcPullStep::Connecting => "gRPC connect: "@,
        GrpcPullStep::Pulling => "gRPC pull: "@,
        _ => Seq::empty(),
    }
}

/// What is said at the end of a pull.
pub open spec fn outcome_text(downloaded: nat, download_only: bool) -> Seq<char> {
    if downloaded == 0 {
        "Already up to date"@
    } else if download_only {
        "Downloaded "@ + text::counted(downloaded, "change"@) + " (not applied)"@
    } else {
        "Pull complete: "@ + text::decimal(downloaded) + " new change(s) downloaded"@
    }
}

/// The server is connected to.
pub open spec fn connects(s: GrpcPull, token: String, t: GrpcPull, a: GrpcPullAction) -> bool {
    &&& t == (GrpcPull { step: GrpcPullStep::Connecting, ..s })
    &&& a == (GrpcPullAction::Connect { grpc_url: s.grpc_url, token })
}

/// The pull ended in this step.
pub open spec fn ended(s: GrpcPull, t: GrpcPull) -> bool {
    t == (GrpcPull { step: GrpcPullStep::Finished, ..s })
}

/// The change whose turn it is is applied to the local view or, after the last, the pull
/// ends. Nothing is applied where changes are only to be downloaded.
pub open spec fn applies_next(s: GrpcPull, t: GrpcPull, a: GrpcPullAction) -> bool {
    if !s.download_only && s.next < s.changes@.len() {
        &&& t == (GrpcPull { step: GrpcPullStep::Applying, ..s })
        &&& a == (GrpcPullAction::Apply {
            hash: s.changes@[s.next as int],
            view: s.local_view,
        })
    } else {
        &&& ended(s, t)
        &&& a matches GrpcPullAction::Complete { text } && text@ == outcome_text(
            s.changes@.len(),
            s.download_only,
        )
    }
}

/// The step of the pull `s` that the event `e` ends, and the next one. A change that cannot
/// be applied does not keep the others from it.
pub open spec fn advances(s: GrpcPull, e: GrpcPullEvent, t: GrpcPull, a: GrpcPullAction) -> bool {
    match (s.step, e) {
        (GrpcPullStep::ReadingEnv, GrpcPullEvent::Env(value)) => {
            match value {
                Some(token) if token@.len() > 0 => connects(s, token, t, a),
                _ => {
                    &&& t == (GrpcPull { step: GrpcPullStep::Prompting, ..s })
                    &&& a == GrpcPullAction::Prompt
                },
            }
        },
        (GrpcPullStep::Prompting, GrpcPullEvent::Credentials(request)) => {
            &&& t == (GrpcPull { step: GrpcPullStep::RequestingToken, ..s })
            &&& a == (GrpcPullAction::RequestToken { grpc_url: s.grpc_url, request })
        },
        (GrpcPullStep::RequestingToken, GrpcPullEvent::Token(token)) => connects(s, token, t, a),
        (GrpcPullStep::Connecting, GrpcPullEvent::Connected) => {
            &&& t == (GrpcPull { step: GrpcPullStep::Pulling, ..s })
            &&& a == (GrpcPullAction::Pull { owner: s.owner, repo: s.repo, view: s.view })
        },
        (GrpcPullStep::Pulling, GrpcPullEvent::Pulled { changes }) => {
            applies_next(GrpcPull { changes, next: 0, ..s }, t, a)
        },
        (GrpcPullStep::Applying, GrpcPullEvent::Applied)
        | (GrpcPullStep::Applying, GrpcPullEvent::Failed(_)) => {
            applies_next(GrpcPull { next: s.next.saturating_add(1), ..s }, t, a)
        },
        (GrpcPullStep::ReadingEnv, _) | (GrpcPullStep::Finished, _) => {
            t == s && a == GrpcPullAction::Unexpected
        },
        (step, GrpcPullEvent::Failed(why)) => {
            &&& ended(s, t)
            &&& a matches GrpcPullAction::Fail(CliError::Internal(text)) && text@ == blame(step)
                + why@
        },
        _ => t == s && a == GrpcPullAction::Unexpected,
    }
}

/// Begin a pull over gRPC. A dry run ends at once, without a connection.
pub fn run_grpc_pull(
    grpc_url: &str,
    view: &str,
    local_view: &str,
    dry_run: bool,
    download_only: bool,
) -> (begun: (GrpcPull, GrpcPullAction))
    ensures
        begun.0.local_view@ == local_view@,
        begun.0.download_only == download_only,
        begun.0.changes@.len() == 0,
        begun.0.grpc_url@ == grpc_url@,
        (begun.0.owner@, begun.0.repo@) == url::owner_repo(grpc_url@),
        begun.0.view@ == view@,
        if dry_run {
            &&& begun.0.step is Finished
            &&& begun.1 matches GrpcPullAction::ShowDryRun { headline, remark } && {
                &&& headline@ == "Dry run: would pull from "@ + begun.0.owner@ + "/"@
                    + begun.0.repo@ + " view="@ + view@
                &&& remark == "(gRPC dry run does not compute exact delta without connecting)"
            }
        } else {
            &&& begun.0.step is ReadingEnv
            &&& begun.1 == (GrpcPullAction::ReadEnv { name: "ATOMIC_GRPC_TOKEN" })
        },
{
    let (owner, repo) = parse_owner_repo(grpc_url);
    if dry_run {
        let mut headline = "Dry run: would pull from ".to_string();
        headline.append(owner.as_str());
        headline.append("/");
        headline.append(repo.as_str());
        headline.append(" view=");
        headline.append(view);
        let pull = GrpcPull {
            grpc_url: grpc_url.to_string(),
            owner,
            repo,
            view: view.to_string(),
            local_view: local_view.to_string(),
            download_only,
            step: GrpcPullStep::Finished,
            changes: Vec::new(),
            next: 0,
        };
        let action = GrpcPullAction::ShowDryRun {
            headline,
            remark: "(gRPC dry run does not compute exact delta without connecting)",
        };
        return (pull, action);
    }
    let pull = GrpcPull {
        grpc_url: grpc_url.to_string(),
        owner,
        repo,
        view: view.to_string(),
        local_view: local_view.to_string(),
        download_only,
        step: GrpcPullStep::ReadingEnv,
        changes: Vec::new(),
        next: 0,
    };
    (pull, GrpcPullAction::ReadEnv { name: TOKEN_VARIABLE })
}

/// What goes before the reason for a failure of this step.
fn blame_text(step: GrpcPullStep) -> (text: String)
    ensures
        text@ == blame(step),
{
    match step {
        GrpcPullStep::Prompting => "prompt error: ".to_string(),
        GrpcPullStep::RequestingToken => "authentication failed: ".to_string(),
        GrpcPullStep::Connecting => "gRPC connect: ".to_string(),
        GrpcPullStep::Pulling => "gRPC pull: ".to_string(),
        _ => String::new(),
    }
}

/// What is said at the end of a pull.
fn describe(downloaded: usize, download_only: bool) -> (text: String)
    ensures
        text@ == outcome_text(downloaded as nat, download_only),
{
    if downloaded == 0 {
        return "Already up to date".to_string();
    }
    if download_only {
        let mut text = "Downloaded ".to_string();
        let count = format_count(downloaded, "change");
        text.append(count.as_str());
        text.append(" (not applied)");
        return text;
    }
    let mut text = "Pull complete: ".to_string();
    let number = decimal_text(downloaded as u64);
    text.append(number.as_str());
    text.append(" new change(s) downloaded");
    text
}

impl GrpcPull {
    /// End the step that the pull is at, with what came of it, and say what to do next.
    pub fn advance(&mut self, event: GrpcPullEvent) -> (action: GrpcPullAction)
        ensures
            advances(*old(self), event, *final(self), action),
    {
        match (self.step, event) {
            (GrpcPullStep::ReadingEnv, GrpcPullEvent::Env(value)) => self.resolve_token(value),
            (GrpcPullStep::Prompting, GrpcPullEvent::Credentials(request)) => {
                self.step = GrpcPullStep::RequestingToken;
                GrpcPullAction::RequestToken { grpc_url: self.grpc_url.clone(), request }
            },
            (GrpcPullStep::RequestingToken, GrpcPullEvent::Token(token)) => self.connect(token),
            (GrpcPullStep::Connecting, GrpcPullEvent::Connected) => {
                self.step = GrpcPullStep::Pulling;
                GrpcPullAction::Pull {
                    owner: self.owner.clone(),
                    repo: self.repo.clone(),
                    view: self.view.clone(),
                }
            },
            (GrpcPullStep::Pulling, GrpcPullEvent::Pulled { changes }) => {
                self.changes = changes;
                self.next = 0;
                self.apply_next()
            },
            (GrpcPullStep::Applying, GrpcPullEvent::Applied)
            | (GrpcPullStep::Applying, GrpcPullEvent::Failed(_)) => {
                self.next = self.next.saturating_add(1);
                self.apply_next()
            },
            (GrpcPullStep::ReadingEnv, _) | (GrpcPullStep::Finished, _) => {
                GrpcPullAction::Unexpected
            },
            (step, GrpcPullEvent::Failed(why)) => {
                self.step = GrpcPullStep::Finished;
                let mut text = blame_text(step);
                text.append(why.as_str());
                GrpcPullAction::Fail(CliError::Internal(text))
            },
            _ => GrpcPullAction::Unexpected,
        }
    }

    /// Take the token from the environment where it holds one, else ask the user.
    fn resolve_token(&mut self, value: Option<String>) -> (action: GrpcPullAction)
        ensures
            match value {
                Some(token) if token@.len() > 0 => connects(
                    *old(self),
                    token,
                    *final(self),
                    action,
                ),
                _ => {
                    &&& *final(self) == (GrpcPull { step: GrpcPullStep::Prompting, ..*old(self) })
                    &&& action == GrpcPullAction::Prompt
                },
            },
    {
        match value {
            Some(token) => {
                if token.as_str().is_empty() {
                    self.step = GrpcPullStep::Prompting;
                    GrpcPullAction::Prompt
                } else {
                    self.connect(token)
                }
            },
            None => {
                self.step = GrpcPullStep::Prompting;
                GrpcPullAction::Prompt
            },
        }
    }

    /// Apply the change whose turn it is, or end the pull.
    fn apply_next(&mut self) -> (action: GrpcPullAction)
        ensures
            applies_next(*old(self), *final(self), action),
    {
        if !self.download_only && self.next < self.changes.len() {
            self.step = GrpcPullStep::Applying;
            GrpcPullAction::Apply {
                hash: self.changes[self.next],
                view: self.local_view.clone(),
            }
        } else {
            self.step = GrpcPullStep::Finished;
            GrpcPullAction::Complete { text: describe(self.changes.len(), self.download_only) }
        }
    }

    /// Connect to the server with the token.
    fn connect(&mut self, token: String) -> (action: GrpcPullAction)
        ensures
            connects(*old(self), token, *final(self), action),
    {
        self.step = GrpcPullStep::Connecting;
        GrpcPullAction::Connect { grpc_url: self.grpc_url.clone(), token }
    }
}

/// A token that the environment holds is used, and the user is not asked; an empty one
/// counts as none.
pub proof fn law_environment_token_goes_first(
    s: GrpcPull,
    value: Option<String>,
    t: GrpcPull,
    a: GrpcPullAction,
)
    requires
        s.step is ReadingEnv,
        advances(s, GrpcPullEvent::Env(value), t, a),
    ensures
        a is Prompt <==> value is None || value->0@.len() == 0,
        a is Connect <==> value is Some && value->0@.len() > 0,
        a matches GrpcPullAction::Connect { token, .. } ==> value == Some(token),
{
}

/// A pull from its first step on: `events[i]` leads from `states[i]` to `states[i + 1]`, and
/// `actions[i]` is what is done then.
pub open spec fn is_run(
    states: Seq<GrpcPull>,
    events: Seq<GrpcPullEvent>,
    actions: Seq<GrpcPullAction>,
) -> bool {
    &&& states.len() == events.len() + 1
    &&& actions.len() == events.len()
    &&& states[0].step is ReadingEnv
    &&& forall|i: int|
        0 <= i < events.len() ==> advances(
            states[i],
            events[i],
            states[i + 1],
            #[trigger] actions[i],
        )
}

/// The changes that are applied, in their order.
pub open spec fn applied(actions: Seq<GrpcPullAction>) -> Seq<ChangeHash>
    decreases actions.len(),
{
    if actions.len() == 0 {
        Seq::empty()
    } else {
        match actions.last() {
            GrpcPullAction::Apply { hash, .. } => applied(actions.drop_last()).push(hash),
            _ => applied(actions.drop_last()),
        }
    }
}

/// What has been applied when a pull is at `t`.
spec fn is_done(t: GrpcPull, put: Seq<ChangeHash>) -> bool {
    match t.step {
        GrpcPullStep::Applying => {
            &&& !t.download_only
            &&& t.next < t.changes@.len()
            &&& put == t.changes@.take(t.next + 1)
        },
        GrpcPullStep::Finished => put.len() == 0 || (!t.download_only && put == t.changes@),
        _ => put.len() == 0,
    }
}

/// A pull that comes to its end has applied every change that it downloaded to the local
/// view, in the order in which they came, and nothing else. One that is to download only
/// has applied nothing.
pub proof fn law_downloaded_changes_are_applied(
    states: Seq<GrpcPull>,
    events: Seq<GrpcPullEvent>,
    actions: Seq<GrpcPullAction>,
)
    requires
        is_run(states, events, actions),
    ensures
        actions.len() > 0 && actions.last() is Complete && !states.last().download_only
            ==> applied(actions) == states.last().changes@,
        states.last().download_only ==> applied(actions).len() == 0,
        forall|i: int|
            0 <= i < actions.len() ==> (#[trigger] actions[i] matches GrpcPullAction::Apply {
                view,
                ..
            } ==> view == states[0].local_view),
        states.last().local_view == states[0].local_view,
        states.last().download_only == states[0].download_only,
{
    lemma_done(states, events, actions);
}

proof fn lemma_done(
    states: Seq<GrpcPull>,
    events: Seq<GrpcPullEvent>,
    actions: Seq<GrpcPullAction>,
)
    requires
        is_run(states, events, actions),
    ensures
        is_done(states.last(), applied(actions)),
        states.last().local_view == states[0].local_view,
        states.last().download_only == states[0].download_only,
        actions.len() > 0 && actions.last() is Complete && !states.last().download_only
            ==> applied(actions) == states.last().changes@,
        forall|i: int|
            0 <= i < actions.len() ==> (#[trigger] actions[i] matches GrpcPullAction::Apply {
                view,
                ..
            } ==> view == states[0].local_view),
    decreases actions.len(),
{
    if actions.len() > 0 {
        let ss = states.drop_last();
        let es = events.drop_last();
        let acts = actions.drop_last();
        assert forall|i: int| 0 <= i < es.len() implies advances(
            ss[i],
            es[i],
            ss[i + 1],
            #[trigger] acts[i],
        ) by {
            assert(acts[i] == actions[i]);
        }
        assert(ss[0] == states[0]);
        lemma_done(ss, es, acts);
        assert(forall|j: int| 0 <= j < acts.len() ==> #[trigger] actions[j] == acts[j]);
        let i = actions.len() - 1;
        let s = states[i];
        let t = states[i + 1];
        assert(advances(s, events[i], t, actions[i]));
        assert(s.changes.len() == s.changes@.len());
        let before = applied(acts);
        let all = t.changes@;
        if s.step is Applying {
            if s.next + 1 < all.len() {
                assert(all.take(s.next + 1).push(all[s.next + 1]) =~= all.take(s.next + 2));
            } else {
                assert(all.take(s.next + 1) =~= all);
            }
        } else if before.len() == 0 {
            if all.len() == 0 {
                assert(before =~= all);
            }
            if actions[i] is Apply {
                assert(before.push(all[0]) =~= all.take(1));
            }
        }
    }
}

/// A pull is about one repository and one pair of views from its beginning to its end: it asks
/// for a token and connects at the address that it was begun with, pulls from the owner, the
/// repository and the view that it was begun with, and applies to the local view that it was
/// begun with.
pub proof fn law_grpc_pull_is_about_one_repository(
    states: Seq<GrpcPull>,
    events: Seq<GrpcPullEvent>,
    actions: Seq<GrpcPullAction>,
    i: int,
)
    requires
        is_run(states, events, actions),
        0 <= i < actions.len(),
    ensures
        actions[i] matches GrpcPullAction::RequestToken { grpc_url, request } ==> grpc_url@
            == states[0].grpc_url@ && events[i] == GrpcPullEvent::Credentials(request),
        actions[i] matches GrpcPullAction::Connect { grpc_url, token } ==> grpc_url@
            == states[0].grpc_url@ && (events[i] == GrpcPullEvent::Token(token) || events[i]
            == GrpcPullEvent::Env(Some(token))),
        actions[i] matches GrpcPullAction::Pull { owner, repo, view } ==> owner@
            == states[0].owner@ && repo@ == states[0].repo@ && view@ == states[0].view@,
        actions[i] matches GrpcPullAction::Apply { view, .. } ==> view@ == states[0].local_view@,
        states[i + 1].grpc_url == states[0].grpc_url,
        states[i + 1].owner == states[0].owner,
        states[i + 1].repo == states[0].repo,
        states[i + 1].view == states[0].view,
        states[i + 1].local_view == states[0].local_view,
        states[i + 1].download_only == states[0].download_only,
    decreases i,
{
    if i > 0 {
        law_grpc_pull_is_about_one_repository(states, events, actions, i - 1);
    }
    assert(advances(states[i], events[i], states[i + 1], actions[i]));
}

/// The pull stops with an error of this text.
pub open spec fn fails_with(action: GrpcPullAction, text: Seq<char>) -> bool {
    action matches GrpcPullAction::Fail(CliError::Internal(said)) && said@ == text
}

/// What a pull does about each event. A failure before anything was pulled ends it with an
/// error that says what was being done and why it failed; an event that does not belong to the
/// step changes nothing.
pub proof fn law_grpc_pull_follows_every_event(
    s: GrpcPull,
    e: GrpcPullEvent,
    t: GrpcPull,
    a: GrpcPullAction,
)
    requires
        advances(s, e, t, a),
    ensures
        a is Unexpected ==> t == s,
        s.step is Finished ==> a is Unexpected,
        a is Complete || a is Fail ==> t.step is Finished,
        s.step is Prompting && e is Credentials ==> a is RequestToken && t.step is RequestingToken,
        s.step is RequestingToken && e is Token ==> a is Connect && t.step is Connecting,
        s.step is Connecting && e is Connected ==> a is Pull && t.step is Pulling,
        s.step is Pulling && e is Pulled ==> t.changes == e->changes && if e->changes@.len() == 0
            || s.download_only {
            a is Complete
        } else {
            t.step is Applying && a == (GrpcPullAction::Apply {
                hash: e->changes@[0],
                view: s.local_view,
            })
        },
        s.step !is Pulling ==> t.changes == s.changes,
        a is Fail ==> (e is Failed && (s.step is Prompting || s.step is RequestingToken || s.step
            is Connecting || s.step is Pulling)),
        e matches GrpcPullEvent::Failed(why) ==> {
            &&& s.step is Prompting ==> fails_with(a, "prompt error: "@ + why@)
            &&& s.step is RequestingToken ==> fails_with(a, "authentication failed: "@ + why@)
            &&& s.step is Connecting ==> fails_with(a, "gRPC connect: "@ + why@)
            &&& s.step is Pulling ==> fails_with(a, "gRPC pull: "@ + why@)
        },
        a matches GrpcPullAction::Complete { text } ==> {
            let n = t.changes@.len();
            &&& n == 0 ==> text@ == "Already up to date"@
            &&& n > 0 && s.download_only ==> text@ == "Downloaded "@ + text::decimal(n)
                + " change"@ + (if n == 1 {
                ""@
            } else {
                "s"@
            }) + " (not applied)"@
            &&& n > 0 && !s.download_only ==> text@ == "Pull complete: "@ + text::decimal(n)
                + " new change(s) downloaded"@
        },
{
    text::law_counted_is_the_number_and_the_noun(t.changes@.len(), "change"@);
    reveal_strlit(" ");
    reveal_strlit("change");
    reveal_strlit(" change");
    assert(" change"@ =~= " "@ + "change"@);
    let n = text::decimal(t.changes@.len());
    assert(n + " "@ + "change"@ =~= n + " change"@);
    if let GrpcPullAction::Complete { text } = a {
        if t.changes@.len() > 0 && s.download_only {
            let tail = if t.changes@.len() == 1 {
                ""@
            } else {
                "s"@
            };
            assert("Downloaded "@ + (n + " change"@ + tail) + " (not applied)"@ =~= "Downloaded "@
                + n + " change"@ + tail + " (not applied)"@);
        }
    }
}

} // verus!
