//! The options of the `push` command.

use vstd::prelude::*;

use crate::error::CliResult;
use crate::history::copy_message;
use crate::remote;
use crate::remote::{choose_name, resolve_url, HttpRemoteConfig, Preview, PreviewRow, RemoteLookup};
use crate::text;
use crate::text::format_count;

use super::types::PushChange;

verus! {

/// The remote that is pushed to when none is named.
pub const DEFAULT_REMOTE: &'static str = "origin";

/// How many seconds a request may take when nothing else is asked for.
pub const DEFAULT_TIMEOUT_SECS: u64 = 30;

/// The `push` command: it uploads local changes to a remote, in dependency order.
#[derive(Debug, Clone)]
pub struct Push {
    /// The name or the address of the remote to push to.
    pub remote: String,
    /// The remote view to push to; the one named like the local view where it is missing.
    pub to_view: Option<String>,
    /// The local view to push from; the current one where it is missing.
    pub from_view: Option<String>,
    /// Show what would be pushed, and push nothing.
    pub dry_run: bool,
    /// Push even where the histories have diverged.
    pub force: bool,
    /// Push all changes, not only those that the remote lacks.
    pub all: bool,
    /// Do not verify the remote's certificate.
    pub insecure: bool,
    /// How many seconds a request may take.
    pub timeout: u64,
}

/// What a dry run of a push shows: what would go to the remote, or that there is nothing.
pub open spec fn previews_push(
    remote: Seq<char>,
    remote_url: Seq<char>,
    to_upload: Seq<PushChange>,
    preview: Preview,
) -> bool {
    if to_upload.len() == 0 {
        &&& preview.headline@ == "Already up to date - nothing to push"@
        &&& preview.rows@.len() == 0
        &&& preview.hint is None
    } else {
        &&& preview.headline@ == "Would push "@ + text::counted(to_upload.len(), "change"@)
            + " to "@ + remote + ":"@
        &&& preview.rows@ == Seq::new(
            to_upload.len(),
            |i: int|
                PreviewRow { hash: to_upload[i].hash, message: to_upload[i].message, marker: "" },
        )
        &&& preview.hint matches Some(hint) && hint@ == "Remote URL: "@ + remote_url
    }
}

impl Push {
    /// The command without any option.
    pub fn new() -> (push: Push)
        ensures
            push.is_plain(),
    {
        Push {
            remote: String::from(DEFAULT_REMOTE),
            to_view: None,
            from_view: None,
            dry_run: false,
            force: false,
            all: false,
            insecure: false,
            timeout: DEFAULT_TIMEOUT_SECS,
        }
    }

    /// No option is set.
    pub open spec fn is_plain(&self) -> bool {
        &&& self.remote@ == "origin"@
        &&& self.to_view is None
        &&& self.from_view is None
        &&& !self.dry_run
        &&& !self.force
        &&& !self.all
        &&& !self.insecure
        &&& self.timeout == 30
    }

    /// The same command with another remote.
    pub fn with_remote<T: Into<String>>(self, remote: T) -> (push: Push)
        ensures
            call_ensures(T::into, (remote,), push.remote),
            push == (Push { remote: push.remote, ..self }),
    {
        Push { remote: remote.into(), ..self }
    }

    /// The same command with another remote view.
    pub fn with_to_view<T: Into<String>>(self, view: T) -> (push: Push)
        ensures
            push.to_view matches Some(name) && call_ensures(T::into, (view,), name),
            push == (Push { to_view: push.to_view, ..self }),
    {
        Push { to_view: Some(view.into()), ..self }
    }

    /// The same command with another local view.
    pub fn with_from_view<T: Into<String>>(self, view: T) -> (push: Push)
        ensures
            push.from_view matches Some(name) && call_ensures(T::into, (view,), name),
            push == (Push { from_view: push.from_view, ..self }),
    {
        Push { from_view: Some(view.into()), ..self }
    }

    /// The same command, as a dry run or not.
    pub fn with_dry_run(self, dry_run: bool) -> (push: Push)
        ensures
            push == (Push { dry_run, ..self }),
    {
        Push { dry_run, ..self }
    }

    /// The same command, forced or not.
    pub fn with_force(self, force: bool) -> (push: Push)
        ensures
            push == (Push { force, ..self }),
    {
        Push { force, ..self }
    }

    /// The same command, for all changes or only for those that the remote lacks.
    pub fn with_all(self, all: bool) -> (push: Push)
        ensures
            push == (Push { all, ..self }),
    {
        Push { all, ..self }
    }

    /// The same command, with or without certificate verification.
    pub fn with_insecure(self, insecure: bool) -> (push: Push)
        ensures
            push == (Push { insecure, ..self }),
    {
        Push { insecure, ..self }
    }

    /// The same command with another timeout.
    pub fn with_timeout(self, timeout: u64) -> (push: Push)
        ensures
            push == (Push { timeout, ..self }),
    {
        Push { timeout, ..self }
    }

    /// The address to push to: the remote itself where it is written as one, else what the
    /// repository's configuration says of the name.
    pub fn resolve_remote_url(&self, lookup: RemoteLookup) -> (resolved: CliResult<String>)
        ensures
            remote::resolves(self.remote@, lookup, resolved),
    {
        resolve_url(&self.remote, lookup)
    }

    /// The local view to push from.
    pub open spec fn local_view(&self, current: Seq<char>) -> Seq<char> {
        remote::chosen(self.from_view, current)
    }

    /// The remote view to push to.
    pub open spec fn remote_view(&self, local_view: Seq<char>) -> Seq<char> {
        remote::chosen(self.to_view, local_view)
    }

    /// The local view to push from: the chosen one or the repository's current one.
    pub fn get_local_view(&self, current_view: &str) -> (view: String)
        ensures
            view@ == self.local_view(current_view@),
    {
        choose_name(&self.from_view, current_view)
    }

    /// The remote view to push to: the chosen one or the one named like the local view.
    pub fn get_remote_view(&self, local_view: &str) -> (view: String)
        ensures
            view@ == self.remote_view(local_view@),
    {
        choose_name(&self.to_view, local_view)
    }

    /// How to talk to the remote.
    pub fn build_remote_config(&self, remote_url: &str) -> (config: HttpRemoteConfig)
        ensures
            config.timeout_secs == self.timeout,
            config.danger_accept_invalid_certs == self.insecure,
            config.identity_url@ == remote_url@,
    {
        HttpRemoteConfig {
            timeout_secs: self.timeout,
            danger_accept_invalid_certs: self.insecure,
            identity_url: remote_url.to_string(),
        }
    }

    /// What a dry run shows.
    pub fn display_dry_run(
        &self,
        remote_url: &str,
        to_upload: &Vec<PushChange>,
    ) -> (preview: Preview)
        ensures
            previews_push(self.remote@, remote_url@, to_upload@, preview),
    {
        if to_upload.len() == 0 {
            return Preview {
                headline: "Already up to date - nothing to push".to_string(),
                rows: Vec::new(),
                hint: None,
            };
        }
        let mut headline = "Would push ".to_string();
        let count = format_count(to_upload.len(), "change");
        headline.append(count.as_str());
        headline.append(" to ");
        headline.append(self.remote.as_str());
        headline.append(":");
        let mut rows: Vec<PreviewRow> = Vec::new();
        let mut i: usize = 0;
        while i < to_upload.len()
            invariant
                i <= to_upload@.len(),
                rows@ == Seq::new(
                    i as nat,
                    |j: int|
                        PreviewRow {
                            hash: to_upload@[j].hash,
                            message: to_upload@[j].message,
                            marker: "",
                        },
                ),
            decreases to_upload@.len() - i,
        {
            rows.push(
                PreviewRow {
                    hash: to_upload[i].hash,
                    message: copy_message(&to_upload[i].message),
                    marker: "",
                },
            );
            i = i + 1;
        }
        let mut hint = "Remote URL: ".to_string();
        hint.append(remote_url);
        Preview { headline, rows, hint: Some(hint) }
    }
}

impl Default for Push {
    fn default() -> (push: Push)
        ensures
            push.is_plain(),
    {
        Push::new()
    }
}

/// Where no views are chosen, the current view is pushed to the remote view of the same name;
/// where only the local view is chosen, that one is.
pub proof fn law_views_have_the_same_name(push: Push, current: Seq<char>)
    requires
        push.to_view is None,
    ensures
        push.remote_view(push.local_view(current)) == push.local_view(current),
        push.from_view is None ==> push.remote_view(push.local_view(current)) == current,
{
}

} // verus!
