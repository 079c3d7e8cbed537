//! The options of the `pull` command.

use vstd::prelude::*;

use crate::error::CliResult;
use crate::history::copy_message;
use crate::remote;
use crate::remote::{choose_name, resolve_url, HttpRemoteConfig, Preview, PreviewRow, RemoteLookup};
use crate::text;
use crate::text::{decimal_text, format_count, take_bytes};

use super::types::PullChange;

verus! {

/// The remote that is pulled from when none is named.
pub const DEFAULT_REMOTE: &'static str = "origin";

/// How many seconds a request may take when nothing else is asked for.
pub const DEFAULT_TIMEOUT_SECS: u64 = 30;

/// What stands behind a change whose state is tagged.
pub const TAG_MARKER: &'static str = " [tagged]";

/// How many local-only changes the warning about them names.
pub const SHOWN_LOCAL_ONLY: usize = 5;

/// How many bytes of a hash the warning about local-only changes shows.
pub const SHOWN_HASH_BYTES: usize = 12;

/// The `pull` command: it downloads remote changes and applies them to the local view.
#[derive(Debug, Clone)]
pub struct Pull {
    /// The name or the address of the remote to pull from.
    pub remote: String,
    /// The local view to pull into; the current one where it is missing.
    pub to_view: Option<String>,
    /// The remote view to pull from; the one named like the local view where it is missing.
    pub from_view: Option<String>,
    /// Show what would be pulled, and pull nothing.
    pub dry_run: bool,
    /// Pull all changes, not only those that the local history lacks.
    pub all: bool,
    /// Do not verify the remote's certificate.
    pub insecure: bool,
    /// How many seconds a request may take.
    pub timeout: u64,
    /// Download changes, and do not apply them.
    pub download_only: bool,
}

/// What stands behind the message of a change.
pub open spec fn marker(tagged: bool) -> &'static str {
    if tagged {
        " [tagged]"
    } else {
        ""
    }
}

/// What a dry run of a pull shows: what would come from the remote, or that there is
/// nothing.
pub open spec fn previews_pull(
    remote: Seq<char>,
    remote_url: Seq<char>,
    to_download: Seq<PullChange>,
    preview: Preview,
) -> bool {
    if to_download.len() == 0 {
        &&& preview.headline@ == "Already up to date - nothing to pull"@
        &&& preview.rows@.len() == 0
        &&& preview.hint is None
    } else {
        &&& preview.headline@ == "Would pull "@ + text::counted(to_download.len(), "change"@)
            + " from "@ + remote + ":"@
        &&& preview.rows@ == Seq::new(
            to_download.len(),
            |i: int|
                PreviewRow {
                    hash: to_download[i].hash,
                    message: to_download[i].message,
                    marker: marker(to_download[i].tagged),
                },
        )
        &&& preview.hint matches Some(hint) && hint@ == "Remote URL: "@ + remote_url
    }
}

/// The warning about changes that the remote lacks.
#[derive(Debug)]
pub struct LocalOnlyWarning {
    /// The first line.
    pub headline: String,
    /// The beginnings of the hashes that it names.
    pub shown: Vec<String>,
    /// What it says of the others, where there are any.
    pub more: Option<String>,
}

/// How many of `count` local-only changes the warning names.
pub open spec fn shown_count(count: nat) -> nat {
    if count < 5 {
        count
    } else {
        5
    }
}

/// What the warning about changes that the remote lacks says.
pub open spec fn warns_of(local_only: Seq<String>, warning: LocalOnlyWarning) -> bool {
    &&& warning.headline@ == "You have "@ + text::counted(local_only.len(), "local change"@)
        + " not on the remote:"@
    &&& warning.shown@.len() == shown_count(local_only.len())
    &&& forall|i: int|
        0 <= i < warning.shown@.len() ==> (#[trigger] warning.shown@[i])@ == text::byte_head(
            local_only[i]@,
            12,
        )
    &&& if local_only.len() > 5 {
        warning.more matches Some(more) && more@ == "... and "@ + text::decimal(
            (local_only.len() - 5) as nat,
        ) + " more"@
    } else {
        warning.more is None
    }
}

impl Pull {
    /// The command without any option.
    pub fn new() -> (pull: Pull)
        ensures
            pull.is_plain(),
    {
        Pull {
            remote: String::from(DEFAULT_REMOTE),
            to_view: None,
            from_view: None,
            dry_run: false,
            all: false,
            insecure: false,
            timeout: DEFAULT_TIMEOUT_SECS,
            download_only: false,
        }
    }

    /// No option is set.
    pub open spec fn is_plain(&self) -> bool {
        &&& self.remote@ == "origin"@
        &&& self.to_view is None
        &&& self.from_view is None
        &&& !self.dry_run
        &&& !self.all
        &&& !self.insecure
        &&& self.timeout == 30
        &&& !self.download_only
    }

    /// The same command with another remote.
    pub fn with_remote<T: Into<String>>(self, remote: T) -> (pull: Pull)
        ensures
            call_ensures(T::into, (remote,), pull.remote),
            pull == (Pull { remote: pull.remote, ..self }),
    {
        Pull { remote: remote.into(), ..self }
    }

    /// The same command with another local view.
    pub fn with_to_view<T: Into<String>>(self, view: T) -> (pull: Pull)
        ensures
            pull.to_view matches Some(name) && call_ensures(T::into, (view,), name),
            pull == (Pull { to_view: pull.to_view, ..self }),
    {
        Pull { to_view: Some(view.into()), ..self }
    }

    /// The same command with another remote view.
    pub fn with_from_view<T: Into<String>>(self, view: T) -> (pull: Pull)
        ensures
            pull.from_view matches Some(name) && call_ensures(T::into, (view,), name),
            pull == (Pull { from_view: pull.from_view, ..self }),
    {
        Pull { from_view: Some(view.into()), ..self }
    }

    /// The same command, as a dry run or not.
    pub fn with_dry_run(self, dry_run: bool) -> (pull: Pull)
        ensures
            pull == (Pull { dry_run, ..self }),
    {
        Pull { dry_run, ..self }
    }

    /// The same command, for all changes or only for those that the local history lacks.
    pub fn with_all(self, all: bool) -> (pull: Pull)
        ensures
            pull == (Pull { all, ..self }),
    {
        Pull { all, ..self }
    }

    /// The same command, with or without certificate verification.
    pub fn with_insecure(self, insecure: bool) -> (pull: Pull)
        ensures
            pull == (Pull { insecure, ..self }),
    {
        Pull { insecure, ..self }
    }

    /// The same command with another timeout.
    pub fn with_timeout(self, timeout: u64) -> (pull: Pull)
        ensures
            pull == (Pull { timeout, ..self }),
    {
        Pull { timeout, ..self }
    }

    /// The same command, with or without applying what was downloaded.
    pub fn with_download_only(self, download_only: bool) -> (pull: Pull)
        ensures
            pull == (Pull { download_only, ..self }),
    {
        Pull { download_only, ..self }
    }

    /// The address to pull from: the remote itself where it is written as one, else what the
    /// repository's configuration says of the name.
    pub fn resolve_remote_url(&self, lookup: RemoteLookup) -> (resolved: CliResult<String>)
        ensures
            remote::resolves(self.remote@, lookup, resolved),
    {
        resolve_url(&self.remote, lookup)
    }

    /// The local view to pull into.
    pub open spec fn local_view(&self, current: Seq<char>) -> Seq<char> {
        remote::chosen(self.to_view, current)
    }

    /// The remote view to pull from.
    pub open spec fn remote_view(&self, local_view: Seq<char>) -> Seq<char> {
        remote::chosen(self.from_view, local_view)
    }

    /// The local view to pull into: the chosen one or the repository's current one.
    pub fn get_local_view(&self, current_view: &str) -> (view: String)
        ensures
            view@ == self.local_view(current_view@),
    {
        choose_name(&self.to_view, current_view)
    }

    /// The remote view to pull from: the chosen one or the one named like the local view.
    pub fn get_remote_view(&self, local_view: &str) -> (view: String)
        ensures
            view@ == self.remote_view(local_view@),
    {
        choose_name(&self.from_view, local_view)
    }

    /// How to talk to the remote.
    pub fn build_remote_config(&self, remote_url: &str) -> (config: HttpRemoteConfig)
        ensures
            config.timeout_secs == self.timeout,
            config.danger_accept_invalid_certs == self.insecure,
            config.identity_url@ == remote_url@,
    {
        HttpRemoteConfig {
            timeout_secs: self.timeout,
            danger_accept_invalid_certs: self.insecure,
            identity_url: remote_url.to_string(),
        }
    }

    /// What a dry run shows.
    pub fn display_dry_run(
        &self,
        remote_url: &str,
        to_download: &Vec<PullChange>,
    ) -> (preview: Preview)
        ensures
            previews_pull(self.remote@, remote_url@, to_download@, preview),
    {
        if to_download.len() == 0 {
            return Preview {
                headline: "Already up to date - nothing to pull".to_string(),
                rows: Vec::new(),
                hint: None,
            };
        }
        let mut headline = "Would pull ".to_string();
        let count = format_count(to_download.len(), "change");
        headline.append(count.as_str());
        headline.append(" from ");
        headline.append(self.remote.as_str());
        headline.append(":");
        let mut rows: Vec<PreviewRow> = Vec::new();
        let mut i: usize = 0;
        while i < to_download.len()
            invariant
                i <= to_download@.len(),
                rows@ == Seq::new(
                    i as nat,
                    |j: int|
                        PreviewRow {
                            hash: to_download@[j].hash,
                            message: to_download@[j].message,
                            marker: marker(to_download@[j].tagged),
                        },
                ),
            decreases to_download@.len() - i,
        {
            let marker: &'static str = if to_download[i].tagged {
                TAG_MARKER
            } else {
                ""
            };
            rows.push(
                PreviewRow {
                    hash: to_download[i].hash,
                    message: copy_message(&to_download[i].message),
                    marker,
                },
            );
            i = i + 1;
        }
        let mut hint = "Remote URL: ".to_string();
        hint.append(remote_url);
        Preview { headline, rows, hint: Some(hint) }
    }

    /// What to say of changes that the remote lacks, given their hashes as text. Twelve bytes
    /// of a hash that is named must not end inside a character.
    pub fn display_local_only_warning(&self, local_only: &Vec<String>) -> (warning:
        LocalOnlyWarning)
        requires
            forall|i: int|
                0 <= i < shown_count(local_only@.len()) ==> text::has_byte_head(
                    (#[trigger] local_only@[i])@,
                    12,
                ),
        ensures
            warns_of(local_only@, warning),
    {
        let mut headline = "You have ".to_string();
        let count = format_count(local_only.len(), "local change");
        headline.append(count.as_str());
        headline.append(" not on the remote:");
        let mut shown: Vec<String> = Vec::new();
        let mut i: usize = 0;
        while i < local_only.len() && i < SHOWN_LOCAL_ONLY
            invariant
                i <= local_only@.len(),
                i <= 5,
                shown@.len() == i,
                forall|k: int|
                    0 <= k < shown_count(local_only@.len()) ==> text::has_byte_head(
                        (#[trigger] local_only@[k])@,
                        12,
                    ),
                forall|k: int|
                    0 <= k < i ==> (#[trigger] shown@[k])@ == text::byte_head(local_only@[k]@, 12),
            decreases local_only@.len() - i,
        {
            let name: &String = &local_only[i];
            assert(text::has_byte_head(local_only@[i as int]@, 12));
            shown.push(take_bytes(name.as_str(), SHOWN_HASH_BYTES).to_string());
            i = i + 1;
        }
        let more = if local_only.len() > SHOWN_LOCAL_ONLY {
            let rest: usize = local_only.len() - SHOWN_LOCAL_ONLY;
            let mut text = "... and ".to_string();
            let number = decimal_text(rest as u64);
            text.append(number.as_str());
            text.append(" more");
            Some(text)
        } else {
            None
        };
        LocalOnlyWarning { headline, shown, more }
    }
}

impl Default for Pull {
    fn default() -> (pull: Pull)
        ensures
            pull.is_plain(),
    {
        Pull::new()
    }
}

/// Where no views are chosen, the current view is pulled from the remote view of the same name;
/// where only the local view is chosen, that one is.
pub proof fn law_views_have_the_same_name(pull: Pull, current: Seq<char>)
    requires
        pull.from_view is None,
    ensures
        pull.remote_view(pull.local_view(current)) == pull.local_view(current),
        pull.to_view is None ==> pull.remote_view(pull.local_view(current)) == current,
{
}

} // verus!
