//! Which remote a command talks to, and how.

use vstd::prelude::*;

use crate::error::{CliError, CliResult};
use crate::text;
use crate::transport::url::looks_like_url;

verus! {

/// What the repository's configuration says about a remote's name.
#[derive(Debug)]
pub enum RemoteLookup {
    /// The address that it stands for.
    Found(String),
    /// There is no remote of this name.
    NotFound,
    /// The configuration could not be read; why.
    Failed(String),
}

/// How to talk to a remote over HTTP.
#[derive(Debug)]
pub struct HttpRemoteConfig {
    /// How many seconds to wait for an answer.
    pub timeout_secs: u64,
    /// Take certificates that do not verify.
    pub danger_accept_invalid_certs: bool,
    /// The address whose stored identity goes with every request.
    pub identity_url: String,
}

/// A remote is written as an address, not as a name.
pub open spec fn is_address(remote: Seq<char>) -> bool {
    text::has_text(remote, "://"@)
}

/// `resolved` is what `remote` stands for: itself where it is an address, else what the
/// configuration says of it.
pub open spec fn resolves(
    remote: Seq<char>,
    lookup: RemoteLookup,
    resolved: CliResult<String>,
) -> bool {
    if is_address(remote) {
        resolved matches Ok(url) && url@ == remote
    } else {
        match lookup {
            RemoteLookup::Found(found) => resolved == Ok::<String, CliError>(found),
            RemoteLookup::NotFound => resolved matches Err(CliError::RemoteNotFound { name })
                && name@ == remote,
            RemoteLookup::Failed(why) => resolved == Err::<String, CliError>(
                CliError::Repository(why),
            ),
        }
    }
}

/// The address of a remote. A text with `://` in it is one; any other is a name, with what
/// the configuration says of it.
pub fn resolve_url(remote: &String, lookup: RemoteLookup) -> (resolved: CliResult<String>)
    ensures
        resolves(remote@, lookup, resolved),
{
    if looks_like_url(remote.as_str()) {
        return Ok(remote.clone());
    }
    match lookup {
        RemoteLookup::Found(url) => Ok(url),
        RemoteLookup::NotFound => Err(CliError::RemoteNotFound { name: remote.clone() }),
        RemoteLookup::Failed(why) => Err(CliError::Repository(why)),
    }
}

/// The chosen name or, where none was chosen, the other one.
pub open spec fn chosen(choice: Option<String>, other: Seq<char>) -> Seq<char> {
    match choice {
        Some(name) => name@,
        None => other,
    }
}

/// The chosen name or, where none was chosen, the other one.
pub fn choose_name(choice: &Option<String>, other: &str) -> (name: String)
    ensures
        name@ == chosen(*choice, other@),
{
    match choice {
        Some(name) => name.clone(),
        None => other.to_string(),
    }
}

/// One line of the preview that a dry run gives.
#[derive(Debug)]
pub struct PreviewRow {
    /// The change.
    pub hash: crate::types::ChangeHash,
    /// Its message, where it has one.
    pub message: Option<String>,
    /// What stands behind the message.
    pub marker: &'static str,
}

/// What a dry run shows.
#[derive(Debug)]
pub struct Preview {
    /// The first line.
    pub headline: String,
    /// The changes.
    pub rows: Vec<PreviewRow>,
    /// A hint below them, where there are any.
    pub hint: Option<String>,
}

/// The text holds the three characters that mark an address.
pub open spec fn is_written_as_address(remote: Seq<char>) -> bool {
    exists|i: int|
        0 <= i && i + 3 <= remote.len() && #[trigger] remote[i] == ':' && remote[i + 1] == '/'
            && remote[i + 2] == '/'
}

/// A remote is taken for an address exactly where it is written as one.
pub proof fn lemma_address(remote: Seq<char>)
    ensures
        is_address(remote) <==> is_written_as_address(remote),
{
    reveal_strlit("://");
    if is_address(remote) {
        let i = choose|i: int| text::occurs_at(remote, "://"@, i);
        assert(remote.subrange(i, i + 3)[0] == remote[i]);
        assert(remote.subrange(i, i + 3)[1] == remote[i + 1]);
        assert(remote.subrange(i, i + 3)[2] == remote[i + 2]);
    }
    if is_written_as_address(remote) {
        let i = choose|i: int|
            0 <= i && i + 3 <= remote.len() && #[trigger] remote[i] == ':' && remote[i + 1] == '/'
                && remote[i + 2] == '/';
        assert(remote.subrange(i, i + 3) =~= "://"@);
        assert(text::occurs_at(remote, "://"@, i));
    }
}

/// A remote stands for itself where it is written as an address, whatever the configuration
/// says; any other stands for what the configuration says of it, and its absence there is
/// reported under its name.
pub proof fn law_remote_stands_for_its_address(
    remote: Seq<char>,
    lookup: RemoteLookup,
    resolved: CliResult<String>,
)
    requires
        resolves(remote, lookup, resolved),
    ensures
        is_written_as_address(remote) ==> (resolved matches Ok(url) && url@ == remote),
        !is_written_as_address(remote) ==> match lookup {
            RemoteLookup::Found(found) => resolved matches Ok(url) && url@ == found@,
            RemoteLookup::NotFound => resolved matches Err(CliError::RemoteNotFound { name })
                && name@ == remote,
            RemoteLookup::Failed(why) => resolved matches Err(CliError::Repository(said)) && said@
                == why@,
        },
{
    lemma_address(remote);
}

} // verus!
