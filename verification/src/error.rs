//! How the commands fail.

use vstd::prelude::*;

verus! {

/// Why a command could not do its work.
#[derive(Debug)]
pub enum CliError {
    /// No remote of this name is configured.
    RemoteNotFound {
        /// The name.
        name: String,
    },
    /// The repository failed; what it said.
    Repository(String),
    /// The histories do not fit together.
    Conflict {
        /// In what way.
        description: String,
    },
    /// Something else failed; what it was.
    Internal(String),
}

/// What a command gives.
pub type CliResult<T> = Result<T, CliError>;

} // verus!
