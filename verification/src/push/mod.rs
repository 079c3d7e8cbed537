//! The `push` command: it uploads local changes to a remote repository.

pub mod attach;
pub mod command;
pub mod delta;
pub mod effects;
pub mod laws;
pub mod session;
pub mod types;

pub use command::{Push, DEFAULT_REMOTE, DEFAULT_TIMEOUT_SECS};
pub use delta::{calculate_push_delta, has_diverged};
pub use session::{
    start_push, PushAction, PushEvent, PushPhase, PushSession, PushStart, DEFAULT_REMOTE_VIEW,
};
pub use types::{PushChange, PushOutcome, PushStats};
