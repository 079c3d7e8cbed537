//! The `pull` command: it downloads changes from a remote repository and applies them.

pub mod command;
pub mod delta;
pub mod effects;
pub mod grpc;
pub mod laws;
pub mod session;
pub mod types;

pub use command::{LocalOnlyWarning, Pull, DEFAULT_REMOTE, DEFAULT_TIMEOUT_SECS};
pub use delta::{calculate_pull_delta, find_local_only_changes, has_local_only_changes};
pub use grpc::run_grpc_pull;
pub use session::{start_pull, PullAction, PullEvent, PullPhase, PullSession, PullStart};
pub use types::{PullChange, PullOutcome, PullStats};
