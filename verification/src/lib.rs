//! Verified core of the Atomic version control system's synchronisation: the
//! `push` and `pull` commands, the gRPC transport and the change store queries.

pub mod error;
pub mod history;
pub mod order;
pub mod pull;
pub mod push;
pub mod remote;
pub mod store;
pub mod text;
pub mod transport;
pub mod types;
