//! The gRPC transport: remote addresses, authentication and the decisions of
//! the push, pull and watch exchanges with an `atomic-server`.

pub mod auth;
pub mod client;
pub mod error;
pub mod laws;
pub mod messages;
pub mod pull;
pub mod push;
pub mod url;
pub mod watch;

pub use auth::{TokenClient, TokenRequest};
pub use client::AuthInterceptor;
pub use error::TransportError;
pub use pull::pull_changes;
pub use push::push_changes;
pub use url::{is_grpc_url, parse_owner_repo, to_tonic_endpoint};
pub use watch::watch_and_sync;
