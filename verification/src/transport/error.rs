//! How the gRPC transport fails before it reaches the server.

use vstd::prelude::*;

verus! {

/// Why a server cannot be talked to.
#[derive(Debug, PartialEq, Eq)]
pub enum TransportError {
    /// The address of the server cannot be used as an endpoint.
    InvalidEndpoint,
    /// The token cannot stand in the metadata of a request.
    InvalidToken,
    /// The server gave no token; what it said.
    AuthFailed(String),
}

impl TransportError {
    /// What to say of the failure.
    pub open spec fn text(&self) -> Seq<char> {
        match self {
            TransportError::InvalidEndpoint => "invalid gRPC endpoint URL"@,
            TransportError::InvalidToken => "invalid JWT token (non-ASCII characters)"@,
            TransportError::AuthFailed(text) => text@,
        }
    }

    /// What to say of the failure.
    pub fn message(&self) -> (message: String)
        ensures
            message@ == self.text(),
    {
        match self {
            TransportError::InvalidEndpoint => "invalid gRPC endpoint URL".to_string(),
            TransportError::InvalidToken => "invalid JWT token (non-ASCII characters)".to_string(),
            TransportError::AuthFailed(text) => text.clone(),
        }
    }
}

} // verus!
