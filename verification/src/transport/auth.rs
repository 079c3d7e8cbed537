//! Tokens from the server's REST API, which lives on the host and port of its gRPC API.

use vstd::prelude::*;

use super::error::TransportError;
use super::url;
use super::url::{origin_of, to_tonic_endpoint};

verus! {

/// Where the REST API gives tokens.
pub const TOKEN_PATH: &'static str = "/api/auth/token";

/// What the REST API wants for a token.
#[derive(Debug)]
pub struct TokenRequest {
    /// Who asks.
    pub username: String,
    /// Their password.
    pub password: String,
}

/// A request for a token, ready to be posted.
#[derive(Debug)]
pub struct TokenPost {
    /// Where to.
    pub url: String,
    /// The body.
    pub request: TokenRequest,
}

/// What the server answered.
#[derive(Debug)]
pub enum TokenReply {
    /// It gave a token.
    Given(String),
    /// It answered with another status than success.
    Refused {
        /// The status.
        status: String,
        /// The body of the answer; empty where it could not be read.
        body: String,
    },
}

/// Whether an answer with this HTTP status gives a token: those from 200 to 299 do.
pub fn is_success_status(status: u16) -> (success: bool)
    ensures
        success == (200 <= status < 300),
{
    200 <= status && status < 300
}

/// Asks a server for tokens.
#[derive(Debug)]
pub struct TokenClient {
    /// The address of the REST API: scheme, host and port.
    pub base_url: String,
}

/// What a reply comes to: the token, or what the server said instead.
pub open spec fn judged(reply: TokenReply, result: Result<String, TransportError>) -> bool {
    match reply {
        TokenReply::Given(token) => result == Ok::<String, TransportError>(token),
        TokenReply::Refused { status, body } => {
            result matches Err(TransportError::AuthFailed(text)) && text@ == "auth failed ("@
                + status@ + "): "@ + body@
        },
    }
}

impl TokenClient {
    /// A client for the server of this `grpc://` or `grpcs://` address. What the address
    /// names on the server, an owner and a repository, does not matter.
    pub fn new(grpc_url: &str) -> (client: TokenClient)
        ensures
            client.base_url@ == url::origin(url::endpoint(grpc_url@)),
    {
        let endpoint = to_tonic_endpoint(grpc_url);
        TokenClient { base_url: origin_of(endpoint.as_str()) }
    }

    /// The request that gets a token.
    pub fn token_post(&self, request: TokenRequest) -> (post: TokenPost)
        ensures
            post.url@ == self.base_url@ + "/api/auth/token"@,
            post.request == request,
    {
        let mut url = self.base_url.clone();
        url.append(TOKEN_PATH);
        TokenPost { url, request }
    }

    /// What the server's reply comes to.
    pub fn read_reply(&self, reply: TokenReply) -> (result: Result<String, TransportError>)
        ensures
            judged(reply, result),
    {
        match reply {
            TokenReply::Given(token) => Ok(token),
            TokenReply::Refused { status, body } => {
                let mut text = "auth failed (".to_string();
                text.append(status.as_str());
                text.append("): ");
                text.append(body.as_str());
                Err(TransportError::AuthFailed(text))
            },
        }
    }
}

/// A token is had exactly where the server gave one, and it is that one. A refusal is told
/// with its status in brackets and the body of the answer behind a colon.
pub proof fn law_token_is_the_one_given(reply: TokenReply, result: Result<String, TransportError>)
    requires
        judged(reply, result),
    ensures
        result is Ok <==> reply is Given,
        result is Ok ==> result->Ok_0 == reply->Given_0,
        result is Err ==> {
            let status = reply->Refused_status@;
            let body = reply->Refused_body@;
            &&& result->Err_0 is AuthFailed
            &&& result->Err_0->AuthFailed_0@.len() == 16 + status.len() + body.len()
            &&& result->Err_0->AuthFailed_0@.take(13) == "auth failed ("@
            &&& result->Err_0->AuthFailed_0@.skip(13).take(status.len() as int) == status
            &&& result->Err_0->AuthFailed_0@.skip(13 + status.len() as int).take(3) == "): "@
            &&& result->Err_0->AuthFailed_0@.skip(16 + status.len() as int) == body
        },
{
    reveal_strlit("auth failed (");
    reveal_strlit("): ");
    if let TokenReply::Refused { status, body } = reply {
        let text = result->Err_0->AuthFailed_0@;
        assert(text.take(13) =~= "auth failed ("@);
        assert(text.skip(13).take(status@.len() as int) =~= status@);
        assert(text.skip(13 + status@.len() as int).take(3) =~= "): "@);
        assert(text.skip(16 + status@.len() as int) =~= body@);
    }
}

} // verus!
