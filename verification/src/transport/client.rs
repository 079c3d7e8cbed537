//! What a client of the server needs before and after it connects: the endpoint, and the
//! token that goes with every request.

use vstd::prelude::*;

use super::error::TransportError;
use super::url;
use super::url::to_tonic_endpoint;

verus! {

/// The metadata key under which the token goes with a request.
pub const AUTHORIZATION: &'static str = "authorization";

/// The text is the address of an endpoint, as `tonic::transport::Channel::from_shared` reads
/// it.
pub uninterp spec fn is_endpoint(url: Seq<char>) -> bool;

/// Whether `tonic::transport::Channel::from_shared` takes the text as an endpoint. What it
/// takes is the grammar of URIs, for which a name stands; the endpoint that it makes is
/// dropped.
#[verifier::external_body]
fn parses_as_endpoint(url: &str) -> (valid: bool)
    ensures
        valid == is_endpoint(url@),
{
    tonic::transport::Channel::from_shared(url.to_string()).is_ok()
}

/// The text can stand in the metadata of a request: none of its bytes is a control
/// character, except for tabs.
pub open spec fn is_metadata(text: Seq<char>) -> bool {
    let bytes = vstd::utf8::encode_utf8(text);
    forall|i: int| 0 <= i < bytes.len() ==> is_metadata_byte(#[trigger] bytes[i])
}

/// The byte is no control character, or it is a tab.
pub open spec fn is_metadata_byte(byte: u8) -> bool {
    byte == 9 || (byte >= 32 && byte != 127)
}

/// Whether `tonic::metadata::AsciiMetadataValue` can be parsed from the text: it can exactly
/// where no byte of it is a control character other than a tab.
#[verifier::external_body]
fn parses_as_metadata(text: &str) -> (valid: bool)
    ensures
        valid == is_metadata(text@),
{
    text.parse::<tonic::metadata::AsciiMetadataValue>().is_ok()
}

/// The endpoint to connect to, for a `grpc://` or `grpcs://` address.
pub fn open_endpoint(grpc_url: &str) -> (opened: Result<String, TransportError>)
    ensures
        match opened {
            Ok(endpoint) => endpoint@ == url::endpoint(grpc_url@) && is_endpoint(endpoint@),
            Err(e) => e == TransportError::InvalidEndpoint && !is_endpoint(
                url::endpoint(grpc_url@),
            ),
        },
{
    let endpoint = to_tonic_endpoint(grpc_url);
    let valid = parses_as_endpoint(endpoint.as_str());
    judge_endpoint(endpoint, valid)
}

/// The endpoint, where it is a valid one.
pub fn judge_endpoint(endpoint: String, valid: bool) -> (opened: Result<String, TransportError>)
    ensures
        opened == if valid {
            Ok::<String, TransportError>(endpoint)
        } else {
            Err::<String, TransportError>(TransportError::InvalidEndpoint)
        },
{
    if valid {
        Ok(endpoint)
    } else {
        Err(TransportError::InvalidEndpoint)
    }
}

/// Puts the token in the metadata of every request.
#[derive(Debug, Clone)]
pub struct AuthInterceptor {
    /// What stands under `authorization`, where there is a token.
    pub authorization: Option<String>,
}

impl AuthInterceptor {
    /// What holds of every interceptor: its value can stand in metadata.
    pub open spec fn wf(&self) -> bool {
        self.authorization matches Some(value) ==> is_metadata(value@)
    }

    /// An interceptor for the token, where there is one and it can stand in metadata.
    pub fn new(token: Option<&str>) -> (made: Result<AuthInterceptor, TransportError>)
        ensures
            match (token, made) {
                (None, Ok(auth)) => auth.authorization is None,
                (None, Err(_)) => false,
                (Some(t), Ok(auth)) => {
                    &&& is_metadata("Bearer "@ + t@)
                    &&& auth.authorization matches Some(value) && value@ == "Bearer "@ + t@
                },
                (Some(t), Err(e)) => e == TransportError::InvalidToken && !is_metadata(
                    "Bearer "@ + t@,
                ),
            },
            made matches Ok(auth) ==> auth.wf(),
    {
        match token {
            None => Ok(AuthInterceptor { authorization: None }),
            Some(t) => {
                let mut value = "Bearer ".to_string();
                value.append(t);
                if parses_as_metadata(value.as_str()) {
                    Ok(AuthInterceptor { authorization: Some(value) })
                } else {
                    Err(TransportError::InvalidToken)
                }
            },
        }
    }

    /// What to put in the metadata of a request: the key and its value.
    pub fn metadata(&self) -> (entry: Option<(&'static str, String)>)
        ensures
            match (self.authorization, entry) {
                (None, None) => true,
                (Some(value), Some((key, v))) => key@ == "authorization"@ && v == value,
                _ => false,
            },
    {
        match &self.authorization {
            None => None,
            Some(value) => Some((AUTHORIZATION, value.clone())),
        }
    }
}

} // verus!
