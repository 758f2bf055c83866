//! Error type returned by every fallible client operation.

use vstd::prelude::*;

verus! {

/// `url::ParseError`, carried through as an opaque value.
#[verifier::external_type_specification]
#[verifier::external_body]
pub struct ExUrlParseError(url::ParseError);

/// `reqwest::Error`, carried through as an opaque value.
#[verifier::external_type_specification]
#[verifier::external_body]
pub struct ExReqwestError(reqwest::Error);

/// The unified error type for the Zizq client.
///
/// Every error response of the server is the one variant
/// [`ZizqError::Response`]; the predicates below tell statuses apart.
#[derive(Debug)]
pub enum ZizqError {
    /// A client was built without a URL.
    MissingUrl,
    /// The supplied URL failed to parse.
    InvalidUrl(url::ParseError),
    /// The underlying HTTP transport returned an error.
    Transport(reqwest::Error),
    /// The server returned a status other than those expected.
    Response {
        /// HTTP status code returned by the server.
        status: u16,
        /// What the server said about it.
        message: String,
    },
    /// The request body could not be serialised.
    Encode(String),
    /// The response body could not be deserialised.
    Decode(String),
    /// A worker was built without a client.
    MissingClient,
    /// A worker was built without a handler.
    MissingHandler,
    /// A bulk patch was sent without the update to apply.
    MissingPatch,
    /// A TLS root certificate or client identity could not be loaded.
    Tls(String),
}

impl ZizqError {
    /// The HTTP status that this error carries.
    pub open spec fn status_of(&self) -> Option<u16> {
        match *self {
            ZizqError::Response { status, .. } => Some(status),
            _ => None,
        }
    }

    /// Whether the status lies between `low` and `high`.
    pub open spec fn status_in(&self, low: int, high: int) -> bool {
        self.status_of() matches Some(s) && low <= s <= high
    }

    /// The HTTP status, for an error response; `None` otherwise.
    pub fn status(&self) -> (r: Option<u16>)
        ensures
            r == self.status_of(),
    {
        match self {
            ZizqError::Response { status, .. } => Some(*status),
            _ => None,
        }
    }

    fn has_status(&self, status: u16) -> (r: bool)
        ensures
            r == (self.status_of() == Some(status)),
    {
        match self.status() {
            Some(s) => s == status,
            None => false,
        }
    }

    fn has_status_in(&self, low: u16, high: u16) -> (r: bool)
        ensures
            r == self.status_in(low as int, high as int),
    {
        match self.status() {
            Some(s) => low <= s && s <= high,
            None => false,
        }
    }

    /// A `404`: a resource was specified that does not exist.
    pub fn is_not_found(&self) -> (r: bool)
        ensures
            r == (self.status_of() == Some(404u16)),
    {
        self.has_status(404)
    }

    /// A `409`: the operation would create an integrity issue.
    pub fn is_conflict(&self) -> (r: bool)
        ensures
            r == (self.status_of() == Some(409u16)),
    {
        self.has_status(409)
    }

    /// A `403`: the server refused a licensed feature.
    pub fn is_forbidden(&self) -> (r: bool)
        ensures
            r == (self.status_of() == Some(403u16)),
    {
        self.has_status(403)
    }

    /// A `400` or `422`: the server rejected the request itself.
    pub fn is_invalid_request(&self) -> (r: bool)
        ensures
            r == (self.status_of() == Some(400u16) || self.status_of() == Some(422u16)),
    {
        self.has_status(400) || self.has_status(422)
    }

    /// A `406` or `415`: content negotiation failed.
    pub fn is_unsupported_format(&self) -> (r: bool)
        ensures
            r == (self.status_of() == Some(406u16) || self.status_of() == Some(415u16)),
    {
        self.has_status(406) || self.has_status(415)
    }

    /// Any `4xx`.
    pub fn is_client_error(&self) -> (r: bool)
        ensures
            r == self.status_in(400, 499),
    {
        self.has_status_in(400, 499)
    }

    /// Any `5xx`.
    pub fn is_server_error(&self) -> (r: bool)
        ensures
            r == self.status_in(500, 599),
    {
        self.has_status_in(500, 599)
    }

    /// The request never completed.
    pub fn is_transport(&self) -> (r: bool)
        ensures
            r == (*self is Transport),
    {
        match self {
            ZizqError::Transport(_) => true,
            _ => false,
        }
    }

    /// Whether an error is transient.
    pub open spec fn retryable(&self) -> bool {
        *self is Transport || self.status_in(500, 599)
    }

    /// Whether the same request is worth sending again: transport
    /// failures and `5xx` are transient, everything else is permanent.
    pub fn is_retryable(&self) -> (r: bool)
        ensures
            r == self.retryable(),
    {
        self.is_transport() || self.is_server_error()
    }
}

/// A request that the server rejected, or that never could be sent, is
/// never worth sending again.
pub proof fn law_rejections_are_permanent(e: ZizqError)
    requires
        e.status_in(400, 499) || e is Encode || e is Decode || e is MissingUrl || e is InvalidUrl
            || e is MissingClient || e is MissingHandler || e is MissingPatch || e is Tls,
    ensures
        !e.retryable(),
{
}

} // verus!
