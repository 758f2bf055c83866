//! The client: where the server is, how requests are addressed and how
//! responses are judged.

use vstd::prelude::*;
use vstd::string::*;
use vstd::utf8::*;
use crate::decode::{as_text, read_sole, sole};
use crate::duration::{Duration, NANOS_PER_SEC};
use crate::error::ZizqError;
use crate::format::{format_of, media_type, Format};
use crate::json::{Json, Value};
use crate::request::{pair_texts, Request, RequestModel};
use crate::text::{lossy_text, opt_text, same_text, texts, utf8_lossy};
use crate::urls::{
    append_query, append_segments, fits, host_of, join_url, lemma_fits_without_query, parse_url,
    parsed_url, port_of, resolved_url, url_below, url_fits, url_host, url_port, url_with_query,
};

verus! {

/// Where the server is and how to speak to it.
#[derive(Debug, Clone)]
pub struct Client {
    /// Base URL, normalised.
    pub base_url: String,
    /// Format of request and response bodies.
    pub format: Format,
    /// How long to wait for a connection.
    pub connect_timeout: Duration,
    /// How long to wait for the next bytes of a response.
    pub read_timeout: Duration,
}

/// Fluent builder for a [`Client`].
#[derive(Debug, Clone)]
pub struct ClientBuilder {
    pub url: Option<String>,
    pub format: Option<Format>,
    pub connect_timeout: Option<Duration>,
    pub read_timeout: Option<Duration>,
}

/// How long to wait for a connection by default, in seconds.
pub const DEFAULT_CONNECT_TIMEOUT: u64 = 10;

/// How long to wait for the next bytes of a response by default, in
/// seconds.
pub const DEFAULT_READ_TIMEOUT: u64 = 30;

/// `d`, or `secs` seconds where it is not given.
pub open spec fn timeout_or(d: Option<Duration>, secs: u64) -> Duration {
    match d {
        Some(d) => d,
        None => Duration { nanos: (secs * NANOS_PER_SEC) as u128 },
    }
}

impl Default for ClientBuilder {
    fn default() -> (r: ClientBuilder)
        ensures
            r == (ClientBuilder {
                url: None,
                format: None,
                connect_timeout: None,
                read_timeout: None,
            }),
    {
        ClientBuilder { url: None, format: None, connect_timeout: None, read_timeout: None }
    }
}

impl ClientBuilder {
    /// Sets the base URL. Required.
    pub fn url(self, url: &str) -> (r: ClientBuilder)
        ensures
            opt_text(r.url) == Some(url@),
            r == (ClientBuilder { url: r.url, ..self }),
    {
        ClientBuilder { url: Some(url.to_owned()), ..self }
    }

    /// Sets the format. Defaults to MessagePack.
    pub fn format(self, format: Format) -> (r: ClientBuilder)
        ensures
            r == (ClientBuilder { format: Some(format), ..self }),
    {
        ClientBuilder { format: Some(format), ..self }
    }

    /// Sets how long to wait for a connection.
    pub fn connect_timeout(self, d: Duration) -> (r: ClientBuilder)
        ensures
            r == (ClientBuilder { connect_timeout: Some(d), ..self }),
    {
        ClientBuilder { connect_timeout: Some(d), ..self }
    }

    /// Sets how long to wait for the next bytes of a response.
    pub fn read_timeout(self, d: Duration) -> (r: ClientBuilder)
        ensures
            r == (ClientBuilder { read_timeout: Some(d), ..self }),
    {
        ClientBuilder { read_timeout: Some(d), ..self }
    }

    /// Finalises the builder: a URL is required, and it has to parse.
    pub fn build(self) -> (r: Result<Client, ZizqError>)
        ensures
            match self.url {
                None => r matches Err(ZizqError::MissingUrl),
                Some(raw) => match parsed_url(raw@) {
                    None => r matches Err(ZizqError::InvalidUrl(_)),
                    Some(base) => r matches Ok(c) && c.base_url@ == base && c.format == (
                    match self.format {
                        Some(f) => f,
                        None => Format::MessagePack,
                    }) && c.connect_timeout == timeout_or(
                        self.connect_timeout,
                        DEFAULT_CONNECT_TIMEOUT,
                    ) && c.read_timeout == timeout_or(self.read_timeout, DEFAULT_READ_TIMEOUT),
                },
            },
    {
        let raw = match self.url {
            Some(raw) => raw,
            None => {
                return Err(ZizqError::MissingUrl);
            },
        };
        let base_url = match parse_url(raw.as_str()) {
            Ok(url) => url,
            Err(e) => {
                return Err(ZizqError::InvalidUrl(e));
            },
        };
        let connect_timeout = match self.connect_timeout {
            Some(d) => d,
            None => Duration::from_secs(DEFAULT_CONNECT_TIMEOUT),
        };
        let read_timeout = match self.read_timeout {
            Some(d) => d,
            None => Duration::from_secs(DEFAULT_READ_TIMEOUT),
        };
        let format = match self.format {
            Some(f) => f,
            None => Format::default(),
        };
        Ok(Client { base_url, format, connect_timeout, read_timeout })
    }
}

/// The URL of a request below `base`. Without parameters no query is
/// touched: that would leave a trailing `?`.
pub open spec fn request_url(base: Seq<char>, r: RequestModel) -> Option<Seq<char>> {
    if r.query.len() == 0 {
        url_below(base, r.segments)
    } else {
        match url_below(base, r.segments) {
            Some(url) => url_with_query(url, r.query),
            None => None,
        }
    }
}

/// Whether the URL of a request below `base` stays below four gigabytes,
/// before and after its parameters are appended.
pub open spec fn request_fits(base: Seq<char>, r: RequestModel) -> bool {
    url_fits(base, r.segments, r.query) && (r.query.len() > 0 ==> match url_below(
        base,
        r.segments,
    ) {
        Some(url) => url_fits(url, Seq::empty(), r.query),
        None => true,
    })
}

impl Client {
    /// Starts building a client.
    pub fn builder() -> (r: ClientBuilder)
        ensures
            r == (ClientBuilder {
                url: None,
                format: None,
                connect_timeout: None,
                read_timeout: None,
            }),
    {
        ClientBuilder::default()
    }

    /// Whether the URL of a request stays below four gigabytes.
    pub fn can_address(&self, request: &Request) -> (r: bool)
        ensures
            r == request_fits(self.base_url@, request@),
    {
        assert(pair_texts(request.query@).len() == request.query@.len());
        if !fits(self.base_url.as_str(), &request.segments, &request.query) {
            false
        } else if request.query.len() == 0 {
            true
        } else {
            proof {
                lemma_fits_without_query(self.base_url@, request@.segments, request@.query);
            }
            let none: Vec<String> = Vec::new();
            assert(texts(none@) =~= Seq::empty());
            match append_segments(self.base_url.as_str(), &request.segments) {
                Some(url) => fits(url.as_str(), &none, &request.query),
                None => true,
            }
        }
    }

    /// The URL of a request, where it stays below four gigabytes and the
    /// base URL is one that requests can be addressed below.
    pub fn try_url(&self, request: &Request) -> (r: Option<String>)
        ensures
            opt_text(r) == if request_fits(self.base_url@, request@) {
                request_url(self.base_url@, request@)
            } else {
                None
            },
    {
        if self.can_address(request) && self.addresses(request) {
            Some(self.url(request))
        } else {
            None
        }
    }

    /// The URL of a request, where the base URL is one that `request` can be
    /// addressed below.
    fn address(&self, request: &Request) -> (r: Option<String>)
        requires
            request_fits(self.base_url@, request@),
        ensures
            opt_text(r) == request_url(self.base_url@, request@),
    {
        assert(pair_texts(request.query@).len() == request.query@.len());
        proof {
            lemma_fits_without_query(self.base_url@, request@.segments, request@.query);
        }
        let below = append_segments(self.base_url.as_str(), &request.segments);
        if request.query.len() == 0 {
            below
        } else {
            match below {
                Some(url) => append_query(url.as_str(), &request.query),
                None => None,
            }
        }
    }

    /// Whether the base URL is one that `request` can be addressed below.
    fn addresses(&self, request: &Request) -> (r: bool)
        requires
            request_fits(self.base_url@, request@),
        ensures
            r == request_url(self.base_url@, request@) is Some,
    {
        self.address(request).is_some()
    }

    /// The URL of a request: the base URL with the request's segments and
    /// parameters appended, encoded.
    pub fn url(&self, request: &Request) -> (r: String)
        requires
            request_fits(self.base_url@, request@),
            request_url(self.base_url@, request@) is Some,
        ensures
            request_url(self.base_url@, request@) == Some(r@),
    {
        self.address(request).unwrap()
    }

    /// The URL of a page that the server linked to. A link that leaves the
    /// configured host or port is refused.
    pub fn resolve_page_path(&self, path: &str) -> (r: Result<String, ZizqError>)
        ensures
            page_url(self.base_url@, path@) == match r {
                Ok(u) => Some(u@),
                Err(_) => None,
            },
            match resolved_url(self.base_url@, path@) {
                None => r matches Err(ZizqError::InvalidUrl(_)),
                Some(url) => if url_host(url) == url_host(self.base_url@) && url_port(url)
                    == url_port(self.base_url@) {
                    r matches Ok(u) && u@ == url
                } else {
                    r matches Err(ZizqError::Decode(m)) && m@
                        == "page path resolved to a different host than the configured base URL: "@
                        + url
                },
            },
    {
        let resolved = match join_url(self.base_url.as_str(), path) {
            Ok(url) => url,
            Err(e) => {
                return Err(ZizqError::InvalidUrl(e));
            },
        };
        let same_host = match (host_of(resolved.as_str()), host_of(self.base_url.as_str())) {
            (Some(a), Some(b)) => same_text(a.as_str(), b.as_str()),
            (None, None) => true,
            _ => false,
        };
        let same_port = match (port_of(resolved.as_str()), port_of(self.base_url.as_str())) {
            (Some(a), Some(b)) => a == b,
            (None, None) => true,
            _ => false,
        };
        if same_host && same_port {
            Ok(resolved)
        } else {
            let mut message =
                "page path resolved to a different host than the configured base URL: ".to_owned();
            message.append(resolved.as_str());
            Err(ZizqError::Decode(message))
        }
    }

    /// The format of a response: what its `Content-Type` says, or the
    /// configured one where that says nothing known.
    pub open spec fn format_for(&self, content_type: Option<Seq<char>>) -> Format {
        match content_type {
            Some(value) => match format_of(media_type(value)) {
                Some(f) => f,
                None => self.format,
            },
            None => self.format,
        }
    }

    /// The format of a response with the given `Content-Type`.
    pub fn response_format(&self, content_type: Option<&str>) -> (r: Format)
        ensures
            r == self.format_for(
                match content_type {
                    Some(value) => Some(value@),
                    None => None,
                },
            ),
    {
        match content_type {
            Some(value) => match Format::from_content_type(value) {
                Some(f) => f,
                None => self.format,
            },
            None => self.format,
        }
    }
}

/// What an error response says. `decoded` is the error that the body holds
/// in the response's format, `as_json` the one that it holds as JSON.
pub open spec fn error_message(
    format: Format,
    decoded: Option<Seq<char>>,
    as_json: Option<Seq<char>>,
    body: Seq<u8>,
) -> Seq<char> {
    match decoded {
        Some(message) => message,
        None => match as_json {
            Some(message) => if format != Format::Json {
                message
            } else {
                lossy_text(body)
            },
            None => lossy_text(body),
        },
    }
}

/// What an error response says: the error in its format, else the error
/// as JSON, else the body as text.
pub fn extract_error_message(
    format: Format,
    decoded: Option<String>,
    as_json: Option<String>,
    body: &[u8],
) -> (r: String)
    ensures
        r@ == error_message(format, opt_text(decoded), opt_text(as_json), body@),
{
    if let Some(message) = decoded {
        return message;
    }
    if format != Format::Json {
        if let Some(message) = as_json {
            return message;
        }
    }
    utf8_lossy(body)
}

/// Which statuses mean that a request was accepted.
#[derive(Debug, Clone, Copy, PartialEq, Eq, Structural)]
pub enum Expected {
    /// Any `2xx`.
    Success,
    /// `204`.
    NoContent,
    /// `204`, or `422` where part of a batch was refused.
    NoContentOrUnprocessable,
}

impl Expected {
    /// Whether `status` means that the request was accepted.
    pub open spec fn has(&self, status: u16) -> bool {
        match *self {
            Expected::Success => 200 <= status <= 299,
            Expected::NoContent => status == 204,
            Expected::NoContentOrUnprocessable => status == 204 || status == 422,
        }
    }

    /// Whether `status` means that the request was accepted.
    pub fn accepts(&self, status: u16) -> (r: bool)
        ensures
            r == self.has(status),
    {
        match self {
            Expected::Success => 200 <= status && status <= 299,
            Expected::NoContent => status == 204,
            Expected::NoContentOrUnprocessable => status == 204 || status == 422,
        }
    }
}

/// What a response says went wrong.
pub open spec fn api_error(v: Json) -> Option<Seq<char>> {
    match sole(v, "error"@) {
        Some(f) => as_text(f),
        None => None,
    }
}

/// Reads what a response says went wrong.
pub fn read_error(v: &Value) -> (r: Option<String>)
    ensures
        opt_text(r) == api_error(v@),
{
    match read_sole(v, "error") {
        Some(Value::String(s)) => Some(s.clone()),
        _ => None,
    }
}

/// A response of the server.
#[derive(Debug)]
pub struct Reply {
    pub status: u16,
    /// Value of the `Content-Type` header.
    pub content_type: Option<String>,
    pub body: Vec<u8>,
}

impl Client {
    /// Judges a response: accepted, or an error with the status and what
    /// the server says about it. `decoded` and `as_json` are the errors
    /// that the body holds in the response's format and as JSON.
    pub fn expect_status(
        &self,
        expected: Expected,
        reply: &Reply,
        decoded: Option<String>,
        as_json: Option<String>,
    ) -> (r: Result<(), ZizqError>)
        ensures
            if expected.has(reply.status) {
                r is Ok
            } else {
                r matches Err(ZizqError::Response { status, message }) && status == reply.status
                    && message@ == error_message(
                    self.format_for(opt_text(reply.content_type)),
                    opt_text(decoded),
                    opt_text(as_json),
                    reply.body@,
                )
            },
    {
        if expected.accepts(reply.status) {
            return Ok(());
        }
        let format = match &reply.content_type {
            Some(value) => self.response_format(Some(value.as_str())),
            None => self.response_format(None),
        };
        let message = extract_error_message(format, decoded, as_json, reply.body.as_slice());
        Err(ZizqError::Response { status: reply.status, message })
    }

    /// The `Accept` header of the request that opens a job stream.
    pub fn stream_accept(&self) -> (r: &'static str)
        ensures
            r@ == self.format.stream_type(),
    {
        self.format.stream_content_type()
    }

    /// The `Accept` and `Content-Type` headers of a request. Only a request
    /// with a body has the second.
    pub fn headers(&self, request: &Request) -> (r: (&'static str, Option<&'static str>))
        ensures
            r.0@ == self.format.body_type(),
            r.1 is Some == request@.body is Some,
            r.1 matches Some(t) ==> t@ == self.format.body_type(),
    {
        let accept = self.format.content_type();
        match &request.body {
            Some(_) => (accept, Some(accept)),
            None => (accept, None),
        }
    }
}

/// A page link never leads away from the configured host and port.
pub proof fn law_pages_stay_on_the_host(base: Seq<char>, path: Seq<char>)
    ensures
        forall|url: Seq<char>|
            #![trigger url_host(url)]
            page_url(base, path) == Some(url) ==> url_host(url) == url_host(base) && url_port(url)
                == url_port(base),
{
}

/// The URL that a page link is followed to, where it is.
pub open spec fn page_url(base: Seq<char>, path: Seq<char>) -> Option<Seq<char>> {
    match resolved_url(base, path) {
        Some(url) => if url_host(url) == url_host(base) && url_port(url) == url_port(base) {
            Some(url)
        } else {
            None
        },
        None => None,
    }
}

} // verus!
