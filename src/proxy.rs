//! The proxy's decisions on each inbound request: which requests are served,
//! which headers travel upstream and back, and what body is sent upstream.
use vstd::prelude::*;

use crate::json::{json_text, parse_json, parsed_json, write_json};
use crate::request::{chat_request, transform_request_to_chat, TransformError};
use crate::text::{ascii_lower, owned, str_eq, to_ascii_lower};

verus! {

/// The proxy's startup options.
#[derive(Debug, Clone)]
pub struct Args {
    /// Port to listen on; an ephemeral port when absent.
    pub port: Option<u16>,
    /// Where to write the one-line JSON startup descriptor, if anywhere.
    pub server_info: Option<String>,
    /// Whether `GET /shutdown` ends the process.
    pub http_shutdown: bool,
    /// Absolute URL that requests are forwarded to.
    pub upstream_url: String,
    /// Whether requests and responses are translated between the Responses
    /// and the Chat Completions wire shapes.
    pub bridge_to_chat: bool,
}

/// The method of an inbound request, as far as routing tells them apart.
#[derive(Debug, Clone, Copy, PartialEq, Eq, Structural)]
pub enum RequestMethod {
    Get,
    Post,
    Other,
}

/// What to do with an inbound request.
#[derive(Debug, Clone, Copy, PartialEq, Eq, Structural)]
pub enum Route {
    /// Answer 200 and end the process.
    Shutdown,
    /// Answer 403 with an empty body; nothing goes upstream.
    Forbidden,
    /// Forward the request upstream.
    Forward,
}

/// The route of a request with method `method` and target `url`.
pub open spec fn route_of(method: RequestMethod, url: Seq<char>, http_shutdown: bool) -> Route {
    if http_shutdown && method == RequestMethod::Get && url == "/shutdown"@ {
        Route::Shutdown
    } else if method == RequestMethod::Post && url == "/v1/responses"@ {
        Route::Forward
    } else {
        Route::Forbidden
    }
}

/// Decides what to do with an inbound request: only `POST /v1/responses`
/// (no query string) is forwarded, `GET /shutdown` ends the process when that
/// is enabled, and everything else is refused.
pub fn route_request(method: RequestMethod, url: &str, http_shutdown: bool) -> (r: Route)
    ensures
        r == route_of(method, url@, http_shutdown),
{
    if http_shutdown && method == RequestMethod::Get && str_eq(url, "/shutdown") {
        Route::Shutdown
    } else if method == RequestMethod::Post && str_eq(url, "/v1/responses") {
        Route::Forward
    } else {
        Route::Forbidden
    }
}

/// The name under which an inbound header is sent upstream: its name in
/// lower case, or nothing for `Authorization` and `Host`, which the proxy
/// sets itself.
pub open spec fn upstream_header_name(name: Seq<char>) -> Option<Seq<char>> {
    let lower = ascii_lower(name);
    if lower == "authorization"@ || lower == "host"@ {
        None
    } else {
        Some(lower)
    }
}

/// The lower-case name under which an inbound header is forwarded upstream,
/// or `None` for a header that is not forwarded.
pub fn forwarded_header_name(name: &str) -> (r: Option<String>)
    ensures
        match r {
            Some(n) => upstream_header_name(name@) == Some(n@),
            None => upstream_header_name(name@) is None,
        },
{
    let lower = to_ascii_lower(name);
    if str_eq(lower.as_str(), "authorization") || str_eq(lower.as_str(), "host") {
        None
    } else {
        Some(lower)
    }
}

/// Whether a (lower-case) response header name belongs to one connection leg
/// only, so that it is not copied back to the client.
pub open spec fn hop_by_hop(name: Seq<char>) -> bool {
    name == "content-length"@ || name == "transfer-encoding"@ || name == "connection"@ || name
        == "trailer"@ || name == "upgrade"@
}

/// Whether an upstream response header is left out of the reply to the
/// client.
pub fn is_hop_by_hop_header(name: &str) -> (r: bool)
    ensures
        r == hop_by_hop(name@),
{
    str_eq(name, "content-length") || str_eq(name, "transfer-encoding") || str_eq(
        name,
        "connection",
    ) || str_eq(name, "trailer") || str_eq(name, "upgrade")
}

/// The decimal digits of `n`.
pub open spec fn decimal(n: nat) -> Seq<char>
    decreases n,
{
    if n < 10 {
        seq![digit(n)]
    } else {
        decimal(n / 10).push(digit(n % 10))
    }
}

/// The digit character of `d < 10`.
pub open spec fn digit(d: nat) -> char {
    ((48 + d) as u8) as char
}

/// The decimal text of `n`.
pub fn decimal_text(n: u64) -> (r: String)
    ensures
        r@ == decimal(n as nat),
    decreases n,
{
    if n < 10 {
        let mut s = String::new();
        crate::text::push_char(&mut s, (48u8 + (n as u8)) as char);
        assert(s@ =~= seq![digit(n as nat)]);
        s
    } else {
        let mut s = decimal_text(n / 10);
        crate::text::push_char(&mut s, (48u8 + ((n % 10) as u8)) as char);
        s
    }
}

/// The Host header value for an upstream URL with host `host` and explicit
/// port `port`; nothing when the URL has no host.
pub open spec fn host_value(host: Option<Seq<char>>, port: Option<u16>) -> Option<Seq<char>> {
    match host {
        None => None,
        Some(h) => match port {
            Some(p) => Some(h + ":"@ + decimal(p as nat)),
            None => Some(h),
        },
    }
}

/// The Host header value derived from an upstream URL's host and explicit
/// port: `host:port`, or `host` alone when the URL names no port; `None`
/// when the URL has no host, which the proxy refuses at startup.
pub fn host_header_value(host: Option<&str>, port: Option<u16>) -> (r: Option<String>)
    ensures
        match r {
            Some(v) => host_value(opt_str_view(host), port) == Some(v@),
            None => host_value(opt_str_view(host), port) is None,
        },
{
    match host {
        None => None,
        Some(h) => match port {
            Some(p) => {
                let mut v = owned(h);
                v.append(":");
                let d = decimal_text(p as u64);
                v.append(d.as_str());
                Some(v)
            },
            None => Some(owned(h)),
        },
    }
}

/// The model of an optional string slice.
pub open spec fn opt_str_view(s: Option<&str>) -> Option<Seq<char>> {
    match s {
        Some(x) => Some(x@),
        None => None,
    }
}

/// Why an inbound body cannot be sent upstream in bridge mode.
#[derive(Debug, Clone, Copy, PartialEq, Eq, Structural)]
pub enum BodyError {
    /// The body is not a JSON document.
    NotJson,
    /// The document is not a well-formed Responses request.
    Malformed(TransformError),
}

/// The body sent upstream in bridge mode for an inbound body `body`.
pub open spec fn bridged_body(body: Seq<char>) -> Result<Seq<char>, BodyError> {
    match parsed_json(body) {
        None => Err(BodyError::NotJson),
        Some(v) => match chat_request(v) {
            Ok(c) => Ok(json_text(c)),
            Err(e) => Err(BodyError::Malformed(e)),
        },
    }
}

/// Translates an inbound Responses request body into the Chat Completions
/// body sent upstream in bridge mode.
pub fn translate_request_body(body: &str) -> (r: Result<String, BodyError>)
    ensures
        match r {
            Ok(s) => bridged_body(body@) == Ok::<Seq<char>, BodyError>(s@),
            Err(e) => bridged_body(body@) == Err::<Seq<char>, BodyError>(e),
        },
{
    match parse_json(body) {
        None => Err(BodyError::NotJson),
        Some(v) => match transform_request_to_chat(v) {
            Ok(c) => Ok(write_json(&c)),
            Err(e) => Err(BodyError::Malformed(e)),
        },
    }
}

/// Exactly one request shape is forwarded upstream: `POST /v1/responses`.
pub proof fn lemma_only_one_route_forwarded(
    method: RequestMethod,
    url: Seq<char>,
    http_shutdown: bool,
)
    ensures
        route_of(method, url, http_shutdown) == Route::Forward <==> (method == RequestMethod::Post
            && url == "/v1/responses"@),
{
}

} // verus!
