//! Checking that text holds a complete HTTP/1.x request head.

use vstd::prelude::*;
use vstd::utf8::encode_utf8;

use crate::head::{scan_request, HeadProgress, RequestScan, httparse_request};

verus! {

/// `http::Request`, carried through unchanged.
#[verifier::external_type_specification]
#[verifier::external_body]
#[verifier::reject_recursive_types(T)]
pub struct ExRequest<T>(http::Request<T>);

/// Room for this many headers when a request head is parsed.
pub const REQUEST_MAX_HEADERS: usize = 64;

/// Why a request head was refused.
#[derive(Clone, Copy, Debug, PartialEq, Eq, Structural)]
pub enum RequestParseError {
    /// The text ends before the head does.
    Incomplete,
    /// The text is not an HTTP/1.x request head (or has too many headers).
    Malformed,
}

/// What `httparse` makes of the UTF-8 bytes of `raw`.
pub open spec fn request_scan_of(raw: Seq<char>) -> RequestScan {
    httparse_request(encode_utf8(raw), REQUEST_MAX_HEADERS as nat)
}

/// The error for a scan that did not reach a complete head.
pub open spec fn request_error_of(scan: RequestScan) -> RequestParseError {
    match scan {
        RequestScan::Partial => RequestParseError::Incomplete,
        _ => RequestParseError::Malformed,
    }
}

/// What an `http::Request` holds besides its body: the text of its method,
/// of its URI and of its version, its headers (name, raw value) in order, and
/// how many extensions it carries.
pub struct RequestContents {
    pub method: Seq<char>,
    pub uri: Seq<char>,
    pub version: Seq<char>,
    pub headers: Seq<(Seq<char>, Seq<u8>)>,
    pub extension_count: nat,
}

/// The contents of an `http::Request`, as its accessors `method`, `uri`,
/// `version`, `headers` and `extensions` give them.
pub uninterp spec fn request_contents(request: http::Request<()>) -> RequestContents;

/// A fresh request: method `GET`, URI `/`, version `HTTP/1.1`, no headers and
/// no extensions.
pub open spec fn default_request_contents() -> RequestContents {
    RequestContents {
        method: "GET"@,
        uri: "/"@,
        version: "HTTP/1.1"@,
        headers: Seq::empty(),
        extension_count: 0,
    }
}

/// Calls `http::Request::new(())`. Trusted: the request has the default
/// parts that `Request::new` gives it (`Method::default()` is GET,
/// `Uri::default()` is `/`, `Version::default()` is HTTP/1.1, and the header
/// map and the extensions start empty).
#[verifier::external_body]
fn empty_request() -> (request: http::Request<()>)
    ensures
        request_contents(request) == default_request_contents(),
{
    http::Request::new(())
}

/// Checks that `raw_req` holds a complete request head and returns a fresh
/// `http::Request` (GET `/` HTTP/1.1, no headers, no extensions); nothing of the parsed head
/// is carried over.
pub fn parse_request(raw_req: &str) -> (request: http::Request<()>)
    requires
        request_scan_of(raw_req@) is Complete,
    ensures
        request_contents(request) == default_request_contents(),
{
    let scanned = scan_request(raw_req.as_bytes(), REQUEST_MAX_HEADERS);
    assert(scanned matches Ok(HeadProgress::Complete(_)));
    empty_request()
}

/// `parse_request` for any text: `Ok` exactly when the text holds a complete
/// request head, otherwise the reason it does not.
pub fn try_parse_request(raw_req: &str) -> (r: Result<http::Request<()>, RequestParseError>)
    ensures
        r is Ok <==> request_scan_of(raw_req@) is Complete,
        r matches Err(e) ==> e == request_error_of(request_scan_of(raw_req@)),
        r matches Ok(request) ==> request_contents(request) == default_request_contents(),
{
    match scan_request(raw_req.as_bytes(), REQUEST_MAX_HEADERS) {
        Ok(HeadProgress::Complete(_)) => Ok(parse_request(raw_req)),
        Ok(HeadProgress::Partial) => Err(RequestParseError::Incomplete),
        Err(_) => Err(RequestParseError::Malformed),
    }
}

} // verus!
