//! Reading HTTP/1.x message heads with `httparse`, and the plain values that
//! stand for what it finds.

use vstd::prelude::*;

verus! {

/// `httparse`'s parse error, carried through unchanged.
#[verifier::external_type_specification]
#[verifier::external_body]
pub struct ExHttparseError(httparse::Error);

/// How far a parse of a request head got.
#[derive(Clone, Copy, Debug, PartialEq, Eq, Structural)]
pub enum HeadProgress {
    /// The head is complete; the body starts at this byte offset.
    Complete(usize),
    /// The bytes end before the head does.
    Partial,
}

/// What `httparse` makes of the bytes of a request head.
pub enum RequestScan {
    Complete(nat),
    Partial,
    Invalid,
}

/// The outcome of `httparse::Request::parse` on `bytes` with room for
/// `max_headers` headers.
pub uninterp spec fn httparse_request(bytes: Seq<u8>, max_headers: nat) -> RequestScan;

/// Whether a wrapper result matches a modelled request scan.
pub open spec fn request_scan_matches(r: Result<HeadProgress, httparse::Error>, s: RequestScan) -> bool {
    match r {
        Ok(HeadProgress::Complete(n)) => s == RequestScan::Complete(n as nat),
        Ok(HeadProgress::Partial) => s == RequestScan::Partial,
        Err(_) => s == RequestScan::Invalid,
    }
}

/// Calls `httparse::Request::parse` on `bytes` with `max_headers` header
/// slots. Trusted: the outcome is `httparse_request` of the bytes and the
/// slot count (the parser is a pure function of them), and a complete head
/// ends within the bytes.
#[verifier::external_body]
pub(crate) fn scan_request(bytes: &[u8], max_headers: usize) -> (r: Result<HeadProgress, httparse::Error>)
    ensures
        request_scan_matches(r, httparse_request(bytes@, max_headers as nat)),
        r matches Ok(HeadProgress::Complete(n)) ==> n <= bytes@.len(),
{
    let mut headers = vec![httparse::EMPTY_HEADER; max_headers];
    let mut request = httparse::Request::new(&mut headers);
    match request.parse(bytes) {
        Ok(httparse::Status::Complete(n)) => Ok(HeadProgress::Complete(n)),
        Ok(httparse::Status::Partial) => Ok(HeadProgress::Partial),
        Err(e) => Err(e),
    }
}

/// The status line and headers of a complete response head.
#[derive(Clone, Debug)]
pub struct ResponseHead {
    /// The minor version, such as `1` for `HTTP/1.1`.
    pub version: Option<u8>,
    /// The status code, such as `200`.
    pub code: Option<u16>,
    /// Header names and raw values, in the order received.
    pub headers: Vec<(String, Vec<u8>)>,
    /// Offset of the first byte after the head.
    pub body_start: usize,
}

/// A response head as plain values.
pub struct ResponseHeadModel {
    pub version: Option<u8>,
    pub code: Option<u16>,
    pub headers: Seq<(Seq<char>, Seq<u8>)>,
    pub body_start: nat,
}

impl View for ResponseHead {
    type V = ResponseHeadModel;

    open spec fn view(&self) -> ResponseHeadModel {
        ResponseHeadModel {
            version: self.version,
            code: self.code,
            headers: self.headers@.map_values(|h: (String, Vec<u8>)| (h.0@, h.1@)),
            body_start: self.body_start as nat,
        }
    }
}

/// How far a parse of a response head got.
pub enum ResponseProgress {
    Complete(ResponseHead),
    Partial,
}

/// Which rule of the HTTP grammar a head broke, one kind per
/// `httparse::Error` variant.
#[derive(Clone, Copy, Debug, PartialEq, Eq, Structural)]
pub enum HeadError {
    /// Invalid byte in a header name.
    HeaderName,
    /// Invalid byte in a header value.
    HeaderValue,
    /// Invalid byte in a new line.
    NewLine,
    /// Invalid byte in the response status.
    Status,
    /// Invalid byte where a token is required.
    Token,
    /// More headers than there are slots for.
    TooManyHeaders,
    /// Invalid byte in the HTTP version.
    Version,
}

/// What `httparse` makes of the bytes of a response head.
pub enum ResponseScan {
    Complete(ResponseHeadModel),
    Partial,
    Invalid(HeadError),
}

/// The outcome of `httparse::Response::parse` on `bytes` with room for
/// `max_headers` headers.
pub uninterp spec fn httparse_response(bytes: Seq<u8>, max_headers: nat) -> ResponseScan;

/// Whether a wrapper result matches a modelled response scan.
pub open spec fn response_scan_matches(r: Result<ResponseProgress, httparse::Error>, s: ResponseScan) -> bool {
    match r {
        Ok(ResponseProgress::Complete(head)) => s == ResponseScan::Complete(head@),
        Ok(ResponseProgress::Partial) => s == ResponseScan::Partial,
        Err(e) => s == ResponseScan::Invalid(httparse_error_kind(e)),
    }
}

/// The variant of an `httparse::Error`, as a `HeadError` of the same name.
pub uninterp spec fn httparse_error_kind(error: httparse::Error) -> HeadError;

/// Tells the variants of an `httparse::Error` apart, one arm each. Trusted:
/// the kind is `httparse_error_kind` of the error.
#[verifier::external_body]
pub(crate) fn head_error_kind(error: httparse::Error) -> (kind: HeadError)
    ensures
        kind == httparse_error_kind(error),
{
    match error {
        httparse::Error::HeaderName => HeadError::HeaderName,
        httparse::Error::HeaderValue => HeadError::HeaderValue,
        httparse::Error::NewLine => HeadError::NewLine,
        httparse::Error::Status => HeadError::Status,
        httparse::Error::Token => HeadError::Token,
        httparse::Error::TooManyHeaders => HeadError::TooManyHeaders,
        httparse::Error::Version => HeadError::Version,
    }
}

/// Calls `httparse::Response::parse` on `bytes` with `max_headers` header
/// slots and copies out the version, code and headers it filled in.
/// Trusted: the outcome is `httparse_response` of the bytes and the slot
/// count (an error standing for the `Invalid` outcome of its kind), and a
/// complete head ends within the bytes.
#[verifier::external_body]
pub(crate) fn scan_response(bytes: &[u8], max_headers: usize) -> (r: Result<ResponseProgress, httparse::Error>)
    ensures
        response_scan_matches(r, httparse_response(bytes@, max_headers as nat)),
        r matches Ok(ResponseProgress::Complete(head)) ==> head.body_start <= bytes@.len(),
{
    let mut headers = vec![httparse::EMPTY_HEADER; max_headers];
    let mut response = httparse::Response::new(&mut headers);
    match response.parse(bytes) {
        Ok(httparse::Status::Complete(n)) => Ok(ResponseProgress::Complete(ResponseHead {
            version: response.version,
            code: response.code,
            headers: response.headers.iter().map(|h| (h.name.to_string(), h.value.to_vec())).collect(),
            body_start: n,
        })),
        Ok(httparse::Status::Partial) => Ok(ResponseProgress::Partial),
        Err(e) => Err(e),
    }
}

} // verus!
