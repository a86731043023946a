//! The decisions of a small HTTP/1.1 client: where to connect for a URI, and
//! when the bytes received so far hold a complete response head.

use vstd::prelude::*;
use vstd::string::*;

use crate::head::{
    head_error_kind, httparse_response, scan_response, HeadError, ResponseHead, ResponseProgress, ResponseScan,
};

verus! {

/// `http::uri::InvalidUri`, carried through unchanged.
#[verifier::external_type_specification]
#[verifier::external_body]
pub struct ExInvalidUri(http::uri::InvalidUri);

/// The parts of a URI that decide where to connect.
#[derive(Clone, Debug)]
pub struct UriParts {
    /// The scheme, such as `https`.
    pub scheme: Option<String>,
    /// The host, such as `httpbin.org`.
    pub host: Option<String>,
    /// An explicit port.
    pub port: Option<u16>,
}

/// The view of an optional string.
pub open spec fn opt_text(s: Option<String>) -> Option<Seq<char>> {
    match s {
        Some(t) => Some(t@),
        None => None,
    }
}

/// URI parts as plain values.
pub struct UriPartsModel {
    pub scheme: Option<Seq<char>>,
    pub host: Option<Seq<char>>,
    pub port: Option<u16>,
}

impl View for UriParts {
    type V = UriPartsModel;

    open spec fn view(&self) -> UriPartsModel {
        UriPartsModel { scheme: opt_text(self.scheme), host: opt_text(self.host), port: self.port }
    }
}

/// What `http::Uri`'s parser makes of `text`: `None` where it refuses it,
/// otherwise its `scheme_str`, `host` and `port_u16`.
pub uninterp spec fn http_uri(text: Seq<char>) -> Option<UriPartsModel>;

/// Calls `<http::Uri as FromStr>::from_str` and reads back `scheme_str`,
/// `host` and `port_u16`. Trusted: the outcome is `http_uri` of the text.
#[verifier::external_body]
fn parse_uri(text: &str) -> (r: Result<UriParts, http::uri::InvalidUri>)
    ensures
        r is Ok <==> http_uri(text@) is Some,
        r matches Ok(parts) ==> http_uri(text@) == Some(parts@),
{
    match text.parse::<http::Uri>() {
        Ok(uri) => Ok(UriParts {
            scheme: uri.scheme_str().map(|s| s.to_string()),
            host: uri.host().map(|h| h.to_string()),
            port: uri.port_u16(),
        }),
        Err(e) => Err(e),
    }
}

/// Where to open a connection.
#[derive(Clone, Debug, PartialEq, Eq)]
pub struct Endpoint {
    /// Whether the connection is wrapped in TLS.
    pub tls: bool,
    /// The host to connect to.
    pub host: String,
    /// The TCP port.
    pub port: u16,
}

/// Why no connection can be opened for a URI.
#[derive(Clone, Debug, PartialEq, Eq)]
pub enum ConnectError {
    /// The URI does not parse.
    InvalidUri,
    /// The URI names no host ("cannot parse host").
    MissingHost,
    /// The scheme is neither `http` nor `https` (or is missing).
    UnsupportedScheme(Option<String>),
}

/// Where a URI leads, as plain values.
pub enum ConnectPlan {
    Connect { tls: bool, host: Seq<char>, port: u16 },
    MissingHost,
    UnsupportedScheme(Option<Seq<char>>),
}

/// The connection a URI asks for: the host must be present; `http` means
/// plain TCP on the given port or 80, `https` TLS on the given port or 443.
pub open spec fn connect_plan(parts: UriPartsModel) -> ConnectPlan {
    match parts.host {
        None => ConnectPlan::MissingHost,
        Some(host) => if parts.scheme == Some("http"@) {
            ConnectPlan::Connect {
                tls: false,
                host,
                port: match parts.port {
                    Some(p) => p,
                    None => 80,
                },
            }
        } else if parts.scheme == Some("https"@) {
            ConnectPlan::Connect {
                tls: true,
                host,
                port: match parts.port {
                    Some(p) => p,
                    None => 443,
                },
            }
        } else {
            ConnectPlan::UnsupportedScheme(parts.scheme)
        },
    }
}

/// Whether an outcome carries out a plan.
pub open spec fn follows_plan(r: Result<Endpoint, ConnectError>, plan: ConnectPlan) -> bool {
    match plan {
        ConnectPlan::Connect { tls, host, port } => r matches Ok(e) && e.tls == tls && e.host@ == host
            && e.port == port,
        ConnectPlan::MissingHost => r == Err::<Endpoint, ConnectError>(ConnectError::MissingHost),
        ConnectPlan::UnsupportedScheme(s) => r matches Err(ConnectError::UnsupportedScheme(t))
            && opt_text(t) == s,
    }
}

/// Where a plan connects: exactly for a URI with a host and the scheme `http`
/// or `https`; to that host; with TLS exactly for `https`; on the URI's port
/// if it gives one, else on 443 with TLS and 80 without. A URI without a host
/// is refused as such whatever its scheme, and any other scheme is refused
/// and reported as it was given.
pub proof fn lemma_connect_plan_outcomes(parts: UriPartsModel)
    ensures
        (connect_plan(parts) is Connect) <==> (parts.host is Some && (parts.scheme == Some("http"@)
            || parts.scheme == Some("https"@))),
        connect_plan(parts) matches ConnectPlan::Connect { tls, host, port } ==> {
            &&& parts.host == Some(host)
            &&& tls == (parts.scheme == Some("https"@))
            &&& port == (match parts.port {
                Some(p) => p,
                None => if tls { 443u16 } else { 80u16 },
            })
        },
        (connect_plan(parts) is MissingHost) <==> (parts.host is None),
        connect_plan(parts) matches ConnectPlan::UnsupportedScheme(s) ==> s == parts.scheme,
{
    reveal_strlit("http");
    reveal_strlit("https");
    assert("http"@ != "https"@) by {
        assert("http"@.len() != "https"@.len());
    }
}

/// Decides where to connect for the parts of a parsed URI.
pub fn resolve_endpoint(parts: UriParts) -> (r: Result<Endpoint, ConnectError>)
    ensures
        follows_plan(r, connect_plan(parts@)),
{
    let host = match parts.host {
        Some(h) => h,
        None => return Err(ConnectError::MissingHost),
    };
    let http = String::from_str("http");
    let https = String::from_str("https");
    match parts.scheme {
        Some(s) => {
            if s.eq(&http) {
                let port = match parts.port {
                    Some(p) => p,
                    None => 80,
                };
                Ok(Endpoint { tls: false, host, port })
            } else if s.eq(&https) {
                let port = match parts.port {
                    Some(p) => p,
                    None => 443,
                };
                Ok(Endpoint { tls: true, host, port })
            } else {
                Err(ConnectError::UnsupportedScheme(Some(s)))
            }
        },
        None => Err(ConnectError::UnsupportedScheme(None)),
    }
}

/// Parses `endpoint` as a URI and decides where to connect.
pub fn plan_connection(endpoint: &str) -> (r: Result<Endpoint, ConnectError>)
    ensures
        match http_uri(endpoint@) {
            None => r == Err::<Endpoint, ConnectError>(ConnectError::InvalidUri),
            Some(parts) => follows_plan(r, connect_plan(parts)),
        },
{
    match parse_uri(endpoint) {
        Ok(parts) => resolve_endpoint(parts),
        Err(_) => Err(ConnectError::InvalidUri),
    }
}

/// Bytes of room for a response head.
pub const RESPONSE_BUFFER_LEN: usize = 8192;

/// Room for this many headers when a response head is parsed.
pub const RESPONSE_MAX_HEADERS: usize = 64;

/// The HTTP version of a response.
#[derive(Clone, Copy, Debug, PartialEq, Eq, Structural)]
pub enum HttpVersion {
    Http10,
    Http11,
}

/// The version for a parsed minor version number: 0 is HTTP/1.0, and every
/// other number is taken as HTTP/1.1.
pub fn response_version(minor: u8) -> (v: HttpVersion)
    ensures
        v == (if minor == 0 { HttpVersion::Http10 } else { HttpVersion::Http11 }),
{
    match minor {
        1 => HttpVersion::Http11,
        0 => HttpVersion::Http10,
        _ => HttpVersion::Http11,
    }
}

/// Why reading a response head stopped.
#[derive(Debug)]
pub enum ReadError {
    /// The peer closed the connection before the head was complete.
    ConnectionClosed,
    /// The bytes are not a response head; the kind says which rule they broke.
    Malformed(HeadError),
    /// The buffer filled up before the head was complete.
    TooLarge,
}

/// What to do after a chunk of the response arrived.
#[derive(Debug)]
pub enum ReadStep {
    /// Read more bytes (there is room for them).
    NeedMore,
    /// The head is complete.
    Complete(ResponseHead),
    /// Reading stops with an error.
    Failed(ReadError),
}

/// A response reader as plain values: its whole buffer and how much of it
/// has been received.
pub struct ReaderModel {
    pub buffer: Seq<u8>,
    pub filled: nat,
}

/// The bytes received so far.
pub open spec fn received(m: ReaderModel) -> Seq<u8> {
    m.buffer.take(m.filled as int)
}

/// Whether a step answers a scan of the received bytes: a complete head is
/// handed on (its body starting within what was received), an invalid one
/// fails with the kind of error httparse reported, and an incomplete one
/// asks for more unless the buffer is full.
pub open spec fn step_answers(step: ReadStep, scan: ResponseScan, filled: nat, full: bool) -> bool {
    match scan {
        ResponseScan::Complete(head) => step matches ReadStep::Complete(h) && h@ == head
            && h.body_start <= filled,
        ResponseScan::Partial => if full {
            step matches ReadStep::Failed(ReadError::TooLarge)
        } else {
            step matches ReadStep::NeedMore
        },
        ResponseScan::Invalid(kind) => step matches ReadStep::Failed(ReadError::Malformed(k)) && k == kind,
    }
}

/// What a reading step says about the parse of the received bytes. A
/// complete head is handed on unchanged, whatever its version or code; a step
/// fails as malformed only when httparse refused the bytes, and then with
/// httparse's kind; more is asked for only when the head is incomplete and
/// there is room, and "too large" only when it is incomplete and the buffer
/// is full; a parse never reports a closed connection.
pub proof fn lemma_step_outcomes(step: ReadStep, scan: ResponseScan, filled: nat, full: bool)
    requires
        step_answers(step, scan, filled, full),
    ensures
        (step is Complete) <==> (scan is Complete),
        step matches ReadStep::Complete(h) ==> scan == ResponseScan::Complete(h@),
        scan matches ResponseScan::Complete(head) ==> (step matches ReadStep::Complete(h) && h@ == head),
        step matches ReadStep::Failed(ReadError::Malformed(k)) ==> scan == ResponseScan::Invalid(k),
        scan matches ResponseScan::Invalid(k) ==> (step matches ReadStep::Failed(ReadError::Malformed(j))
            && j == k),
        (step is NeedMore) <==> (scan is Partial && !full),
        (step matches ReadStep::Failed(ReadError::TooLarge)) <==> (scan is Partial && full),
        !(step matches ReadStep::Failed(ReadError::ConnectionClosed)),
{
}

/// Collects the bytes of a response into a fixed buffer until they hold a
/// complete head.
pub struct ResponseReader {
    buffer: Vec<u8>,
    filled: usize,
}

impl View for ResponseReader {
    type V = ReaderModel;

    closed spec fn view(&self) -> ReaderModel {
        ReaderModel { buffer: self.buffer@, filled: self.filled as nat }
    }
}

impl ResponseReader {
    /// The buffer has its fixed size and the received bytes fit in it.
    pub open spec fn wf(&self) -> bool {
        &&& self@.buffer.len() == RESPONSE_BUFFER_LEN
        &&& self@.filled <= RESPONSE_BUFFER_LEN
    }

    /// A reader with a zeroed buffer and nothing received.
    pub fn new() -> (r: ResponseReader)
        ensures
            r.wf(),
            r@.filled == 0,
            r@.buffer == Seq::new(RESPONSE_BUFFER_LEN as nat, |i: int| 0u8),
    {
        let mut buffer: Vec<u8> = Vec::new();
        while buffer.len() < RESPONSE_BUFFER_LEN
            invariant
                buffer@.len() <= RESPONSE_BUFFER_LEN,
                forall|i: int| 0 <= i < buffer@.len() ==> buffer@[i] == 0u8,
            decreases RESPONSE_BUFFER_LEN - buffer@.len(),
        {
            buffer.push(0u8);
        }
        let r = ResponseReader { buffer, filled: 0 };
        assert(r@.buffer =~= Seq::new(RESPONSE_BUFFER_LEN as nat, |i: int| 0u8));
        r
    }

    /// How many more bytes fit.
    pub fn remaining(&self) -> (n: usize)
        requires
            self.wf(),
        ensures
            n == RESPONSE_BUFFER_LEN - self@.filled,
    {
        RESPONSE_BUFFER_LEN - self.filled
    }

    /// How many bytes have been received.
    pub fn filled(&self) -> (n: usize)
        ensures
            n == self@.filled,
    {
        self.filled
    }

    /// The whole buffer, received bytes first and zeros after them.
    pub fn into_buffer(self) -> (buffer: Vec<u8>)
        ensures
            buffer@ == self@.buffer,
    {
        self.buffer
    }

    /// Takes in a chunk that was read from the connection and decides what
    /// comes next. An empty chunk means the peer closed the connection.
    /// Otherwise the chunk is stored after the bytes already received, and
    /// the received bytes are parsed as a response head.
    pub fn receive(&mut self, chunk: &[u8]) -> (step: ReadStep)
        requires
            old(self).wf(),
            chunk@.len() <= RESPONSE_BUFFER_LEN - old(self)@.filled,
        ensures
            final(self).wf(),
            step is NeedMore ==> final(self)@.filled < RESPONSE_BUFFER_LEN,
            chunk@.len() == 0 ==> final(self)@ == old(self)@ && step matches ReadStep::Failed(
                ReadError::ConnectionClosed,
            ),
            chunk@.len() > 0 ==> {
                &&& final(self)@.filled == old(self)@.filled + chunk@.len()
                &&& received(final(self)@) == received(old(self)@) + chunk@
                &&& final(self)@.buffer == old(self)@.buffer.take(old(self)@.filled as int) + chunk@
                    + old(self)@.buffer.skip((old(self)@.filled + chunk@.len()) as int)
                &&& step_answers(
                    step,
                    httparse_response(received(final(self)@), RESPONSE_MAX_HEADERS as nat),
                    final(self)@.filled,
                    final(self)@.filled == RESPONSE_BUFFER_LEN,
                )
            },
    {
        let n: usize = chunk.len();
        if n == 0 {
            return ReadStep::Failed(ReadError::ConnectionClosed);
        }
        let start: usize = self.filled;
        let ghost before = self.buffer@;
        let mut i: usize = 0;
        while i < n
            invariant
                0 <= i <= n,
                n == chunk@.len(),
                start + n <= RESPONSE_BUFFER_LEN,
                before.len() == RESPONSE_BUFFER_LEN,
                self.buffer@.len() == RESPONSE_BUFFER_LEN,
                self.buffer@ =~= before.take(start as int) + chunk@.take(i as int) + before.skip(
                    start + i,
                ),
            decreases n - i,
        {
            self.buffer.set(start + i, chunk[i]);
            i = i + 1;
            assert(self.buffer@ =~= before.take(start as int) + chunk@.take(i as int) + before.skip(
                start + i,
            ));
        }
        assert(chunk@.take(n as int) =~= chunk@);
        self.filled = start + n;
        let scanned = scan_response(&self.buffer.as_slice()[0..self.filled], RESPONSE_MAX_HEADERS);
        assert(self.buffer@.subrange(0, self.filled as int) =~= received(self@));
        assert(received(self@) =~= before.take(start as int) + chunk@);
        match scanned {
            Ok(ResponseProgress::Complete(head)) => ReadStep::Complete(head),
            Ok(ResponseProgress::Partial) => {
                if self.filled == RESPONSE_BUFFER_LEN {
                    ReadStep::Failed(ReadError::TooLarge)
                } else {
                    ReadStep::NeedMore
                }
            },
            Err(e) => ReadStep::Failed(ReadError::Malformed(head_error_kind(e))),
        }
    }
}

} // verus!
