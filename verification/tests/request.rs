use awsv4_http::awsv4::request::{parse_request, try_parse_request, RequestParseError};

#[test]
fn accepts_a_complete_request() {
    let raw = "GET /ip HTTP/1.1\r\nHost: httpbin.org\r\nConnection: close\r\n\r\n";
    let req = try_parse_request(raw).expect("complete request");
    assert_eq!(req.method(), http::Method::GET);
    assert_eq!(req.uri(), "/");
    assert!(req.headers().is_empty());
    assert_eq!(req.extensions().len(), 0);
    assert_eq!(format!("{:?}", req.version()), "HTTP/1.1");
}

#[test]
fn accepts_bare_newlines() {
    let raw = "GET /ip HTTP/1.1\nHost: httpbin.org\nConnection: close\n\n";
    assert!(try_parse_request(raw).is_ok());
    let req = parse_request(raw);
    assert_eq!(req.version(), http::Version::HTTP_11);
}

#[test]
fn reports_incomplete_request() {
    assert_eq!(try_parse_request("GET /ip HTTP/1.1\r\nHost: h").unwrap_err(), RequestParseError::Incomplete);
    assert_eq!(try_parse_request("").unwrap_err(), RequestParseError::Incomplete);
}

#[test]
fn reports_malformed_request() {
    assert_eq!(try_parse_request("G(T / HTTP/1.1\r\n\r\n").unwrap_err(), RequestParseError::Malformed);
    assert_eq!(try_parse_request("GET / HTTP/9.9\r\n\r\n").unwrap_err(), RequestParseError::Malformed);
}

#[test]
fn reports_too_many_headers() {
    let mut raw = String::from("GET / HTTP/1.1\r\n");
    for i in 0..65 {
        raw.push_str(&format!("X-{i}: v\r\n"));
    }
    raw.push_str("\r\n");
    assert_eq!(try_parse_request(&raw).unwrap_err(), RequestParseError::Malformed);
}
