use awsv4_http::head::HeadError;
use awsv4_http::client::{
    plan_connection, resolve_endpoint, response_version, ConnectError, Endpoint, HttpVersion,
    ReadError, ReadStep, ResponseReader, UriParts, RESPONSE_BUFFER_LEN,
};

#[test]
fn https_defaults_to_port_443() {
    let e = plan_connection("https://httpbin.org").unwrap();
    assert_eq!(e, Endpoint { tls: true, host: "httpbin.org".to_string(), port: 443 });
}

#[test]
fn http_defaults_to_port_80() {
    let e = plan_connection("http://httpbin.org/ip").unwrap();
    assert_eq!(e, Endpoint { tls: false, host: "httpbin.org".to_string(), port: 80 });
}

#[test]
fn explicit_port_is_kept() {
    let e = plan_connection("http://example.com:8080/x").unwrap();
    assert_eq!(e, Endpoint { tls: false, host: "example.com".to_string(), port: 8080 });
    let e = plan_connection("https://example.com:8443").unwrap();
    assert_eq!(e.port, 8443);
}

#[test]
fn other_schemes_are_refused() {
    assert_eq!(
        plan_connection("ftp://example.com/file").unwrap_err(),
        ConnectError::UnsupportedScheme(Some("ftp".to_string()))
    );
    assert_eq!(plan_connection("example.com:80").unwrap_err(), ConnectError::UnsupportedScheme(None));
}

#[test]
fn host_is_required() {
    assert_eq!(plan_connection("/only/a/path").unwrap_err(), ConnectError::MissingHost);
}

#[test]
fn unparsable_uri_is_refused() {
    assert_eq!(plan_connection("").unwrap_err(), ConnectError::InvalidUri);
    assert_eq!(plan_connection("http://exa mple.com").unwrap_err(), ConnectError::InvalidUri);
}

#[test]
fn resolve_checks_host_before_scheme() {
    let parts = UriParts { scheme: Some("gopher".to_string()), host: None, port: None };
    assert_eq!(resolve_endpoint(parts).unwrap_err(), ConnectError::MissingHost);
    let parts = UriParts { scheme: Some("https".to_string()), host: Some("h".to_string()), port: Some(1) };
    assert_eq!(resolve_endpoint(parts).unwrap(), Endpoint { tls: true, host: "h".to_string(), port: 1 });
}

#[test]
fn versions_map_to_http_1() {
    assert_eq!(response_version(0), HttpVersion::Http10);
    assert_eq!(response_version(1), HttpVersion::Http11);
    assert_eq!(response_version(7), HttpVersion::Http11);
}

#[test]
fn head_completes_over_two_chunks() {
    let mut reader = ResponseReader::new();
    assert_eq!(reader.remaining(), RESPONSE_BUFFER_LEN);
    assert!(matches!(reader.receive(b"HTTP/1.1 200 OK\r\nContent-"), ReadStep::NeedMore));
    assert_eq!(reader.filled(), 25);
    match reader.receive(b"Length: 2\r\nX-A: b\r\n\r\nhi") {
        ReadStep::Complete(head) => {
            assert_eq!(head.code, Some(200));
            assert_eq!(head.version, Some(1));
            assert_eq!(
                head.headers,
                vec![("Content-Length".to_string(), b"2".to_vec()), ("X-A".to_string(), b"b".to_vec())]
            );
            assert_eq!(head.body_start, 46);
        }
        other => panic!("unexpected step {other:?}"),
    }
    let buffer = reader.into_buffer();
    assert_eq!(buffer.len(), RESPONSE_BUFFER_LEN);
    assert_eq!(&buffer[..48], b"HTTP/1.1 200 OK\r\nContent-Length: 2\r\nX-A: b\r\n\r\nhi");
    assert!(buffer[48..].iter().all(|b| *b == 0));
}

#[test]
fn empty_chunk_means_closed() {
    let mut reader = ResponseReader::new();
    assert!(matches!(reader.receive(b"HTTP/1.0 "), ReadStep::NeedMore));
    assert!(matches!(reader.receive(b""), ReadStep::Failed(ReadError::ConnectionClosed)));
    assert_eq!(reader.filled(), 9);
}

#[test]
fn garbage_is_malformed() {
    let mut reader = ResponseReader::new();
    match reader.receive(b"HTTP/1.1 2x0 OK\r\n\r\n") {
        ReadStep::Failed(ReadError::Malformed(kind)) => assert_eq!(kind, HeadError::Status),
        other => panic!("unexpected step {other:?}"),
    }
}

#[test]
fn full_buffer_without_head_is_too_large() {
    let mut reader = ResponseReader::new();
    let mut first = b"HTTP/1.1 200 OK\r\nX-Long: ".to_vec();
    first.resize(RESPONSE_BUFFER_LEN - 1, b'a');
    assert!(matches!(reader.receive(&first), ReadStep::NeedMore));
    assert_eq!(reader.remaining(), 1);
    assert!(matches!(reader.receive(b"a"), ReadStep::Failed(ReadError::TooLarge)));
}

#[test]
fn head_that_fills_the_buffer_exactly_completes() {
    let mut reader = ResponseReader::new();
    let mut bytes = b"HTTP/1.1 204 No Content\r\nX-Pad: ".to_vec();
    bytes.resize(RESPONSE_BUFFER_LEN - 4, b'p');
    bytes.extend_from_slice(b"\r\n\r\n");
    match reader.receive(&bytes) {
        ReadStep::Complete(head) => {
            assert_eq!(head.code, Some(204));
            assert_eq!(head.body_start, RESPONSE_BUFFER_LEN);
        }
        other => panic!("unexpected step {other:?}"),
    }
}

#[test]
fn malformed_kinds_follow_httparse() {
    let cases: [(&[u8], HeadError); 3] = [
        (b"HTTP/2.0 200 OK\r\n\r\n", HeadError::Version),
        (b"HTTP/1.1 200 OK\r\nBad Name: x\r\n\r\n", HeadError::HeaderName),
        (b"HTTP/1.1 200 OK\r\nX: \x01\r\n\r\n", HeadError::HeaderValue),
    ];
    for (bytes, kind) in cases {
        let mut reader = ResponseReader::new();
        match reader.receive(bytes) {
            ReadStep::Failed(ReadError::Malformed(k)) => assert_eq!(k, kind),
            other => panic!("unexpected step {other:?}"),
        }
    }
}

#[test]
fn too_many_headers_is_malformed() {
    let mut bytes = b"HTTP/1.1 200 OK\r\n".to_vec();
    for i in 0..65 {
        bytes.extend_from_slice(format!("X-{i}: v\r\n").as_bytes());
    }
    bytes.extend_from_slice(b"\r\n");
    let mut reader = ResponseReader::new();
    match reader.receive(&bytes) {
        ReadStep::Failed(ReadError::Malformed(k)) => assert_eq!(k, HeadError::TooManyHeaders),
        other => panic!("unexpected step {other:?}"),
    }
}
