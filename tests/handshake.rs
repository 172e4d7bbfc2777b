use ws_server::{accept_key, handshake_response, negotiate, parse_request, HandshakeError};

const REQUEST: &str = "GET /chat HTTP/1.1\r\nHost: server.example.com\r\nUpgrade: websocket\r\nConnection: Upgrade\r\nSec-WebSocket-Key: dGhlIHNhbXBsZSBub25jZQ==\r\nSec-WebSocket-Version: 13\r\n\r\n";

#[test]
fn accept_token_of_published_example() {
    assert_eq!(
        accept_key(b"dGhlIHNhbXBsZSBub25jZQ=="),
        b"s3pPLMBiTxaQ9kYGzzhZRbK+xOo=".to_vec()
    );
}

#[test]
fn parse_request_reads_fields() {
    let req = parse_request(REQUEST.as_bytes()).unwrap();
    assert_eq!(req.method, b"GET".to_vec());
    assert_eq!(req.upgrade, Some(b"websocket".to_vec()));
    assert_eq!(req.connection, Some(b"Upgrade".to_vec()));
    assert_eq!(req.version, Some(b"13".to_vec()));
    assert_eq!(req.key, b"dGhlIHNhbXBsZSBub25jZQ==".to_vec());
}

#[test]
fn header_names_ignore_case_and_values_are_trimmed() {
    let req = parse_request(b"GET / HTTP/1.1\nSEC-websocket-KEY:   abc \t\nupgrade:x\n\n").unwrap();
    assert_eq!(req.key, b"abc".to_vec());
    assert_eq!(req.upgrade, Some(b"x".to_vec()));
    assert_eq!(req.connection, None);
}

#[test]
fn last_repeated_header_wins() {
    let req = parse_request(b"GET / HTTP/1.1\r\nSec-WebSocket-Key: one\r\nSec-WebSocket-Key: two\r\n\r\n").unwrap();
    assert_eq!(req.key, b"two".to_vec());
}

#[test]
fn headers_after_empty_line_are_ignored() {
    let r = parse_request(b"GET / HTTP/1.1\r\nHost: a\r\n\r\nSec-WebSocket-Key: k\r\n");
    assert_eq!(r.unwrap_err(), HandshakeError::MissingKey);
}

#[test]
fn missing_key_is_refused() {
    assert_eq!(parse_request(b"").unwrap_err(), HandshakeError::MissingKey);
    assert_eq!(
        parse_request(b"GET / HTTP/1.1\r\nUpgrade: websocket\r\n\r\n").unwrap_err(),
        HandshakeError::MissingKey
    );
}

#[test]
fn header_without_colon_is_refused() {
    assert_eq!(
        parse_request(b"GET / HTTP/1.1\r\nnonsense\r\nSec-WebSocket-Key: k\r\n\r\n").unwrap_err(),
        HandshakeError::MalformedHeader
    );
}

#[test]
fn response_carries_token() {
    assert_eq!(
        handshake_response(b"TOKEN"),
        b"HTTP/1.1 101 OK\r\nUpgrade: websocket\r\nConnection: Upgrade\r\nSec-WebSocket-Accept: TOKEN\r\n\r\n".to_vec()
    );
}

#[test]
fn negotiate_full_exchange() {
    let resp = negotiate(REQUEST.as_bytes()).unwrap();
    assert_eq!(
        resp,
        b"HTTP/1.1 101 OK\r\nUpgrade: websocket\r\nConnection: Upgrade\r\nSec-WebSocket-Accept: s3pPLMBiTxaQ9kYGzzhZRbK+xOo=\r\n\r\n".to_vec()
    );
    assert_eq!(negotiate(b"GET / HTTP/1.1\r\n\r\n").unwrap_err(), HandshakeError::MissingKey);
}
