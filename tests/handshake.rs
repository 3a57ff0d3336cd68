use ws_echo::handshake::{
    accept_value, find_header, handshake_response, respond_to, switching_protocols_response,
    HandshakeError, HandshakeResult, HttpHeader, HttpRequest,
};

const UPGRADE_OK: &str = "HTTP/1.1 101 Switching Protocols\r\nUpgrade: websocket\r\nConnection: Upgrade\r\nSec-WebSocket-Accept: s3pPLMBiTxaQ9kYGzzhZRbK+xOo=\r\n\r\n";

#[test]
fn test_accept_value() {
    assert_eq!(
        accept_value(b"dGhlIHNhbXBsZSBub25jZQ=="),
        "s3pPLMBiTxaQ9kYGzzhZRbK+xOo="
    );
}

#[test]
fn accept_value_of_empty_key() {
    // Base64 of SHA-1 over the protocol constant alone.
    let v = accept_value(b"");
    assert_eq!(v.len(), 28);
    assert_ne!(v, accept_value(b"dGhlIHNhbXBsZSBub25jZQ=="));
}

#[test]
fn handshake_accepts_upgrade_request() {
    let req = b"GET /chat HTTP/1.1\r\nHost: example.com\r\nUpgrade: websocket\r\nConnection: Upgrade\r\nSec-WebSocket-Key: dGhlIHNhbXBsZSBub25jZQ==\r\nSec-WebSocket-Version: 13\r\n\r\n";
    match handshake_response(req) {
        Ok(HandshakeResult::Accepted(s)) => assert_eq!(s, UPGRADE_OK),
        _ => panic!("expected an accepted handshake"),
    }
}

#[test]
fn handshake_rejects_other_method() {
    let req = b"POST /chat HTTP/1.1\r\nHost: example.com\r\nSec-WebSocket-Key: dGhlIHNhbXBsZSBub25jZQ==\r\n\r\n";
    let r = handshake_response(req).unwrap();
    assert!(r.is_rejected());
    assert_eq!(r.response(), "HTTP/1.1 400 Bad Request\r\n\r\n");
}

#[test]
fn handshake_rejects_missing_key() {
    let req = b"GET /chat HTTP/1.1\r\nHost: example.com\r\nUpgrade: websocket\r\n\r\n";
    match handshake_response(req) {
        Ok(HandshakeResult::Rejected(s)) => assert_eq!(s, "HTTP/1.1 400 Bad Request\r\n\r\n"),
        _ => panic!("expected a rejected handshake"),
    }
}

#[test]
fn handshake_key_name_is_case_sensitive() {
    let req = b"GET / HTTP/1.1\r\nsec-websocket-key: dGhlIHNhbXBsZSBub25jZQ==\r\n\r\n";
    let r = handshake_response(req).unwrap();
    assert!(r.is_rejected());
}

#[test]
fn handshake_malformed_request() {
    let req = b"GET / HTTP/1.1\r\nBad Header Line\r\n\r\n";
    assert_eq!(handshake_response(req).err(), Some(HandshakeError::MalformedHttpRequest));
    assert_eq!(
        handshake_response(b"\x01\x02 nonsense\r\n\r\n").err(),
        Some(HandshakeError::MalformedHttpRequest)
    );
}

fn header(name: &str, value: &[u8]) -> HttpHeader {
    HttpHeader { name: name.to_string(), value: value.to_vec() }
}

#[test]
fn respond_to_parsed_request() {
    let req = HttpRequest {
        method: Some("GET".to_string()),
        headers: vec![header("Host", b"x"), header("Sec-WebSocket-Key", b"dGhlIHNhbXBsZSBub25jZQ==")],
    };
    assert_eq!(respond_to(&req).response(), UPGRADE_OK);
    assert!(!respond_to(&req).is_rejected());

    let no_method = HttpRequest { method: None, headers: req.headers };
    assert!(respond_to(&no_method).is_rejected());
}

#[test]
fn respond_to_uses_first_key_header() {
    let req = HttpRequest {
        method: Some("GET".to_string()),
        headers: vec![
            header("Sec-WebSocket-Key", b"dGhlIHNhbXBsZSBub25jZQ=="),
            header("Sec-WebSocket-Key", b"other"),
        ],
    };
    assert_eq!(respond_to(&req).response(), UPGRADE_OK);
}

#[test]
fn find_header_first_match() {
    let headers = vec![header("A", b"1"), header("B", b"2"), header("A", b"3")];
    assert_eq!(find_header(&headers, &"A".to_string()), Some(&b"1".to_vec()));
    assert_eq!(find_header(&headers, &"B".to_string()), Some(&b"2".to_vec()));
    assert_eq!(find_header(&headers, &"a".to_string()), None);
    assert_eq!(find_header(&Vec::new(), &"A".to_string()), None);
}

#[test]
fn switching_protocols_text() {
    assert_eq!(switching_protocols_response("s3pPLMBiTxaQ9kYGzzhZRbK+xOo="), UPGRADE_OK);
}
