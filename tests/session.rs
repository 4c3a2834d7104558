use checker::alpn::{default_protocols, encode_alpn, negotiated_protocol};
use checker::http::{response_parser, HttpError, HTTP};
use checker::cert::TlsError;
use checker::tls::{handshake_failure, prepare_session, SessionConfig, TrustPolicy};

#[test]
fn alpn_wire_form() {
    let wire = encode_alpn(&default_protocols()).unwrap();
    assert_eq!(wire, b"\x02h2\x08http/1.1".to_vec());
    assert_eq!(encode_alpn(&vec![]).unwrap(), Vec::<u8>::new());
}

#[test]
fn alpn_name_too_long() {
    assert!(encode_alpn(&vec![vec![b'a'; 256]]).is_none());
    let w = encode_alpn(&vec![vec![b'a'; 255]]).unwrap();
    assert_eq!(w.len(), 256);
    assert_eq!(w[0], 255);
}

#[test]
fn negotiated_h2() {
    assert_eq!(negotiated_protocol(Some(b"h2")), "h2");
}

#[test]
fn negotiated_http11() {
    assert_eq!(negotiated_protocol(Some(b"http/1.1")), "http/1.1");
}

#[test]
fn negotiated_nothing() {
    assert_eq!(negotiated_protocol(None), "");
}

#[test]
fn negotiated_invalid_utf8_is_replaced() {
    assert_eq!(negotiated_protocol(Some(&[b'h', 0xff])), "h\u{fffd}");
}

#[test]
fn inspect_only_defaults() {
    let c = SessionConfig::inspect_only();
    assert_eq!(c.policy, TrustPolicy::InspectOnly);
    assert_eq!(c.protocols, vec![b"h2".to_vec(), b"http/1.1".to_vec()]);
}

#[test]
fn session_setup_succeeds() {
    assert!(prepare_session(&SessionConfig::inspect_only(), "example.com").is_ok());
    let verify = SessionConfig { policy: TrustPolicy::VerifyPeer, protocols: default_protocols() };
    assert!(prepare_session(&verify, "example.com").is_ok());
}

#[test]
fn session_setup_refuses_nul_host() {
    let r = prepare_session(&SessionConfig::inspect_only(), "exa\0mple.com");
    assert!(matches!(r, Err(TlsError::HandshakeError)));
}

#[test]
fn session_setup_refuses_long_protocol() {
    let c = SessionConfig { policy: TrustPolicy::InspectOnly, protocols: vec![vec![b'x'; 300]] };
    assert!(matches!(prepare_session(&c, "example.com"), Err(TlsError::HandshakeError)));
}

#[test]
fn handshake_failure_kinds() {
    assert_eq!(handshake_failure(true), TlsError::TransportError);
    assert_eq!(handshake_failure(false), TlsError::HandshakeError);
}

#[test]
fn http_request_text() {
    assert_eq!(
        HTTP::new("www.baidu.com", "/123.txt"),
        "GET /123.txt HTTP/1.1\r\nHost: www.baidu.com\r\nConnection: close\r\nAccept-Encoding: gzip,deflate\r\n\r\n"
    );
}

#[test]
fn http_response_headers() {
    let r = response_parser(b"HTTP/1.1 200 OK\r\nServer: nginx\r\nContent-Encoding: gzip\r\n\r\nbody").unwrap();
    assert_eq!(r.len(), 2);
    assert_eq!(r[0].name, "Server");
    assert_eq!(r[0].value, "nginx");
    assert_eq!(r[1].name, "Content-Encoding");
    assert_eq!(r[1].value, "gzip");
}

#[test]
fn http_partial_response() {
    assert!(response_parser(b"HTTP/1.1 200 OK\r\nServer: ng").unwrap().is_empty());
}

#[test]
fn http_malformed_response() {
    assert_eq!(response_parser(b"\x00\x01garbage\r\n\r\n").err(), Some(HttpError::Malformed));
}
