use checker::cert::TlsError;
use checker::tls::{finish_handshake, prepare_session, Inspection, SessionConfig};
use openssl::asn1::Asn1Time;
use openssl::bn::BigNum;
use openssl::ec::{EcGroup, EcKey};
use openssl::hash::MessageDigest;
use openssl::nid::Nid;
use openssl::pkey::{PKey, Private};
use openssl::ssl::{
    select_next_proto, AlpnError, HandshakeError, MidHandshakeSslStream, Ssl, SslContext,
    SslMethod, SslStream,
};
use openssl::x509::extension::SubjectAlternativeName;
use openssl::x509::{X509Builder, X509NameBuilder, X509};
use std::cell::RefCell;
use std::collections::VecDeque;
use std::io::{self, Read, Write};
use std::rc::Rc;
use std::time::{SystemTime, UNIX_EPOCH};

type Queue = Rc<RefCell<VecDeque<u8>>>;

/// One end of an in-memory byte pipe; reads would block while nothing is queued.
struct Pipe {
    inbound: Queue,
    outbound: Queue,
}

impl Read for Pipe {
    fn read(&mut self, buf: &mut [u8]) -> io::Result<usize> {
        let mut q = self.inbound.borrow_mut();
        if q.is_empty() {
            return Err(io::ErrorKind::WouldBlock.into());
        }
        let n = buf.len().min(q.len());
        for b in buf.iter_mut().take(n) {
            *b = q.pop_front().unwrap();
        }
        Ok(n)
    }
}

impl Write for Pipe {
    fn write(&mut self, buf: &[u8]) -> io::Result<usize> {
        self.outbound.borrow_mut().extend(buf.iter().copied());
        Ok(buf.len())
    }
    fn flush(&mut self) -> io::Result<()> {
        Ok(())
    }
}

fn now() -> i64 {
    SystemTime::now().duration_since(UNIX_EPOCH).unwrap().as_secs() as i64
}

fn server_identity(not_after: i64) -> (X509, PKey<Private>) {
    let group = EcGroup::from_curve_name(Nid::X9_62_PRIME256V1).unwrap();
    let key = PKey::from_ec_key(EcKey::generate(&group).unwrap()).unwrap();
    let mut name = X509NameBuilder::new().unwrap();
    name.append_entry_by_nid(Nid::COMMONNAME, "example.com").unwrap();
    let name = name.build();
    let mut b = X509Builder::new().unwrap();
    b.set_version(2).unwrap();
    b.set_serial_number(&BigNum::from_u32(7).unwrap().to_asn1_integer().unwrap()).unwrap();
    b.set_subject_name(&name).unwrap();
    b.set_issuer_name(&name).unwrap();
    b.set_pubkey(&key).unwrap();
    b.set_not_before(&Asn1Time::from_unix((now() - 86400) as _).unwrap()).unwrap();
    b.set_not_after(&Asn1Time::from_unix(not_after as _).unwrap()).unwrap();
    let san = SubjectAlternativeName::new()
        .dns("example.com")
        .dns("www.example.com")
        .build(&b.x509v3_context(None, None))
        .unwrap();
    b.append_extension(san).unwrap();
    b.sign(&key, MessageDigest::sha256()).unwrap();
    (b.build(), key)
}

fn server_session(offer: Option<&'static [u8]>, not_after: i64) -> Ssl {
    let (cert, key) = server_identity(not_after);
    let mut ctx = SslContext::builder(SslMethod::tls()).unwrap();
    ctx.set_certificate(&cert).unwrap();
    ctx.set_private_key(&key).unwrap();
    if let Some(server_protos) = offer {
        ctx.set_alpn_select_callback(move |_, client| {
            select_next_proto(server_protos, client).ok_or(AlpnError::NOACK)
        });
    }
    Ssl::new(&ctx.build()).unwrap()
}

fn pending<S>(r: Result<SslStream<S>, HandshakeError<S>>) -> Result<SslStream<S>, MidHandshakeSslStream<S>> {
    match r {
        Ok(s) => Ok(s),
        Err(HandshakeError::WouldBlock(mid)) => Err(mid),
        Err(_) => panic!("handshake failed"),
    }
}

/// Runs a handshake between the library's client session and an in-memory server.
fn handshake(offer: Option<&'static [u8]>, not_after: i64) -> Result<Inspection, TlsError> {
    let a: Queue = Rc::new(RefCell::new(VecDeque::new()));
    let b: Queue = Rc::new(RefCell::new(VecDeque::new()));
    let client_end = Pipe { inbound: a.clone(), outbound: b.clone() };
    let server_end = Pipe { inbound: b, outbound: a };
    let client = prepare_session(&SessionConfig::inspect_only(), "example.com").unwrap();
    let mut c = pending(client.connect(client_end));
    let mut s = pending(server_session(offer, not_after).accept(server_end));
    for _ in 0..20 {
        if let Err(mid) = s {
            s = pending(mid.handshake());
        }
        if let Err(mid) = c {
            c = pending(mid.handshake());
        }
        if c.is_ok() && s.is_ok() {
            break;
        }
    }
    let stream = c.ok().expect("client handshake incomplete");
    finish_handshake(stream.ssl(), "example.com".to_string(), now())
}

#[test]
fn handshake_alpn_prefers_h2() {
    let i = handshake(Some(b"\x02h2\x08http/1.1"), now() + 30 * 86400).unwrap();
    assert_eq!(i.alpn, "h2");
}

#[test]
fn handshake_alpn_http11_only() {
    let i = handshake(Some(b"\x08http/1.1"), now() + 30 * 86400).unwrap();
    assert_eq!(i.alpn, "http/1.1");
}

#[test]
fn handshake_alpn_none() {
    let i = handshake(None, now() + 30 * 86400).unwrap();
    assert_eq!(i.alpn, "");
}

#[test]
fn handshake_reports_certificate() {
    let i = handshake(Some(b"\x02h2"), now() + 30 * 86400).unwrap();
    let c = i.certificate;
    assert_eq!(c.hostname, "example.com");
    assert_eq!(c.subject.common_name, "example.com");
    assert!((29..=31).contains(&c.valid_day_to_expire));
    assert!(!c.is_expired);
    assert_eq!(c.cert_sn, "7");
    assert_eq!(c.sans, vec!["example.com".to_string(), "www.example.com".to_string()]);
}

#[test]
fn handshake_with_expired_certificate() {
    let i = handshake(None, now() - 3 * 86400).unwrap();
    assert!(i.certificate.is_expired);
    assert!(i.certificate.valid_day_to_expire < 0);
}
