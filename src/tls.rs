use crate::alpn::{
    all_encodable, default_protocols, encode_alpn, h2, http11, lossy_utf8, negotiated_protocol,
    protocols_view, wire_of,
};
use crate::cert::{certificate_matches, decode_error, Certificate, TlsError};
use crate::url::chars_of;
use crate::x509::{cert_view, get_certificate_info};
use openssl::error::ErrorStack;
use openssl::ssl::{Ssl, SslContext, SslContextBuilder, SslMethod, SslRef, SslVerifyMode};
use openssl::x509::X509;
use vstd::prelude::*;

verus! {

#[verifier::external_type_specification]
#[verifier::external_body]
pub struct ExErrorStack(ErrorStack);

#[verifier::external_type_specification]
#[verifier::external_body]
pub struct ExSslContextBuilder(SslContextBuilder);

#[verifier::external_type_specification]
#[verifier::external_body]
pub struct ExSslContext(SslContext);

#[verifier::external_type_specification]
#[verifier::external_body]
pub struct ExSsl(Ssl);

#[verifier::external_type_specification]
#[verifier::external_body]
pub struct ExSslRef(SslRef);

/// Whether the peer's certificate is checked against a trust store.
#[derive(Clone, Copy, Debug, PartialEq, Eq, Structural)]
pub enum TrustPolicy {
    /// Report on the certificate without judging it: no verification.
    InspectOnly,
    /// Have OpenSSL verify the peer's certificate during the handshake.
    VerifyPeer,
}

/// How a client session is set up.
pub struct SessionConfig {
    pub policy: TrustPolicy,
    /// ALPN protocol names, in order of preference.
    pub protocols: Vec<Vec<u8>>,
}

/// What a completed handshake reveals about the peer.
pub struct Inspection {
    /// The protocol the server selected; empty when it selected none.
    pub alpn: String,
    pub certificate: Certificate,
}

impl SessionConfig {
    /// Inspection without verification, offering `h2` and then `http/1.1`.
    pub fn inspect_only() -> (r: SessionConfig)
        ensures
            r.policy == TrustPolicy::InspectOnly,
            protocols_view(r.protocols@) == seq![h2(), http11()],
    {
        SessionConfig { policy: TrustPolicy::InspectOnly, protocols: default_protocols() }
    }
}

/// Relies on `SslContext::builder` with `SslMethod::tls`.
#[verifier::external_body]
fn context_builder() -> (r: Result<SslContextBuilder, ErrorStack>) {
    SslContext::builder(SslMethod::tls())
}

/// Relies on `SslContextBuilder::set_verify`: `PEER` when `verify_peer` is set,
/// `NONE` otherwise.
#[verifier::external_body]
fn set_verify(b: &mut SslContextBuilder, verify_peer: bool) {
    b.set_verify(if verify_peer { SslVerifyMode::PEER } else { SslVerifyMode::NONE });
}

/// Relies on `SslContextBuilder::set_alpn_protos`, which asserts that the list
/// length fits in a C `unsigned int`.
#[verifier::external_body]
fn set_alpn_protos(b: &mut SslContextBuilder, wire: &[u8]) -> (r: Result<(), ErrorStack>)
    requires
        wire@.len() <= u32::MAX,
{
    b.set_alpn_protos(wire)
}

/// Relies on `SslContextBuilder::build`.
#[verifier::external_body]
fn build_context(b: SslContextBuilder) -> (r: SslContext) {
    b.build()
}

/// Relies on `Ssl::new`.
#[verifier::external_body]
fn new_session(ctx: &SslContext) -> (r: Result<Ssl, ErrorStack>) {
    Ssl::new(ctx)
}

/// Relies on `SslRef::set_hostname`, which panics on a name holding a NUL.
#[verifier::external_body]
fn set_hostname(ssl: &mut Ssl, host: &str) -> (r: Result<(), ErrorStack>)
    requires
        !host@.contains('\0'),
{
    ssl.set_hostname(host)
}

/// Relies on `SslRef::selected_alpn_protocol`: the protocol the server chose.
#[verifier::external_body]
fn selected_alpn(ssl: &SslRef) -> (r: Option<Vec<u8>>) {
    ssl.selected_alpn_protocol().map(|p| p.to_vec())
}

/// Relies on `SslRef::peer_certificate`: the peer's leaf certificate, if any.
#[verifier::external_body]
fn peer_certificate(ssl: &SslRef) -> (r: Option<X509>) {
    ssl.peer_certificate()
}

/// Whether `s` holds a NUL character.
fn holds_nul(s: &str) -> (r: bool)
    ensures
        r == s@.contains('\0'),
{
    let chars = chars_of(s);
    let mut i: usize = 0;
    while i < chars.len()
        invariant
            i <= chars@.len(),
            chars@ == s@,
            forall|k: int| 0 <= k < i ==> chars@[k] != '\0',
        decreases chars@.len() - i,
    {
        if chars[i] == '\0' {
            return true;
        }
        i = i + 1;
    }
    false
}

/// A client session for `host` set up as `config` says: its trust policy, its
/// ALPN list in wire form, and `host` as the server name. Fails with
/// `HandshakeError` when a protocol name is longer than 255 bytes, when `host`
/// holds a NUL, when the wire form is longer than `u32::MAX` bytes, or when
/// OpenSSL refuses the setup.
pub fn prepare_session(config: &SessionConfig, host: &str) -> (r: Result<Ssl, TlsError>)
    ensures
        !all_encodable(protocols_view(config.protocols@)) ==> r matches Err(
            TlsError::HandshakeError,
        ),
        host@.contains('\0') ==> r matches Err(TlsError::HandshakeError),
        wire_of(protocols_view(config.protocols@)).len() > u32::MAX ==> r matches Err(
            TlsError::HandshakeError,
        ),
        r matches Err(e) ==> e == TlsError::HandshakeError,
{
    let wire = match encode_alpn(&config.protocols) {
        Some(w) => w,
        None => {
            return Err(TlsError::HandshakeError);
        },
    };
    if holds_nul(host) || wire.len() > u32::MAX as usize {
        return Err(TlsError::HandshakeError);
    }
    let mut builder = match context_builder() {
        Ok(b) => b,
        Err(_) => {
            return Err(TlsError::HandshakeError);
        },
    };
    set_verify(&mut builder, config.policy == TrustPolicy::VerifyPeer);
    if set_alpn_protos(&mut builder, wire.as_slice()).is_err() {
        return Err(TlsError::HandshakeError);
    }
    let ctx = build_context(builder);
    let mut ssl = match new_session(&ctx) {
        Ok(s) => s,
        Err(_) => {
            return Err(TlsError::HandshakeError);
        },
    };
    if set_hostname(&mut ssl, host).is_err() {
        return Err(TlsError::HandshakeError);
    }
    Ok(ssl)
}

/// The kind of a failed handshake: a failure of the underlying stream, or one
/// of the TLS protocol.
pub fn handshake_failure(stream_failed: bool) -> (r: TlsError)
    ensures
        r == (if stream_failed {
            TlsError::TransportError
        } else {
            TlsError::HandshakeError
        }),
{
    if stream_failed {
        TlsError::TransportError
    } else {
        TlsError::HandshakeError
    }
}

/// What a completed handshake yields, given the protocol the server selected
/// and the certificate it presented. Without a certificate the inspection fails
/// with `PeerCertificateMissing`; with one, it succeeds exactly when the
/// certificate decodes, and the report is the decoding of that certificate for
/// `hostname` at `now`.
pub fn inspect_peer(selected: Option<Vec<u8>>, peer: Option<X509>, hostname: String, now: i64) -> (r:
    Result<Inspection, TlsError>)
    ensures
        peer is None ==> r matches Err(TlsError::PeerCertificateMissing),
        peer matches Some(c) ==> {
            &&& (r is Ok <==> decode_error(cert_view(c)) is None)
            &&& (r matches Err(e) ==> decode_error(cert_view(c)) == Some(e))
            &&& (r matches Ok(i) ==> certificate_matches(
                i.certificate,
                cert_view(c),
                hostname@,
                now as int,
            ))
        },
        r matches Ok(i) ==> {
            &&& selected is None ==> i.alpn@ == Seq::<char>::empty()
            &&& selected matches Some(b) ==> i.alpn@ == lossy_utf8(b@)
            &&& i.certificate.hostname@ == hostname@
        },
{
    let cert = match peer {
        Some(c) => c,
        None => {
            return Err(TlsError::PeerCertificateMissing);
        },
    };
    let alpn = match &selected {
        Some(b) => negotiated_protocol(Some(b.as_slice())),
        None => negotiated_protocol(None),
    };
    match get_certificate_info(&cert, hostname, now) {
        Ok(certificate) => Ok(Inspection { alpn, certificate }),
        Err(e) => Err(e),
    }
}

/// Reads the negotiated protocol and the peer's certificate from a session
/// whose handshake has completed, and reports on `hostname` at `now`.
pub fn finish_handshake(ssl: &SslRef, hostname: String, now: i64) -> (r: Result<
    Inspection,
    TlsError,
>)
    ensures
        r matches Err(e) ==> e == TlsError::PeerCertificateMissing || e is CertificateDecodeError,
        r matches Ok(i) ==> i.certificate.hostname@ == hostname@,
{
    let selected = selected_alpn(ssl);
    let peer = peer_certificate(ssl);
    inspect_peer(selected, peer, hostname, now)
}

} // verus!
