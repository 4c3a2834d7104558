use crate::cert::{
    certificate_matches, classify_sans, decode_certificate, decode_error, entries_view, opt_text,
    san_class, san_fields_view, Certificate, NameAttributes, NameView, RawCertificate, RawView,
    SanFields, TlsError,
};
use openssl::asn1::Asn1Time;
use openssl::nid::Nid;
use openssl::x509::X509;
use vstd::prelude::*;

verus! {
#[verifier::external_type_specification]
#[verifier::external_body]
pub struct ExX509(X509);

/// OpenSSL's numeric identifiers of the distinguished-name attributes.
pub const NID_COMMON_NAME: i32 = 13;

pub const NID_COUNTRY_NAME: i32 = 14;

pub const NID_LOCALITY_NAME: i32 = 15;

pub const NID_STATE_OR_PROVINCE_NAME: i32 = 16;

pub const NID_ORGANIZATION_NAME: i32 = 17;

pub const NID_ORGANIZATIONAL_UNIT_NAME: i32 = 18;

/// The subject's entries of the attribute `nid`, in order, as text.
pub uninterp spec fn subject_entries_of(cert: X509, nid: i32) -> Seq<Option<Seq<char>>>;

/// The issuer's entries of the attribute `nid`, in order, as text.
pub uninterp spec fn issuer_entries_of(cert: X509, nid: i32) -> Seq<Option<Seq<char>>>;

/// The not-before instant as OpenSSL displays it.
pub uninterp spec fn not_before_of(cert: X509) -> Seq<char>;

/// The not-after instant as OpenSSL displays it.
pub uninterp spec fn not_after_of(cert: X509) -> Seq<char>;

/// Days and seconds from the Unix epoch to the not-after instant.
pub uninterp spec fn since_epoch_of(cert: X509) -> Option<(i32, i32)>;

/// The serial number in decimal.
pub uninterp spec fn serial_of(cert: X509) -> Option<Seq<char>>;

/// The declared version number.
pub uninterp spec fn version_of(cert: X509) -> i32;

/// The signature algorithm's name.
pub uninterp spec fn signature_algorithm_of(cert: X509) -> Seq<char>;

/// What the accessors read of each SAN entry, in order.
pub uninterp spec fn san_fields_of(cert: X509) -> Seq<(Option<Seq<char>>, bool, bool, bool, bool)>;

/// Relies on `X509Ref::subject_name`, `X509NameRef::entries_by_nid` and
/// `Asn1StringRef::to_string`: the subject's entries of one attribute, in order,
/// each as text or `None` when it cannot be converted.
#[verifier::external_body]
fn subject_entries(cert: &X509, nid: i32) -> (r: Vec<Option<String>>)
    ensures
        entries_view(r@) == subject_entries_of(*cert, nid),
{
    let mut out = Vec::new();
    for e in cert.subject_name().entries_by_nid(Nid::from_raw(nid)) {
        out.push(e.data().to_string().ok());
    }
    out
}

/// Relies on `X509Ref::issuer_name`, `X509NameRef::entries_by_nid` and
/// `Asn1StringRef::to_string`: the issuer's entries of one attribute, in order,
/// each as text or `None` when it cannot be converted.
#[verifier::external_body]
fn issuer_entries(cert: &X509, nid: i32) -> (r: Vec<Option<String>>)
    ensures
        entries_view(r@) == issuer_entries_of(*cert, nid),
{
    let mut out = Vec::new();
    for e in cert.issuer_name().entries_by_nid(Nid::from_raw(nid)) {
        out.push(e.data().to_string().ok());
    }
    out
}

/// Relies on `X509Ref::not_before` and the `Display` of `Asn1TimeRef`.
#[verifier::external_body]
fn not_before_text(cert: &X509) -> (r: String)
    ensures
        r@ == not_before_of(*cert),
{
    cert.not_before().to_string()
}

/// Relies on `X509Ref::not_after` and the `Display` of `Asn1TimeRef`.
#[verifier::external_body]
fn not_after_text(cert: &X509) -> (r: String)
    ensures
        r@ == not_after_of(*cert),
{
    cert.not_after().to_string()
}

/// Relies on `Asn1Time::from_unix` and `Asn1TimeRef::diff`: the days and seconds
/// from the Unix epoch to the not-after instant, `None` when OpenSSL fails.
#[verifier::external_body]
fn not_after_since_epoch(cert: &X509) -> (r: Option<(i32, i32)>)
    ensures
        r == since_epoch_of(*cert),
{
    let epoch = Asn1Time::from_unix(0).ok()?;
    epoch.diff(cert.not_after()).ok().map(|d| (d.days, d.secs))
}

/// Relies on `X509Ref::serial_number`, `Asn1IntegerRef::to_bn` and
/// `BigNumRef::to_dec_str`: the serial number in decimal.
#[verifier::external_body]
fn serial_decimal(cert: &X509) -> (r: Option<String>)
    ensures
        opt_text(r) == serial_of(*cert),
{
    let bn = cert.serial_number().to_bn().ok()?;
    bn.to_dec_str().ok().map(|s| s.to_string())
}

/// Relies on `X509Ref::version`.
#[verifier::external_body]
fn cert_version(cert: &X509) -> (r: i32)
    ensures
        r == version_of(*cert),
{
    cert.version()
}

/// Relies on `X509Ref::signature_algorithm` and the `Display` of `Asn1ObjectRef`.
#[verifier::external_body]
fn signature_algorithm_name(cert: &X509) -> (r: String)
    ensures
        r@ == signature_algorithm_of(*cert),
{
    cert.signature_algorithm().object().to_string()
}

/// Relies on `X509Ref::subject_alt_names` and the accessors `dnsname`, `email`,
/// `uri`, `ipaddress` and `directory_name` of `GeneralNameRef`: what each reads
/// of each entry, in order; no entries when the extension is absent.
#[verifier::external_body]
fn san_fields(cert: &X509) -> (r: Vec<SanFields>)
    ensures
        san_fields_view(r@) == san_fields_of(*cert),
{
    let mut out = Vec::new();
    for g in cert.subject_alt_names().iter().flatten() {
        out.push(SanFields {
            dns: g.dnsname().map(|d| d.to_string()),
            email: g.email().is_some(),
            uri: g.uri().is_some(),
            ip: g.ipaddress().is_some(),
            directory: g.directory_name().is_some(),
        });
    }
    out
}

/// The subject name of a certificate, as text.
pub open spec fn subject_view(cert: X509) -> NameView {
    NameView {
        country_or_region: subject_entries_of(cert, NID_COUNTRY_NAME),
        state_or_province: subject_entries_of(cert, NID_STATE_OR_PROVINCE_NAME),
        locality: subject_entries_of(cert, NID_LOCALITY_NAME),
        organization_unit: subject_entries_of(cert, NID_ORGANIZATIONAL_UNIT_NAME),
        organization: subject_entries_of(cert, NID_ORGANIZATION_NAME),
        common_name: subject_entries_of(cert, NID_COMMON_NAME),
    }
}

/// The issuer name of a certificate, as text.
pub open spec fn issuer_view(cert: X509) -> NameView {
    NameView {
        country_or_region: issuer_entries_of(cert, NID_COUNTRY_NAME),
        state_or_province: issuer_entries_of(cert, NID_STATE_OR_PROVINCE_NAME),
        locality: issuer_entries_of(cert, NID_LOCALITY_NAME),
        organization_unit: issuer_entries_of(cert, NID_ORGANIZATIONAL_UNIT_NAME),
        organization: issuer_entries_of(cert, NID_ORGANIZATION_NAME),
        common_name: issuer_entries_of(cert, NID_COMMON_NAME),
    }
}

/// Everything the report is built from, as read from `cert`.
pub open spec fn cert_view(cert: X509) -> RawView {
    RawView {
        subject: subject_view(cert),
        issuer: issuer_view(cert),
        not_before: not_before_of(cert),
        not_after: not_after_of(cert),
        not_after_unix: match since_epoch_of(cert) {
            Some(d) => Some((d.0 as int * 86400 + d.1 as int) as i64),
            None => None,
        },
        serial: serial_of(cert),
        version: version_of(cert),
        signature_algorithm: signature_algorithm_of(cert),
        sans: san_fields_of(cert).map_values(
            |f: (Option<Seq<char>>, bool, bool, bool, bool)| san_class(f),
        ),
    }
}

/// Seconds since the Unix epoch of an instant given in days and seconds.
pub fn instant_of(days: i32, secs: i32) -> (r: i64)
    ensures
        r as int == days as int * 86400 + secs as int,
{
    days as i64 * 86400 + secs as i64
}

/// Reads the fields that the report needs from a certificate.
pub fn read_certificate(cert: &X509) -> (r: RawCertificate)
    ensures
        r@ == cert_view(*cert),
{
    let subject = NameAttributes {
        country_or_region: subject_entries(cert, NID_COUNTRY_NAME),
        state_or_province: subject_entries(cert, NID_STATE_OR_PROVINCE_NAME),
        locality: subject_entries(cert, NID_LOCALITY_NAME),
        organization_unit: subject_entries(cert, NID_ORGANIZATIONAL_UNIT_NAME),
        organization: subject_entries(cert, NID_ORGANIZATION_NAME),
        common_name: subject_entries(cert, NID_COMMON_NAME),
    };
    let issuer = NameAttributes {
        country_or_region: issuer_entries(cert, NID_COUNTRY_NAME),
        state_or_province: issuer_entries(cert, NID_STATE_OR_PROVINCE_NAME),
        locality: issuer_entries(cert, NID_LOCALITY_NAME),
        organization_unit: issuer_entries(cert, NID_ORGANIZATIONAL_UNIT_NAME),
        organization: issuer_entries(cert, NID_ORGANIZATION_NAME),
        common_name: issuer_entries(cert, NID_COMMON_NAME),
    };
    let not_after_unix = match not_after_since_epoch(cert) {
        Some((days, secs)) => Some(instant_of(days, secs)),
        None => None,
    };
    let fields = san_fields(cert);
    let r = RawCertificate {
        subject,
        issuer,
        not_before: not_before_text(cert),
        not_after: not_after_text(cert),
        not_after_unix,
        serial: serial_decimal(cert),
        version: cert_version(cert),
        signature_algorithm: signature_algorithm_name(cert),
        sans: classify_sans(&fields),
    };
    assert(r@.subject == subject_view(*cert));
    assert(r@.issuer == issuer_view(*cert));
    r
}

/// The report on `hostname` from its certificate, at the instant `now` in
/// seconds since the Unix epoch: the decoding of what is read from `cert`.
pub fn get_certificate_info(cert: &X509, hostname: String, now: i64) -> (r: Result<
    Certificate,
    TlsError,
>)
    ensures
        r is Ok <==> decode_error(cert_view(*cert)) is None,
        r matches Err(e) ==> decode_error(cert_view(*cert)) == Some(e),
        r matches Ok(c) ==> certificate_matches(c, cert_view(*cert), hostname@, now as int),
{
    let raw = read_certificate(cert);
    decode_certificate(raw, hostname, now)
}

} // verus!
