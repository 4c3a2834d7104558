use checker::cert::TlsError;
use checker::tls::inspect_peer;
use checker::x509::{
    get_certificate_info, NID_COMMON_NAME, NID_COUNTRY_NAME, NID_LOCALITY_NAME,
    NID_ORGANIZATIONAL_UNIT_NAME, NID_ORGANIZATION_NAME, NID_STATE_OR_PROVINCE_NAME,
};
use openssl::asn1::Asn1Time;
use openssl::bn::BigNum;
use openssl::ec::{EcGroup, EcKey};
use openssl::hash::MessageDigest;
use openssl::nid::Nid;
use openssl::pkey::PKey;
use openssl::x509::extension::SubjectAlternativeName;
use openssl::x509::{X509Builder, X509NameBuilder, X509};
use std::time::{SystemTime, UNIX_EPOCH};

fn now() -> i64 {
    SystemTime::now().duration_since(UNIX_EPOCH).unwrap().as_secs() as i64
}

fn make_cert(not_before: i64, not_after: i64, dns: &[&str], with_ip: bool) -> X509 {
    let group = EcGroup::from_curve_name(Nid::X9_62_PRIME256V1).unwrap();
    let key = PKey::from_ec_key(EcKey::generate(&group).unwrap()).unwrap();
    let mut name = X509NameBuilder::new().unwrap();
    name.append_entry_by_nid(Nid::COMMONNAME, "example.com").unwrap();
    name.append_entry_by_nid(Nid::ORGANIZATIONNAME, "Example Org").unwrap();
    name.append_entry_by_nid(Nid::COMMONNAME, "second.example.com").unwrap();
    let name = name.build();
    let mut issuer = X509NameBuilder::new().unwrap();
    issuer.append_entry_by_nid(Nid::COUNTRYNAME, "US").unwrap();
    issuer.append_entry_by_nid(Nid::COMMONNAME, "Test CA").unwrap();
    let issuer = issuer.build();
    let mut b = X509Builder::new().unwrap();
    b.set_version(2).unwrap();
    let serial = BigNum::from_u32(0x1234).unwrap().to_asn1_integer().unwrap();
    b.set_serial_number(&serial).unwrap();
    b.set_subject_name(&name).unwrap();
    b.set_issuer_name(&issuer).unwrap();
    b.set_pubkey(&key).unwrap();
    b.set_not_before(&Asn1Time::from_unix(not_before as _).unwrap()).unwrap();
    b.set_not_after(&Asn1Time::from_unix(not_after as _).unwrap()).unwrap();
    if !dns.is_empty() || with_ip {
        let mut san = SubjectAlternativeName::new();
        for d in dns {
            san.dns(d);
        }
        if with_ip {
            san.ip("127.0.0.1");
        }
        let ext = san.build(&b.x509v3_context(None, None)).unwrap();
        b.append_extension(ext).unwrap();
    }
    b.sign(&key, MessageDigest::sha256()).unwrap();
    b.build()
}

#[test]
fn nid_constants_match_openssl() {
    assert_eq!(NID_COMMON_NAME, Nid::COMMONNAME.as_raw());
    assert_eq!(NID_COUNTRY_NAME, Nid::COUNTRYNAME.as_raw());
    assert_eq!(NID_LOCALITY_NAME, Nid::LOCALITYNAME.as_raw());
    assert_eq!(NID_STATE_OR_PROVINCE_NAME, Nid::STATEORPROVINCENAME.as_raw());
    assert_eq!(NID_ORGANIZATION_NAME, Nid::ORGANIZATIONNAME.as_raw());
    assert_eq!(NID_ORGANIZATIONAL_UNIT_NAME, Nid::ORGANIZATIONALUNITNAME.as_raw());
}

#[test]
fn certificate_thirty_days_from_now() {
    let t = now();
    let cert = make_cert(t - 86400, t + 30 * 86400, &["example.com", "www.example.com"], false);
    let c = get_certificate_info(&cert, "example.com".to_string(), now()).unwrap();
    assert!((29..=31).contains(&c.valid_day_to_expire));
    assert!(!c.is_expired);
    assert_eq!(c.hostname, "example.com");
}

#[test]
fn certificate_in_the_past() {
    let t = now();
    let cert = make_cert(t - 10 * 86400, t - 2 * 86400, &[], false);
    let c = get_certificate_info(&cert, "old.example".to_string(), now()).unwrap();
    assert!(c.is_expired);
    assert!(c.valid_day_to_expire < 0);
    assert!(c.sans.is_empty());
}

#[test]
fn certificate_expiring_this_second() {
    let t = now();
    let cert = make_cert(t - 86400, t, &[], false);
    let c = get_certificate_info(&cert, "h".to_string(), t).unwrap();
    assert!(c.is_expired);
    assert_eq!(c.valid_day_to_expire, 0);
    let c = get_certificate_info(&cert, "h".to_string(), t - 1).unwrap();
    assert!(!c.is_expired);
    assert_eq!(c.valid_day_to_expire, 0);
}

#[test]
fn certificate_sans_round_trip() {
    let t = now();
    let cert = make_cert(t - 86400, t + 86400 * 5, &["example.com", "www.example.com"], true);
    let first = get_certificate_info(&cert, "example.com".to_string(), t).unwrap();
    let second = get_certificate_info(&cert, "example.com".to_string(), t).unwrap();
    let expected = vec!["example.com".to_string(), "www.example.com".to_string()];
    assert_eq!(first.sans, expected);
    assert_eq!(second.sans, expected);
}

#[test]
fn certificate_fields() {
    let t = 1_700_000_000i64;
    let cert = make_cert(t - 86400, t + 86400 * 5, &["example.com"], false);
    let c = get_certificate_info(&cert, "example.com".to_string(), t).unwrap();
    assert_eq!(c.subject.common_name, "example.com");
    assert_eq!(c.subject.organization, "Example Org");
    assert_eq!(c.subject.country_or_region, "None");
    assert_eq!(c.subject.locality, "None");
    assert_eq!(c.issued.common_name, "Test CA");
    assert_eq!(c.issued.country_or_region, "US");
    assert_eq!(c.issued.organization, "None");
    assert_eq!(c.valid_from, "Nov 13 22:13:20 2023 GMT");
    assert_eq!(c.valid_to, "Nov 19 22:13:20 2023 GMT");
    assert_eq!(c.valid_day_to_expire, 5);
    assert_eq!(c.cert_sn, "4660");
    assert_eq!(c.cert_ver, 2);
    assert_eq!(c.cert_alg, "ecdsa-with-SHA256");
}

#[test]
fn peer_without_certificate() {
    let r = inspect_peer(Some(b"h2".to_vec()), None, "example.com".to_string(), now());
    assert!(matches!(r, Err(TlsError::PeerCertificateMissing)));
}

#[test]
fn peer_with_certificate() {
    let t = now();
    let cert = make_cert(t - 86400, t + 86400, &["example.com"], false);
    let i = inspect_peer(Some(b"h2".to_vec()), Some(cert), "example.com".to_string(), t).unwrap();
    assert_eq!(i.alpn, "h2");
    assert_eq!(i.certificate.hostname, "example.com");
    assert_eq!(i.certificate.sans, vec!["example.com".to_string()]);
}

#[test]
fn peer_certificate_decodes_in_full() {
    let t = 1_700_000_000i64;
    let cert = make_cert(t - 86400, t - 3 * 86400 - 5, &["example.com"], true);
    let i = inspect_peer(None, Some(cert), "host.example".to_string(), t).unwrap();
    assert_eq!(i.alpn, "");
    assert_eq!(i.certificate.hostname, "host.example");
    assert_eq!(i.certificate.issued.common_name, "Test CA");
    assert!(i.certificate.is_expired);
    assert_eq!(i.certificate.valid_day_to_expire, -4);
    assert_eq!(i.certificate.sans, vec!["example.com".to_string()]);
}
