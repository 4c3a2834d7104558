use vstd::prelude::*;
use vstd::string::*;

verus! {

/// A certificate field that decoding can fail on.
#[derive(Clone, Copy, Debug, PartialEq, Eq, Structural)]
pub enum CertField {
    SubjectCountryOrRegion,
    SubjectStateOrProvince,
    SubjectLocality,
    SubjectOrganizationUnit,
    SubjectOrganization,
    SubjectCommonName,
    IssuerCountryOrRegion,
    IssuerOrganization,
    IssuerCommonName,
    IssuerOrganizationUnit,
    NotAfter,
    SerialNumber,
    SubjectAltName,
}

/// The ways an inspection of a peer can fail.
#[derive(Clone, Copy, Debug, PartialEq, Eq, Structural)]
pub enum TlsError {
    /// The underlying stream failed during the handshake.
    TransportError,
    /// The TLS protocol failed: negotiation, record validation or session setup.
    HandshakeError,
    /// The handshake completed but the peer presented no certificate.
    PeerCertificateMissing,
    /// A certificate field could not be decoded to its expected form.
    CertificateDecodeError(CertField),
}

/// The entries of a distinguished name, per recognised attribute, in the order
/// the certificate lists them. An entry is `None` when its value cannot be
/// decoded as text.
pub struct NameAttributes {
    pub country_or_region: Vec<Option<String>>,
    pub state_or_province: Vec<Option<String>>,
    pub locality: Vec<Option<String>>,
    pub organization_unit: Vec<Option<String>>,
    pub organization: Vec<Option<String>>,
    pub common_name: Vec<Option<String>>,
}

/// One entry of the Subject Alternative Name extension.
pub enum SanEntry {
    /// A DNS name.
    Dns(String),
    /// An entry of another kind: IP address, email, URI, directory name.
    Other,
    /// An entry that could be read neither as a DNS name nor as another known kind.
    Undecodable,
}

/// What the decoder reads from a certificate, as plain values.
pub struct RawCertificate {
    pub subject: NameAttributes,
    pub issuer: NameAttributes,
    pub not_before: String,
    pub not_after: String,
    /// The not-after instant in seconds since the Unix epoch, if it could be computed.
    pub not_after_unix: Option<i64>,
    /// The serial number in decimal, if it could be converted.
    pub serial: Option<String>,
    pub version: i32,
    pub signature_algorithm: String,
    pub sans: Vec<SanEntry>,
}

/// The text of each entry of an attribute; `None` where it cannot be decoded.
pub open spec fn entries_view(v: Seq<Option<String>>) -> Seq<Option<Seq<char>>> {
    v.map_values(|o: Option<String>| opt_text(o))
}

/// A distinguished name's attribute entries as text.
pub struct NameView {
    pub country_or_region: Seq<Option<Seq<char>>>,
    pub state_or_province: Seq<Option<Seq<char>>>,
    pub locality: Seq<Option<Seq<char>>>,
    pub organization_unit: Seq<Option<Seq<char>>>,
    pub organization: Seq<Option<Seq<char>>>,
    pub common_name: Seq<Option<Seq<char>>>,
}

impl View for NameAttributes {
    type V = NameView;

    open spec fn view(&self) -> NameView {
        NameView {
            country_or_region: entries_view(self.country_or_region@),
            state_or_province: entries_view(self.state_or_province@),
            locality: entries_view(self.locality@),
            organization_unit: entries_view(self.organization_unit@),
            organization: entries_view(self.organization@),
            common_name: entries_view(self.common_name@),
        }
    }
}

/// A SAN entry as text.
pub enum SanView {
    Dns(Seq<char>),
    Other,
    Undecodable,
}

impl View for SanEntry {
    type V = SanView;

    open spec fn view(&self) -> SanView {
        match self {
            SanEntry::Dns(s) => SanView::Dns(s@),
            SanEntry::Other => SanView::Other,
            SanEntry::Undecodable => SanView::Undecodable,
        }
    }
}

pub open spec fn sans_view(v: Seq<SanEntry>) -> Seq<SanView> {
    v.map_values(|e: SanEntry| e@)
}

/// What was read from a certificate, as text and numbers.
pub struct RawView {
    pub subject: NameView,
    pub issuer: NameView,
    pub not_before: Seq<char>,
    pub not_after: Seq<char>,
    pub not_after_unix: Option<i64>,
    pub serial: Option<Seq<char>>,
    pub version: i32,
    pub signature_algorithm: Seq<char>,
    pub sans: Seq<SanView>,
}

impl View for RawCertificate {
    type V = RawView;

    open spec fn view(&self) -> RawView {
        RawView {
            subject: self.subject@,
            issuer: self.issuer@,
            not_before: self.not_before@,
            not_after: self.not_after@,
            not_after_unix: self.not_after_unix,
            serial: opt_text(self.serial),
            version: self.version,
            signature_algorithm: self.signature_algorithm@,
            sans: sans_view(self.sans@),
        }
    }
}

/// What each accessor of a SAN entry reads: its DNS name, and whether it reads
/// as an email address, a URI, an IP address or a directory name.
pub struct SanFields {
    pub dns: Option<String>,
    pub email: bool,
    pub uri: bool,
    pub ip: bool,
    pub directory: bool,
}

pub open spec fn opt_text(o: Option<String>) -> Option<Seq<char>> {
    match o {
        Some(s) => Some(s@),
        None => None,
    }
}

impl View for SanFields {
    type V = (Option<Seq<char>>, bool, bool, bool, bool);

    open spec fn view(&self) -> (Option<Seq<char>>, bool, bool, bool, bool) {
        (opt_text(self.dns), self.email, self.uri, self.ip, self.directory)
    }
}

pub open spec fn san_fields_view(v: Seq<SanFields>) -> Seq<(Option<Seq<char>>, bool, bool, bool, bool)> {
    v.map_values(|f: SanFields| f@)
}

/// The kind of a SAN entry: a DNS name when it reads as one; another kind when
/// it reads as an email address, URI, IP address or directory name; else
/// unreadable, which fails the decoding.
pub open spec fn san_class(f: (Option<Seq<char>>, bool, bool, bool, bool)) -> SanView {
    match f.0 {
        Some(d) => SanView::Dns(d),
        None => if f.1 || f.2 || f.3 || f.4 {
            SanView::Other
        } else {
            SanView::Undecodable
        },
    }
}

/// Sorts one SAN entry by what its accessors read.
pub fn classify_san(f: &SanFields) -> (r: SanEntry)
    ensures
        r@ == san_class(f@),
{
    match &f.dns {
        Some(d) => SanEntry::Dns(d.clone()),
        None => if f.email || f.uri || f.ip || f.directory {
            SanEntry::Other
        } else {
            SanEntry::Undecodable
        },
    }
}

/// Sorts each SAN entry, in order.
pub fn classify_sans(fields: &Vec<SanFields>) -> (r: Vec<SanEntry>)
    ensures
        sans_view(r@) == san_fields_view(fields@).map_values(
            |f: (Option<Seq<char>>, bool, bool, bool, bool)| san_class(f),
        ),
{
    let ghost want = san_fields_view(fields@).map_values(
        |f: (Option<Seq<char>>, bool, bool, bool, bool)| san_class(f),
    );
    let mut out: Vec<SanEntry> = Vec::new();
    let mut i: usize = 0;
    while i < fields.len()
        invariant
            i <= fields@.len(),
            want == san_fields_view(fields@).map_values(
                |f: (Option<Seq<char>>, bool, bool, bool, bool)| san_class(f),
            ),
            out@.len() == i,
            sans_view(out@) == want.subrange(0, i as int),
        decreases fields@.len() - i,
    {
        let e = classify_san(&fields[i]);
        let ghost before = out@;
        out.push(e);
        proof {
            assert forall|k: int| 0 <= k <= i implies sans_view(out@)[k] == want.subrange(
                0,
                i as int + 1,
            )[k] by {
                if k < i {
                    assert(sans_view(before)[k] == want.subrange(0, i as int)[k]);
                    assert(out@[k] == before[k]);
                } else {
                    assert(out@[k] == e);
                    assert(san_fields_view(fields@)[k] == fields@[k]@);
                }
            }
            assert(sans_view(out@) =~= want.subrange(0, i as int + 1));
        }
        i = i + 1;
    }
    assert(want.subrange(0, i as int) =~= want);
    out
}

pub struct Subject {
    pub country_or_region: String,
    pub state_or_province: String,
    pub locality: String,
    pub organization_unit: String,
    pub organization: String,
    pub common_name: String,
}

pub struct Issuer {
    pub country_or_region: String,
    pub organization: String,
    pub common_name: String,
    pub organization_unit: String,
}

/// The report on one inspected host.
pub struct Certificate {
    pub hostname: String,
    pub subject: Subject,
    pub issued: Issuer,
    pub valid_from: String,
    pub valid_to: String,
    pub valid_day_to_expire: i64,
    pub is_expired: bool,
    pub cert_sn: String,
    pub cert_ver: i32,
    pub cert_alg: String,
    pub sans: Vec<String>,
}

pub const SECONDS_PER_DAY: i64 = 86400;

/// The text that stands for an attribute that the certificate does not hold.
pub open spec fn placeholder() -> Seq<char> {
    seq!['N', 'o', 'n', 'e']
}

pub fn placeholder_string() -> (r: String)
    ensures
        r@ == placeholder(),
{
    let r = String::from_str("None");
    proof {
        reveal_strlit("None");
    }
    assert(r@ =~= placeholder());
    r
}

/// The value of an attribute: its first entry, or the placeholder when there is
/// none; `None` when the first entry cannot be decoded.
pub open spec fn entry_text(entries: Seq<Option<Seq<char>>>) -> Option<Seq<char>> {
    if entries.len() == 0 {
        Some(placeholder())
    } else {
        entries[0]
    }
}

/// Whole days from `now` until `not_after`, rounded down: negative once expired.
pub open spec fn days_until(now: int, not_after: int) -> int {
    (not_after - now) / (SECONDS_PER_DAY as int)
}

/// A certificate is expired once its not-after instant is not strictly after `now`.
pub open spec fn expired(now: int, not_after: int) -> bool {
    not_after <= now
}

/// The DNS names among SAN entries, in their order.
pub open spec fn dns_names(e: Seq<SanView>) -> Seq<Seq<char>>
    decreases e.len(),
{
    if e.len() == 0 {
        Seq::empty()
    } else {
        let rest = dns_names(e.drop_last());
        match e.last() {
            SanView::Dns(s) => rest.push(s),
            _ => rest,
        }
    }
}

pub open spec fn sans_decodable(e: Seq<SanView>) -> bool {
    forall|i: int| 0 <= i < e.len() ==> !(#[trigger] e[i] is Undecodable)
}

pub open spec fn strings_view(v: Seq<String>) -> Seq<Seq<char>> {
    v.map_values(|s: String| s@)
}

/// The value of an attribute of a distinguished name: the first entry that
/// matches it, or the placeholder `"None"` when there is none.
pub fn from_entries(entries: &Vec<Option<String>>, field: CertField) -> (r: Result<
    String,
    TlsError,
>)
    ensures
        r is Ok <==> entry_text(entries_view(entries@)) is Some,
        r matches Ok(s) ==> Some(s@) == entry_text(entries_view(entries@)),
        r matches Err(e) ==> e == TlsError::CertificateDecodeError(field),
{
    if entries.len() == 0 {
        Ok(placeholder_string())
    } else {
        match &entries[0] {
            Some(s) => Ok(s.clone()),
            None => Err(TlsError::CertificateDecodeError(field)),
        }
    }
}

/// The first subject attribute, in reading order, whose value cannot be decoded.
pub open spec fn subject_error(n: NameView) -> Option<CertField> {
    if entry_text(n.country_or_region) is None {
        Some(CertField::SubjectCountryOrRegion)
    } else if entry_text(n.state_or_province) is None {
        Some(CertField::SubjectStateOrProvince)
    } else if entry_text(n.locality) is None {
        Some(CertField::SubjectLocality)
    } else if entry_text(n.organization_unit) is None {
        Some(CertField::SubjectOrganizationUnit)
    } else if entry_text(n.common_name) is None {
        Some(CertField::SubjectCommonName)
    } else if entry_text(n.organization) is None {
        Some(CertField::SubjectOrganization)
    } else {
        None
    }
}

/// The first issuer attribute, in reading order, whose value cannot be decoded.
pub open spec fn issuer_error(n: NameView) -> Option<CertField> {
    if entry_text(n.common_name) is None {
        Some(CertField::IssuerCommonName)
    } else if entry_text(n.organization) is None {
        Some(CertField::IssuerOrganization)
    } else if entry_text(n.country_or_region) is None {
        Some(CertField::IssuerCountryOrRegion)
    } else if entry_text(n.organization_unit) is None {
        Some(CertField::IssuerOrganizationUnit)
    } else {
        None
    }
}

/// The subject fields hold the attribute values of the name.
pub open spec fn subject_matches(s: Subject, n: NameView) -> bool {
    &&& Some(s.country_or_region@) == entry_text(n.country_or_region)
    &&& Some(s.state_or_province@) == entry_text(n.state_or_province)
    &&& Some(s.locality@) == entry_text(n.locality)
    &&& Some(s.organization_unit@) == entry_text(n.organization_unit)
    &&& Some(s.organization@) == entry_text(n.organization)
    &&& Some(s.common_name@) == entry_text(n.common_name)
}

/// The issuer fields hold the attribute values of the name.
pub open spec fn issuer_matches(i: Issuer, n: NameView) -> bool {
    &&& Some(i.country_or_region@) == entry_text(n.country_or_region)
    &&& Some(i.organization@) == entry_text(n.organization)
    &&& Some(i.common_name@) == entry_text(n.common_name)
    &&& Some(i.organization_unit@) == entry_text(n.organization_unit)
}

/// The subject's fields, each the first matching attribute or `"None"`.
pub fn get_subject(n: &NameAttributes) -> (r: Result<Subject, TlsError>)
    ensures
        r is Ok <==> subject_error(n@) is None,
        r matches Ok(s) ==> subject_matches(s, n@),
        r matches Err(e) ==> subject_error(n@) matches Some(f) && e == TlsError::CertificateDecodeError(
            f,
        ),
{
    let country_or_region = from_entries(&n.country_or_region, CertField::SubjectCountryOrRegion)?;
    let state_or_province = from_entries(&n.state_or_province, CertField::SubjectStateOrProvince)?;
    let locality = from_entries(&n.locality, CertField::SubjectLocality)?;
    let organization_unit = from_entries(&n.organization_unit, CertField::SubjectOrganizationUnit)?;
    let common_name = from_entries(&n.common_name, CertField::SubjectCommonName)?;
    let organization = from_entries(&n.organization, CertField::SubjectOrganization)?;
    Ok(
        Subject {
            country_or_region,
            state_or_province,
            locality,
            organization_unit,
            organization,
            common_name,
        },
    )
}

/// The issuer's fields, each the first matching attribute or `"None"`.
pub fn get_issuer(n: &NameAttributes) -> (r: Result<Issuer, TlsError>)
    ensures
        r is Ok <==> issuer_error(n@) is None,
        r matches Ok(i) ==> issuer_matches(i, n@),
        r matches Err(e) ==> issuer_error(n@) matches Some(f) && e == TlsError::CertificateDecodeError(
            f,
        ),
{
    let common_name = from_entries(&n.common_name, CertField::IssuerCommonName)?;
    let organization = from_entries(&n.organization, CertField::IssuerOrganization)?;
    let country_or_region = from_entries(&n.country_or_region, CertField::IssuerCountryOrRegion)?;
    let organization_unit = from_entries(&n.organization_unit, CertField::IssuerOrganizationUnit)?;
    Ok(Issuer { country_or_region, organization, common_name, organization_unit })
}

/// Whole days from `now` until `not_after`, both in seconds since the Unix
/// epoch, rounded down.
pub fn get_validity_days(now: i64, not_after: i64) -> (r: i64)
    ensures
        r as int == days_until(now as int, not_after as int),
{
    let diff: i128 = not_after as i128 - now as i128;
    let day: i128 = SECONDS_PER_DAY as i128;
    if diff >= 0 {
        let q = diff / day;
        assert(q <= diff);
        q as i64
    } else {
        let m = -diff;
        let q = (m + day - 1) / day;
        assert(q * day >= m && (q - 1) * day < m) by (nonlinear_arith)
            requires
                q as int == (m as int + day as int - 1) / (day as int),
                day == 86400,
                m > 0,
        ;
        assert(-(q as int) == (diff as int) / (day as int)) by (nonlinear_arith)
            requires
                q * day >= m,
                (q - 1) * day < m,
                m == -diff,
                day == 86400,
        ;
        assert(q <= m) by (nonlinear_arith)
            requires
                q * day >= m,
                (q - 1) * day < m,
                day == 86400,
                m > 0,
        ;
        (-q) as i64
    }
}

/// True when `not_after` is not strictly after `now`.
pub fn has_expired(now: i64, not_after: i64) -> (r: bool)
    ensures
        r == expired(now as int, not_after as int),
{
    !(not_after > now)
}

/// The DNS names among the SAN entries, in their order; an entry that cannot be
/// read fails the whole list.
pub fn collect_sans(entries: &Vec<SanEntry>) -> (r: Result<Vec<String>, TlsError>)
    ensures
        r is Ok <==> sans_decodable(sans_view(entries@)),
        r matches Ok(v) ==> strings_view(v@) == dns_names(sans_view(entries@)),
        r matches Err(e) ==> e == TlsError::CertificateDecodeError(CertField::SubjectAltName),
{
    let ghost v = sans_view(entries@);
    let mut out: Vec<String> = Vec::new();
    let mut i: usize = 0;
    while i < entries.len()
        invariant
            i <= entries@.len(),
            v == sans_view(entries@),
            sans_decodable(v.subrange(0, i as int)),
            strings_view(out@) == dns_names(v.subrange(0, i as int)),
        decreases entries@.len() - i,
    {
        let ghost pre = v.subrange(0, i as int + 1);
        assert(pre.drop_last() =~= v.subrange(0, i as int));
        assert(pre.last() == entries@[i as int]@);
        match &entries[i] {
            SanEntry::Dns(name) => {
                out.push(name.clone());
                assert(strings_view(out@) =~= dns_names(pre));
            },
            SanEntry::Other => {},
            SanEntry::Undecodable => {
                assert(v[i as int] is Undecodable);
                return Err(TlsError::CertificateDecodeError(CertField::SubjectAltName));
            },
        }
        i = i + 1;
        assert(sans_decodable(v.subrange(0, i as int))) by {
            assert(forall|k: int| 0 <= k < i ==> v.subrange(0, i as int)[k] == v[k]);
        }
    }
    assert(v.subrange(0, i as int) =~= v);
    Ok(out)
}

/// The first failure, in reading order, that decoding `raw` meets.
pub open spec fn decode_error(raw: RawView) -> Option<TlsError> {
    if !sans_decodable(raw.sans) {
        Some(TlsError::CertificateDecodeError(CertField::SubjectAltName))
    } else if subject_error(raw.subject) is Some {
        Some(TlsError::CertificateDecodeError(subject_error(raw.subject)->0))
    } else if issuer_error(raw.issuer) is Some {
        Some(TlsError::CertificateDecodeError(issuer_error(raw.issuer)->0))
    } else if raw.not_after_unix is None {
        Some(TlsError::CertificateDecodeError(CertField::NotAfter))
    } else if raw.serial is None {
        Some(TlsError::CertificateDecodeError(CertField::SerialNumber))
    } else {
        None
    }
}

/// The report `c` holds what `raw` says, for `hostname` at the instant `now`.
pub open spec fn certificate_matches(
    c: Certificate,
    raw: RawView,
    hostname: Seq<char>,
    now: int,
) -> bool {
    &&& c.hostname@ == hostname
    &&& subject_matches(c.subject, raw.subject)
    &&& issuer_matches(c.issued, raw.issuer)
    &&& c.valid_from@ == raw.not_before
    &&& c.valid_to@ == raw.not_after
    &&& raw.not_after_unix matches Some(t) && c.valid_day_to_expire as int == days_until(now, t as int)
        && c.is_expired == expired(now, t as int)
    &&& raw.serial matches Some(sn) && c.cert_sn@ == sn
    &&& c.cert_ver == raw.version
    &&& c.cert_alg@ == raw.signature_algorithm
    &&& strings_view(c.sans@) == dns_names(raw.sans)
}

/// Builds the report on `hostname` from what was read of its certificate, at
/// the instant `now` in seconds since the Unix epoch.
pub fn decode_certificate(raw: RawCertificate, hostname: String, now: i64) -> (r: Result<
    Certificate,
    TlsError,
>)
    ensures
        r is Ok <==> decode_error(raw@) is None,
        r matches Err(e) ==> decode_error(raw@) == Some(e),
        r matches Ok(c) ==> certificate_matches(c, raw@, hostname@, now as int),
{
    let sans = collect_sans(&raw.sans)?;
    let subject = get_subject(&raw.subject)?;
    let issued = get_issuer(&raw.issuer)?;
    let not_after = match raw.not_after_unix {
        Some(t) => t,
        None => {
            return Err(TlsError::CertificateDecodeError(CertField::NotAfter));
        },
    };
    let cert_sn = match raw.serial {
        Some(sn) => sn,
        None => {
            return Err(TlsError::CertificateDecodeError(CertField::SerialNumber));
        },
    };
    Ok(
        Certificate {
            hostname,
            subject,
            issued,
            valid_from: raw.not_before,
            valid_to: raw.not_after,
            valid_day_to_expire: get_validity_days(now, not_after),
            is_expired: has_expired(now, not_after),
            cert_sn,
            cert_ver: raw.version,
            cert_alg: raw.signature_algorithm,
            sans,
        },
    )
}

/// Expiry and remaining days agree: away from the not-after instant a
/// certificate is expired exactly when fewer than zero days remain, and at that
/// instant it is expired with zero days left.
pub proof fn lemma_expiry_consistent(now: int, not_after: int)
    ensures
        not_after != now ==> (expired(now, not_after) <==> days_until(now, not_after) < 0),
        not_after == now ==> expired(now, not_after) && days_until(now, not_after) == 0,
{
    let d = not_after - now;
    assert(d > 0 ==> d / 86400 >= 0) by (nonlinear_arith);
    assert(d < 0 ==> d / 86400 < 0) by (nonlinear_arith);
}

/// In every decoded report, `is_expired` holds exactly when fewer than zero
/// days remain, except at the not-after instant itself, where the report is
/// expired with zero days left.
pub proof fn lemma_report_expiry_consistent(
    c: Certificate,
    raw: RawView,
    hostname: Seq<char>,
    now: int,
)
    requires
        certificate_matches(c, raw, hostname, now),
    ensures
        raw.not_after_unix != Some(now as i64) ==> (c.is_expired <==> c.valid_day_to_expire < 0),
        raw.not_after_unix == Some(now as i64) && i64::MIN <= now <= i64::MAX ==> c.is_expired
            && c.valid_day_to_expire == 0,
{
    let t = raw.not_after_unix->0;
    lemma_expiry_consistent(now, t as int);
}

/// A report on a certificate whose not-after instant lies `days` whole days
/// after `now` gives exactly `days` days left and is not expired.
pub proof fn lemma_report_days_left(
    c: Certificate,
    raw: RawView,
    hostname: Seq<char>,
    now: int,
    days: int,
)
    requires
        certificate_matches(c, raw, hostname, now),
        days > 0,
        raw.not_after_unix matches Some(t) && t as int == now + days * 86400,
    ensures
        c.valid_day_to_expire == days,
        !c.is_expired,
{
    lemma_days_left_exact(now, days);
}

/// A report on a certificate whose not-after instant has passed is expired with
/// a negative number of days left.
pub proof fn lemma_report_past_expired(c: Certificate, raw: RawView, hostname: Seq<char>, now: int)
    requires
        certificate_matches(c, raw, hostname, now),
        raw.not_after_unix matches Some(t) && (t as int) < now,
    ensures
        c.is_expired,
        c.valid_day_to_expire < 0,
{
    lemma_past_is_expired(now, raw.not_after_unix->0 as int);
}

/// A certificate whose not-after instant lies `days` whole days after `now`
/// has exactly `days` days left and is not expired.
pub proof fn lemma_days_left_exact(now: int, days: int)
    requires
        days > 0,
    ensures
        days_until(now, now + days * 86400) == days,
        !expired(now, now + days * 86400),
{
    assert((days * 86400) / 86400 == days) by (nonlinear_arith);
}

/// A certificate whose not-after instant has passed is expired with a negative
/// number of days left.
pub proof fn lemma_past_is_expired(now: int, not_after: int)
    requires
        not_after < now,
    ensures
        expired(now, not_after),
        days_until(now, not_after) < 0,
{
    lemma_expiry_consistent(now, not_after);
}

/// An attribute that the name does not hold reads as `"None"`, never as empty.
pub proof fn lemma_missing_attribute_placeholder(entries: Seq<Option<Seq<char>>>)
    requires
        entries.len() == 0,
    ensures
        entry_text(entries) == Some(placeholder()),
        placeholder().len() > 0,
{
}

/// SAN extraction keeps order: the names of two runs of entries are the names
/// of the first run followed by those of the second.
pub proof fn lemma_sans_keep_order(e1: Seq<SanView>, e2: Seq<SanView>)
    ensures
        dns_names(e1 + e2) == dns_names(e1) + dns_names(e2),
    decreases e2.len(),
{
    if e2.len() == 0 {
        assert(e1 + e2 =~= e1);
        assert(dns_names(e1) + dns_names(e2) =~= dns_names(e1));
    } else {
        lemma_sans_keep_order(e1, e2.drop_last());
        assert((e1 + e2).drop_last() =~= e1 + e2.drop_last());
        assert((e1 + e2).last() == e2.last());
        match e2.last() {
            SanView::Dns(s) => {
                assert(dns_names(e1) + dns_names(e2) =~= (dns_names(e1) + dns_names(
                    e2.drop_last(),
                )).push(s));
            },
            _ => {},
        }
    }
}

/// Decoding the same SAN entries twice gives the same names in the same order.
pub proof fn lemma_sans_repeatable(e: Seq<SanView>, first: Seq<String>, second: Seq<String>)
    requires
        strings_view(first) == dns_names(e),
        strings_view(second) == dns_names(e),
    ensures
        strings_view(first) == strings_view(second),
        first.len() == second.len(),
{
    assert(first.len() == strings_view(first).len());
    assert(second.len() == strings_view(second).len());
}

/// SAN entries that are all DNS names yield exactly those names, in order, one
/// for each entry.
pub proof fn lemma_sans_all_dns(e: Seq<SanView>)
    requires
        forall|i: int| 0 <= i < e.len() ==> #[trigger] e[i] is Dns,
    ensures
        dns_names(e).len() == e.len(),
        forall|i: int| 0 <= i < e.len() ==> (#[trigger] dns_names(e)[i]) == e[i]->Dns_0,
    decreases e.len(),
{
    if e.len() > 0 {
        let p = e.drop_last();
        assert(forall|i: int| 0 <= i < p.len() ==> p[i] == e[i]);
        lemma_sans_all_dns(p);
        assert(e.last() is Dns);
        assert forall|i: int| 0 <= i < e.len() implies (#[trigger] dns_names(e)[i]) == e[i]->Dns_0 by {
            if i < p.len() {
                assert(dns_names(p)[i] == p[i]->Dns_0);
            }
        }
    }
}

} // verus!
