//! Per-machine certificate authority, mkcert-style.
//!
//! Created once and persisted; every share's leaf certificate is minted from
//! it. Trust the CA once per device (see `lclhst trust` and the `/.lclhst/`
//! onboarding page) and every share gets a clean padlock.
//!
//! Keys and certificates are held as PEM text or DER bytes. What makes them,
//! reads them and signs with them is the `rcgen` crate.

use vstd::prelude::*;

use crate::net::Ip;
use crate::protocol;
use crate::subject;
use crate::text;
use crate::tls;

verus! {

/// The file that holds the CA certificate.
pub const CA_CERT_FILE: &'static str = "rootCA.pem";

/// The file that holds the CA's private key.
pub const CA_KEY_FILE: &'static str = "rootCA-key.pem";

/// The permissions of the key file: for its owner only.
pub const KEY_FILE_MODE: u32 = 0o600;

/// The days that a leaf certificate is valid for, from now. Apple rejects
/// trusted leaf certificates valid for longer than 825 days.
pub const LEAF_VALIDITY_DAYS: i64 = 398;

/// The days that the CA certificate is valid for, from now.
pub const CA_VALIDITY_DAYS: i64 = 3650;

/// The seconds of a day.
pub const DAY: i64 = 86_400;

/// The first second of the year 0, from where on a certificate can express a
/// time, as a Unix timestamp.
pub const FIRST_SECOND: i64 = -62_167_219_200;

/// The last second of the year 9999, up to where a certificate can express a
/// time, as a Unix timestamp.
pub const LAST_SECOND: i64 = 253_402_300_799;

/// `rcgen::CertificateParams`: what a certificate is to say.
#[verifier::external_type_specification]
#[verifier::external_body]
pub struct ExCertificateParams(rcgen::CertificateParams);

/// `rcgen::Error`: why a key or a certificate could not be made or read.
#[verifier::external_type_specification]
#[verifier::external_body]
pub struct ExRcgenError(rcgen::Error);

/// What a key may be used for.
#[derive(Debug, Clone, Copy, PartialEq, Eq, Structural)]
pub enum Usage {
    DigitalSignature,
    KeyEncipherment,
    KeyCertSign,
    CrlSign,
}

/// What a certificate is to say, as plain values. Times are Unix timestamps.
#[verifier::ext_equal]
pub struct Request {
    pub names: Seq<Seq<char>>,
    pub ips: Seq<Ip>,
    pub common_name: Seq<char>,
    pub organization: Option<Seq<char>>,
    pub is_ca: bool,
    pub usages: Seq<Usage>,
    pub server_auth: bool,
    pub not_before: int,
    pub not_after: int,
    /// There is nothing else to say: no other names, subject attributes,
    /// usages, constraints on a CA, or extensions. The subject attributes are
    /// UTF-8 strings.
    pub nothing_else: bool,
}

/// What the parameters of a certificate ask for.
pub uninterp spec fn requested(params: rcgen::CertificateParams) -> Request;

/// Whether a name cannot be taken for an IP address: it has a character that
/// occurs in none.
pub open spec fn is_no_ip(name: Seq<char>) -> bool {
    exists|i: int|
        0 <= i < name.len() && !('0' <= #[trigger] name[i] <= '9' || 'a' <= name[i] <= 'f' || 'A'
            <= name[i] <= 'F' || name[i] == '.' || name[i] == ':')
}

/// Whether names can only be DNS names: ASCII, and no IP address among them.
pub open spec fn dns_names(names: Seq<Seq<char>>) -> bool {
    forall|i: int|
        0 <= i < names.len() ==> vstd::utf8::is_ascii_chars(#[trigger] names[i]) && is_no_ip(
            names[i],
        )
}

/// `rcgen::CertificateParams::new`: parameters for the given alternative
/// names, each a DNS name unless it is the text of an IP address, and defaults
/// for the rest. DNS names have to be ASCII.
#[verifier::external_body]
fn params_for(names: Vec<String>) -> (r: Result<rcgen::CertificateParams, rcgen::Error>)
    ensures
        dns_names(text::texts(names@)) ==> r is Ok,
        r matches Ok(params) ==> (dns_names(text::texts(names@)) ==> requested(params).names
            == text::texts(names@) && requested(params).ips == Seq::<Ip>::empty()),
        r matches Ok(params) ==> requested(params).organization is None && !requested(params).is_ca
            && requested(params).usages == Seq::<Usage>::empty() && !requested(params).server_auth
            && requested(params).nothing_else,
{
    rcgen::CertificateParams::new(names)
}

/// `subject_alt_names` of `rcgen::CertificateParams`: one more IP address, as
/// `rcgen::SanType::IpAddress`.
#[verifier::external_body]
fn add_ip(params: &mut rcgen::CertificateParams, ip: Ip)
    ensures
        requested(*final(params)) == (Request {
            ips: requested(*old(params)).ips.push(ip),
            ..requested(*old(params))
        }),
{
    params.subject_alt_names.push(
        rcgen::SanType::IpAddress(
            match ip {
                Ip::V4(bits) => bits.to_be_bytes().into(),
                Ip::V6(bits) => bits.to_be_bytes().into(),
            },
        ),
    );
}

/// `distinguished_name` of `rcgen::CertificateParams`: a new
/// `rcgen::DistinguishedName` with the given common name alone.
#[verifier::external_body]
fn set_common_name(params: &mut rcgen::CertificateParams, common_name: String)
    requires
        requested(*old(params)).nothing_else,
    ensures
        requested(*final(params)) == (Request {
            common_name: common_name@,
            organization: None,
            ..requested(*old(params))
        }),
{
    params.distinguished_name = rcgen::DistinguishedName::new();
    params.distinguished_name.push(rcgen::DnType::CommonName, common_name);
}

/// `rcgen::DistinguishedName::push` on the `distinguished_name` of
/// `rcgen::CertificateParams`, of an organization name.
#[verifier::external_body]
fn set_organization(params: &mut rcgen::CertificateParams, organization: &str)
    ensures
        requested(*final(params)) == (Request {
            organization: Some(organization@),
            ..requested(*old(params))
        }),
{
    params.distinguished_name.push(rcgen::DnType::OrganizationName, organization);
}

/// `not_before` and `not_after` of `rcgen::CertificateParams`, as
/// `time::OffsetDateTime::from_unix_timestamp` (which fails outside the years
/// -9999 to 9999).
#[verifier::external_body]
fn set_validity(params: &mut rcgen::CertificateParams, not_before: i64, not_after: i64)
    requires
        FIRST_SECOND <= not_before <= LAST_SECOND,
        FIRST_SECOND <= not_after <= LAST_SECOND,
    ensures
        requested(*final(params)) == (Request {
            not_before: not_before as int,
            not_after: not_after as int,
            ..requested(*old(params))
        }),
{
    params.not_before = time::OffsetDateTime::from_unix_timestamp(not_before).unwrap();
    params.not_after = time::OffsetDateTime::from_unix_timestamp(not_after).unwrap();
}

/// `is_ca` of `rcgen::CertificateParams`: a CA without constraints.
#[verifier::external_body]
fn make_ca(params: &mut rcgen::CertificateParams)
    requires
        requested(*old(params)).nothing_else,
    ensures
        requested(*final(params)) == (Request { is_ca: true, ..requested(*old(params)) }),
{
    params.is_ca = rcgen::IsCa::Ca(rcgen::BasicConstraints::Unconstrained);
}

/// `key_usages` of `rcgen::CertificateParams`: one more usage.
#[verifier::external_body]
fn allow(params: &mut rcgen::CertificateParams, usage: Usage)
    ensures
        requested(*final(params)) == (Request {
            usages: requested(*old(params)).usages.push(usage),
            ..requested(*old(params))
        }),
{
    params.key_usages.push(
        match usage {
            Usage::DigitalSignature => rcgen::KeyUsagePurpose::DigitalSignature,
            Usage::KeyEncipherment => rcgen::KeyUsagePurpose::KeyEncipherment,
            Usage::KeyCertSign => rcgen::KeyUsagePurpose::KeyCertSign,
            Usage::CrlSign => rcgen::KeyUsagePurpose::CrlSign,
        },
    );
}

/// `extended_key_usages` of `rcgen::CertificateParams`: server authentication.
#[verifier::external_body]
fn allow_server_auth(params: &mut rcgen::CertificateParams)
    ensures
        requested(*final(params)) == (Request { server_auth: true, ..requested(*old(params)) }),
{
    params.extended_key_usages.push(rcgen::ExtendedKeyUsagePurpose::ServerAuth);
}

/// `time::OffsetDateTime::now_utc`, as a Unix timestamp. It depends on the
/// clock, so nothing is promised of it.
#[verifier::external_body]
fn now() -> i64 {
    time::OffsetDateTime::now_utc().unix_timestamp()
}

/// The PKCS #8 bytes of the private key in a PEM text, if there is one that
/// can be used.
pub uninterp spec fn key_in_pem(pem: Seq<char>) -> Option<Seq<u8>>;

/// A fresh private key, in both forms.
#[derive(Debug)]
pub struct FreshKey {
    /// Its PKCS #8 bytes.
    pub der: Vec<u8>,
    /// Its PEM text.
    pub pem: String,
}

/// What the PEM text of a certificate begins with.
pub const PEM_HEADER: &'static str = "-----BEGIN CERTIFICATE-----";

/// `rcgen::KeyPair::generate`, with `serialize_der` and `serialize_pem` of the
/// result: a random key. The text can be read back and holds the bytes.
#[verifier::external_body]
fn generate_key() -> (r: Result<FreshKey, rcgen::Error>)
    ensures
        r matches Ok(key) ==> key_in_pem(key.pem@) == Some(key.der@),
{
    let key = rcgen::KeyPair::generate()?;
    Ok(FreshKey { der: key.serialize_der(), pem: key.serialize_pem() })
}

/// `rcgen::KeyPair::from_pem`: succeeds on the text of a private key that can
/// be used, which depends on the text. That it also draws on the system's
/// random source, and would fail with it, is left aside.
#[verifier::external_body]
fn read_key(pem: &str) -> (r: Result<(), rcgen::Error>)
    ensures
        r is Ok <==> key_in_pem(pem@) is Some,
{
    rcgen::KeyPair::from_pem(pem).map(|_| ())
}

/// Whether a PEM text holds a certificate that can be read as that of an
/// issuer.
pub uninterp spec fn is_issuer_pem(pem: Seq<char>) -> bool;

/// `rcgen::Issuer::from_ca_cert_pem`, with the key that `rcgen::KeyPair::from_pem`
/// reads: whether it succeeds depends on the certificate's text, which is not
/// held against the key. That reading the key would fail with the system's
/// random source is left aside.
#[verifier::external_body]
fn read_issuer(cert_pem: &str, key_pem: &str) -> (r: Result<(), rcgen::Error>)
    requires
        key_in_pem(key_pem@) is Some,
    ensures
        r is Ok <==> is_issuer_pem(cert_pem@),
{
    rcgen::Issuer::from_ca_cert_pem(cert_pem, rcgen::KeyPair::from_pem(key_pem)?).map(|_| ())
}

/// Whether a certificate says what was requested, for the public half of a
/// private key, names as its issuer what `rcgen` reads of the subject of the
/// issuer's certificate (its own subject where there is no other), and carries
/// a signature made with the issuer's private key. Of an attribute that stands
/// in a subject more than once, `rcgen` reads the last.
pub uninterp spec fn certifies(
    certificate: Seq<u8>,
    request: Request,
    key: Seq<u8>,
    issuer: Option<Seq<u8>>,
    issuer_key: Seq<u8>,
) -> bool;

/// `rcgen::CertificateParams::self_signed`, then `pem` of the result: the text
/// of a certificate for the key, signed with the key. The text begins with the
/// PEM header and can be read back, as a certificate and as that of an issuer,
/// whose subject, made of UTF-8 strings, can be written into others. Signatures
/// are random, so two calls differ. Times outside the years 0 to 9999 make it
/// panic.
#[verifier::external_body]
fn self_sign(params: &rcgen::CertificateParams, key_pem: &str) -> (r: Result<String, rcgen::Error>)
    requires
        requested(*params).nothing_else,
        FIRST_SECOND <= requested(*params).not_before <= LAST_SECOND,
        FIRST_SECOND <= requested(*params).not_after <= LAST_SECOND,
    ensures
        r is Ok ==> key_in_pem(key_pem@) is Some,
        r matches Ok(pem) ==> text::begins(pem@, PEM_HEADER@),
        r matches Ok(pem) ==> is_issuer_pem(pem@) && tls::certificate_in_pem(pem@) is Some,
        r matches Ok(pem) ==> subject::subject_can_be_written(tls::certificate_in_pem(pem@)->0),
        r matches Ok(pem) ==> certifies(
            tls::certificate_in_pem(pem@)->0,
            requested(*params),
            key_in_pem(key_pem@)->0,
            None,
            key_in_pem(key_pem@)->0,
        ),
{
    Ok(params.self_signed(&rcgen::KeyPair::from_pem(key_pem)?)?.pem())
}

/// `rcgen::CertificateParams::signed_by`, with the issuer that
/// `rcgen::Issuer::from_ca_cert_der` reads, then `der` of the result: a
/// certificate for the key, signed by the issuer with this certificate and this
/// private key. Signatures are random, so two calls differ. It panics on times
/// outside the years 0 to 9999, and on subjects of issuers that it reads but
/// cannot write: those with an attribute type that has fewer than two numbers or
/// a first byte of 120 or more, and those with a question mark in a printable
/// string.
#[verifier::external_body]
fn sign(
    params: &rcgen::CertificateParams,
    key_pem: &str,
    issuer: &[u8],
    issuer_key_pem: &str,
) -> (r: Result<Vec<u8>, rcgen::Error>)
    requires
        requested(*params).nothing_else,
        FIRST_SECOND <= requested(*params).not_before <= LAST_SECOND,
        FIRST_SECOND <= requested(*params).not_after <= LAST_SECOND,
        subject::subject_can_be_written(issuer@),
    ensures
        r is Ok ==> key_in_pem(key_pem@) is Some && key_in_pem(issuer_key_pem@) is Some,
        r matches Ok(der) ==> certifies(
            der@,
            requested(*params),
            key_in_pem(key_pem@)->0,
            Some(issuer@),
            key_in_pem(issuer_key_pem@)->0,
        ),
{
    let key = rcgen::KeyPair::from_pem(key_pem)?;
    let issuer_key = rcgen::KeyPair::from_pem(issuer_key_pem)?;
    let issuer = rcgen::Issuer::from_ca_cert_der(&issuer.into(), issuer_key)?;
    Ok(params.signed_by(&key, &issuer)?.der().to_vec())
}

/// Whether the clock was read, and this is what it said: `now` gave it.
pub closed spec fn clock_reads(t: i64) -> bool {
    call_ensures(now, (), t)
}

/// Whether this is what came of making a key: `generate_key` gave it.
pub closed spec fn key_making_gives(r: Result<FreshKey, rcgen::Error>) -> bool {
    call_ensures(generate_key, (), r)
}

/// Whether these are the bytes of a private key that was made for the occasion.
pub open spec fn is_fresh(key: Seq<u8>) -> bool {
    exists|made: FreshKey| #[trigger] key_making_gives(Ok(made)) && made.der@ == key
}

/// Whether `self_sign` was asked for this certificate, and this is why it gave
/// none.
pub closed spec fn self_signing_fails(request: Request, e: rcgen::Error) -> bool {
    exists|params: &rcgen::CertificateParams, key_pem: &str|
        {
            &&& #[trigger] call_ensures(self_sign, (params, key_pem), Err(e))
            &&& requested(*params) == request
        }
}

/// Whether `sign` was asked for this certificate, from the issuer with this
/// certificate and this key, and this is why it gave none.
pub closed spec fn signing_fails(
    request: Request,
    issuer: Seq<u8>,
    issuer_key_pem: Seq<char>,
    e: rcgen::Error,
) -> bool {
    exists|params: &rcgen::CertificateParams, key_pem: &str, by: &[u8], by_key_pem: &str|
        {
            &&& #[trigger] call_ensures(sign, (params, key_pem, by, by_key_pem), Err(e))
            &&& requested(*params) == request
            &&& by@ == issuer
            &&& by_key_pem@ == issuer_key_pem
        }
}

/// What is said of the clock, of fresh keys and of failures is said of what the
/// calls gave, and of nothing else.
proof fn outcomes_are_those_of_the_calls(
    t: i64,
    made: Result<FreshKey, rcgen::Error>,
    request: Request,
    issuer: Seq<u8>,
    issuer_key_pem: Seq<char>,
    e: rcgen::Error,
)
    ensures
        clock_reads(t) ==> call_ensures(now, (), t),
        key_making_gives(made) ==> call_ensures(generate_key, (), made),
        self_signing_fails(request, e) ==> exists|params: &rcgen::CertificateParams, key_pem: &str|
            #[trigger]
            call_ensures(self_sign, (params, key_pem), Err(e)) && requested(*params) == request,
        signing_fails(request, issuer, issuer_key_pem, e) ==> exists|
            params: &rcgen::CertificateParams,
            key_pem: &str,
            by: &[u8],
            by_key_pem: &str,
        | #[trigger]
            call_ensures(sign, (params, key_pem, by, by_key_pem), Err(e)) && requested(*params)
                == request && by@ == issuer && by_key_pem@ == issuer_key_pem,
{
}

/// Why the CA could not be loaded or created, or a certificate not be minted.
#[derive(Debug)]
pub enum CaError {
    /// The name is not a valid tunnel name.
    InvalidName(String),
    /// The clock is so far off that a certificate cannot express its times.
    Clock,
    /// The subject of the CA certificate cannot be written into others.
    IssuerSubject,
    ParsingKey(rcgen::Error),
    ParsingCert(rcgen::Error),
    GeneratingKey(rcgen::Error),
    SelfSigning(rcgen::Error),
    LeafParams(rcgen::Error),
    GeneratingLeafKey(rcgen::Error),
    SigningLeaf(rcgen::Error),
    Chain(tls::ChainError),
}

impl CaError {
    /// What was being done; `None` where the cause says it all.
    pub fn context(&self) -> (r: Option<String>)
        ensures
            match self {
                CaError::InvalidName(name) => r matches Some(s) && s@
                    == protocol::invalid_name_text(name@),
                CaError::Clock => r matches Some(s) && s@
                    == "the clock is out of the range of certificates"@,
                CaError::IssuerSubject => r matches Some(s) && s@
                    == "the CA certificate has a subject that cannot be written"@,
                CaError::ParsingKey(_) => r matches Some(s) && s@ == "parsing CA key"@,
                CaError::ParsingCert(_) => r matches Some(s) && s@ == "parsing CA cert"@,
                CaError::GeneratingKey(_) => r matches Some(s) && s@ == "generating CA key"@,
                CaError::SelfSigning(_) => r matches Some(s) && s@
                    == "self-signing CA certificate"@,
                CaError::LeafParams(_) => r matches Some(s) && s@ == "building leaf params"@,
                CaError::GeneratingLeafKey(_) => r matches Some(s) && s@ == "generating leaf key"@,
                CaError::SigningLeaf(_) => r matches Some(s) && s@ == "signing leaf certificate"@,
                CaError::Chain(tls::ChainError::Pem(_)) => r matches Some(s) && s@
                    == "re-encoding CA cert"@,
                CaError::Chain(tls::ChainError::Tls(_)) => r is None,
            },
    {
        match self {
            CaError::InvalidName(name) => Some(protocol::invalid_name_message(name.as_str())),
            CaError::Clock => Some("the clock is out of the range of certificates".to_owned()),
            CaError::IssuerSubject => Some(
                "the CA certificate has a subject that cannot be written".to_owned(),
            ),
            CaError::ParsingKey(_) => Some("parsing CA key".to_owned()),
            CaError::ParsingCert(_) => Some("parsing CA cert".to_owned()),
            CaError::GeneratingKey(_) => Some("generating CA key".to_owned()),
            CaError::SelfSigning(_) => Some("self-signing CA certificate".to_owned()),
            CaError::LeafParams(_) => Some("building leaf params".to_owned()),
            CaError::GeneratingLeafKey(_) => Some("generating leaf key".to_owned()),
            CaError::SigningLeaf(_) => Some("signing leaf certificate".to_owned()),
            CaError::Chain(tls::ChainError::Pem(_)) => Some("re-encoding CA cert".to_owned()),
            CaError::Chain(tls::ChainError::Tls(_)) => None,
        }
    }
}

/// The name of this machine as the `hostname` command printed it; `None` if
/// the command could not be run.
pub open spec fn host_text(stdout: Option<Seq<u8>>) -> Seq<char> {
    match stdout {
        Some(bytes) => if vstd::utf8::valid_utf8(bytes) && text::trim(
            vstd::utf8::decode_utf8(bytes),
        ).len() > 0 {
            text::trim(vstd::utf8::decode_utf8(bytes))
        } else {
            "unknown-host"@
        },
        None => "unknown-host"@,
    }
}

/// The bytes of an optional output.
pub open spec fn output(stdout: Option<Vec<u8>>) -> Option<Seq<u8>> {
    match stdout {
        Some(bytes) => Some(bytes@),
        None => None,
    }
}

/// The name of this machine, from what the `hostname` command printed.
pub fn hostname(stdout: Option<Vec<u8>>) -> (r: String)
    ensures
        r@ == host_text(output(stdout)),
{
    if let Some(bytes) = stdout {
        if let Some(s) = text::utf8_text(bytes) {
            let name = text::trimmed(s.as_str());
            if text::chars_of(name.as_str()).len() > 0 {
                return name;
            }
        }
    }
    "unknown-host".to_owned()
}

/// The CA certificate of the machine `host`, made at `now`.
pub open spec fn ca_request(host: Seq<char>, now: int) -> Request {
    Request {
        names: seq![],
        ips: seq![],
        common_name: "lclhst CA ("@ + host + ")"@,
        organization: Some("lclhst"@),
        is_ca: true,
        usages: seq![Usage::KeyCertSign, Usage::CrlSign, Usage::DigitalSignature],
        server_auth: false,
        not_before: now - DAY,
        not_after: now + CA_VALIDITY_DAYS * DAY,
        nothing_else: true,
    }
}

/// The names that a leaf certificate covers: this machine's, the LAN's, and
/// plain localhost.
pub open spec fn leaf_names(name: Seq<char>) -> Seq<Seq<char>> {
    seq![name + ".localhost"@, name + ".local"@, "localhost"@]
}

/// The leaf certificate of a share under the given addresses, made at `now`.
pub open spec fn leaf_request(name: Seq<char>, ips: Seq<Ip>, now: int) -> Request {
    Request {
        names: leaf_names(name),
        ips,
        common_name: name + ".local"@,
        organization: None,
        is_ca: false,
        usages: seq![Usage::DigitalSignature, Usage::KeyEncipherment],
        server_auth: true,
        not_before: now - DAY,
        not_after: now + LEAF_VALIDITY_DAYS * DAY,
        nothing_else: true,
    }
}

/// Whether a certificate made at `now`, and valid for `days`, can express its
/// times.
pub open spec fn expressible(now: int, days: int) -> bool {
    FIRST_SECOND <= now - DAY && now + days * DAY <= LAST_SECOND
}

/// Apple rejects trusted leaf certificates valid for longer than 825 days:
/// none is.
pub proof fn leaf_certificates_are_not_too_long(name: Seq<char>, ips: Seq<Ip>, now: int)
    ensures
        leaf_request(name, ips, now).not_after - leaf_request(name, ips, now).not_before <= 825
            * DAY,
{
}

/// A leaf certificate is valid from before it is made until after.
pub proof fn leaf_certificates_are_valid_when_made(name: Seq<char>, ips: Seq<Ip>, now: int)
    ensures
        leaf_request(name, ips, now).not_before < now < leaf_request(name, ips, now).not_after,
{
}

/// The parameters of the CA certificate of the machine `host`, made at `now`.
pub fn ca_params(host: &str, now: i64) -> (r: Result<rcgen::CertificateParams, CaError>)
    ensures
        match r {
            Ok(params) => expressible(now as int, CA_VALIDITY_DAYS as int) && requested(params)
                == ca_request(host@, now as int),
            Err(CaError::Clock) => !expressible(now as int, CA_VALIDITY_DAYS as int),
            Err(_) => false,
        },
{
    if now < FIRST_SECOND + DAY || now > LAST_SECOND - CA_VALIDITY_DAYS * DAY {
        return Err(CaError::Clock);
    }
    let names: Vec<String> = Vec::new();
    assert(text::texts(names@) =~= Seq::<Seq<char>>::empty());
    let mut params = match params_for(names) {
        Ok(params) => params,
        Err(e) => {
            return Err(CaError::LeafParams(e));
        },
    };
    make_ca(&mut params);
    allow(&mut params, Usage::KeyCertSign);
    allow(&mut params, Usage::CrlSign);
    allow(&mut params, Usage::DigitalSignature);
    let mut common_name: String = "lclhst CA (".to_owned();
    common_name.append(host);
    common_name.append(")");
    set_common_name(&mut params, common_name);
    set_organization(&mut params, "lclhst");
    set_validity(&mut params, now - DAY, now + CA_VALIDITY_DAYS * DAY);
    assert(requested(params) =~= ca_request(host@, now as int));
    Ok(params)
}

/// The names of a leaf certificate can only be DNS names.
pub proof fn lemma_leaf_names(name: Seq<char>)
    requires
        protocol::valid_label(name),
    ensures
        dns_names(leaf_names(name)),
{
    protocol::lemma_label_bytes(name);
    reveal_strlit(".localhost");
    reveal_strlit(".local");
    reveal_strlit("localhost");
    let names = leaf_names(name);
    let n = name.len() as int;
    assert(names[0][n + 1] == 'l');
    assert(names[1][n + 1] == 'l');
    assert(names[2][0] == 'l');
}

/// The parameters of the leaf certificate of a share under the given
/// addresses, made at `now`.
pub fn leaf_params(name: &str, ips: &[Ip], now: i64) -> (r: Result<
    rcgen::CertificateParams,
    CaError,
>)
    ensures
        match r {
            Ok(params) => {
                &&& protocol::valid_label(name@)
                &&& expressible(now as int, LEAF_VALIDITY_DAYS as int)
                &&& requested(params) == leaf_request(name@, ips@, now as int)
            },
            Err(CaError::InvalidName(n)) => !protocol::valid_label(name@) && n@ == name@,
            Err(CaError::Clock) => {
                &&& protocol::valid_label(name@)
                &&& !expressible(now as int, LEAF_VALIDITY_DAYS as int)
            },
            Err(_) => false,
        },
{
    if !protocol::valid_name(name) {
        return Err(CaError::InvalidName(name.to_owned()));
    }
    if now < FIRST_SECOND + DAY || now > LAST_SECOND - LEAF_VALIDITY_DAYS * DAY {
        return Err(CaError::Clock);
    }
    let names = tls::share_names(name);
    proof {
        lemma_leaf_names(name@);
    }
    let mut params = match params_for(names) {
        Ok(params) => params,
        Err(e) => {
            return Err(CaError::LeafParams(e));
        },
    };
    let ghost start = requested(params);
    let mut i: usize = 0;
    assert(ips@.take(0) =~= Seq::<Ip>::empty());
    while i < ips.len()
        invariant
            i <= ips@.len(),
            start.ips == Seq::<Ip>::empty(),
            start.nothing_else,
            requested(params) == (Request { ips: ips@.take(i as int), ..start }),
        decreases ips@.len() - i,
    {
        add_ip(&mut params, ips[i]);
        assert(ips@.take(i + 1) =~= ips@.take(i as int).push(ips@[i as int]));
        i = i + 1;
    }
    assert(ips@.take(i as int) =~= ips@);
    allow_server_auth(&mut params);
    allow(&mut params, Usage::DigitalSignature);
    allow(&mut params, Usage::KeyEncipherment);
    let mut common_name: String = name.to_owned();
    common_name.append(".local");
    set_common_name(&mut params, common_name);
    set_validity(&mut params, now - DAY, now + LEAF_VALIDITY_DAYS * DAY);
    assert(requested(params) =~= leaf_request(name@, ips@, now as int));
    Ok(params)
}

/// The certificate authority: its certificate and its private key, as PEM.
#[derive(Debug)]
pub struct Ca {
    cert_pem: String,
    key_pem: String,
}

/// The certificate authority, by its texts.
#[verifier::ext_equal]
pub struct CaView {
    pub cert_pem: Seq<char>,
    pub key_pem: Seq<char>,
}

impl View for Ca {
    type V = CaView;

    closed spec fn view(&self) -> CaView {
        CaView { cert_pem: self.cert_pem@, key_pem: self.key_pem@ }
    }
}

impl CaView {
    /// The key can be used and the certificate be read.
    pub open spec fn wf(self) -> bool {
        key_in_pem(self.key_pem) is Some && is_issuer_pem(self.cert_pem)
    }

    /// There is a certificate, and its subject can be written into others.
    pub open spec fn can_issue(self) -> bool {
        tls::certificate_in_pem(self.cert_pem) is Some && subject::subject_can_be_written(
            tls::certificate_in_pem(self.cert_pem)->0,
        )
    }

    /// The certificate is the one that was asked for, and signed with its own
    /// key.
    pub open spec fn made_for(self, request: Request) -> bool {
        tls::certificate_in_pem(self.cert_pem) is Some && certifies(
            tls::certificate_in_pem(self.cert_pem)->0,
            request,
            key_in_pem(self.key_pem)->0,
            None,
            key_in_pem(self.key_pem)->0,
        )
    }
}

/// A file to be written to the CA's directory.
#[derive(Debug)]
pub struct StoredFile {
    pub name: &'static str,
    pub contents: String,
    /// Whether only its owner may access it (`KEY_FILE_MODE`).
    pub private: bool,
}

/// The files that a CA is stored in: the certificate, then the key, which is
/// private.
pub open spec fn stores(files: Seq<StoredFile>, ca: CaView) -> bool {
    &&& files.len() == 2
    &&& files[0].name@ == CA_CERT_FILE@ && files[0].contents@ == ca.cert_pem && !files[0].private
    &&& files[1].name@ == CA_KEY_FILE@ && files[1].contents@ == ca.key_pem && files[1].private
}

/// What loading a stored certificate and key gives.
pub open spec fn load_outcome(
    cert_pem: Seq<char>,
    key_pem: Seq<char>,
    r: Result<Ca, CaError>,
) -> bool {
    match r {
        Ok(ca) => ca@ == (CaView { cert_pem, key_pem }) && ca@.wf(),
        Err(CaError::ParsingKey(_)) => key_in_pem(key_pem) is None,
        Err(CaError::ParsingCert(_)) => key_in_pem(key_pem) is Some && !is_issuer_pem(cert_pem),
        Err(_) => false,
    }
}

/// Whether a CA was made for the machine `host` at `now`, and can issue others.
pub open spec fn created(ca: CaView, host: Seq<char>, now: int) -> bool {
    &&& expressible(now, CA_VALIDITY_DAYS as int)
    &&& ca.made_for(ca_request(host, now))
    &&& is_fresh(key_in_pem(ca.key_pem)->0)
    &&& ca.can_issue()
    &&& text::begins(ca.cert_pem, PEM_HEADER@)
}

/// Whether a CA was made for the machine `host` at the time that the clock was
/// read.
pub open spec fn is_ca_of(ca: CaView, host: Seq<char>) -> bool {
    exists|now: i64| #[trigger] clock_reads(now) && created(ca, host, now as int)
}

/// Whether this is why no CA is made for the machine `host` at `now`.
pub open spec fn not_created(host: Seq<char>, now: int, e: CaError) -> bool {
    if !expressible(now, CA_VALIDITY_DAYS as int) {
        e is Clock
    } else {
        match e {
            CaError::GeneratingKey(cause) => key_making_gives(Err(cause)),
            CaError::SelfSigning(cause) => self_signing_fails(ca_request(host, now), cause),
            _ => false,
        }
    }
}

/// Whether this is why no CA is made for the machine `host`, at the time that
/// the clock was read.
pub open spec fn is_no_ca_of(host: Seq<char>, e: CaError) -> bool {
    exists|now: i64| #[trigger] clock_reads(now) && not_created(host, now as int, e)
}

/// Whether a server with these settings shows a leaf certificate that was
/// minted from the CA at `now` for the share and the addresses, followed by
/// the certificate of the CA, and speaks HTTP/1.1.
pub open spec fn shows_leaf(
    config: rustls::ServerConfig,
    ca: CaView,
    name: Seq<char>,
    ips: Seq<Ip>,
    now: int,
) -> bool {
    let shown = tls::presented(config);
    &&& expressible(now, LEAF_VALIDITY_DAYS as int)
    &&& shown.chain.len() == 2
    &&& tls::certificate_in_pem(ca.cert_pem) == Some(shown.chain[1])
    &&& certifies(
        shown.chain[0],
        leaf_request(name, ips, now),
        shown.key,
        Some(shown.chain[1]),
        key_in_pem(ca.key_pem)->0,
    )
    &&& is_fresh(shown.key)
    &&& shown.protocols == seq![vstd::utf8::encode_utf8(tls::HTTP_1_1@)]
}

/// Whether a server with these settings shows a leaf certificate that was
/// minted from the CA for the share and the addresses, at the time that the
/// clock was read.
pub open spec fn serves_share(
    config: rustls::ServerConfig,
    ca: CaView,
    name: Seq<char>,
    ips: Seq<Ip>,
) -> bool {
    exists|now: i64| #[trigger] clock_reads(now) && shows_leaf(config, ca, name, ips, now as int)
}

/// Whether this is why no leaf certificate of a share and addresses is minted
/// from the CA at `now`. The name comes first, then the times, the certificate
/// of the CA, and its subject; where all is well with them, making, signing or
/// serving the leaf can still fail.
pub open spec fn refused_at(
    ca: CaView,
    name: Seq<char>,
    ips: Seq<Ip>,
    now: int,
    e: CaError,
) -> bool {
    if !protocol::valid_label(name) {
        e matches CaError::InvalidName(n) && n@ == name
    } else if !expressible(now, LEAF_VALIDITY_DAYS as int) {
        e is Clock
    } else if tls::certificate_in_pem(ca.cert_pem) is None {
        e matches CaError::Chain(cause) && cause is Pem
    } else if !ca.can_issue() {
        e is IssuerSubject
    } else {
        match e {
            CaError::GeneratingLeafKey(cause) => key_making_gives(Err(cause)),
            CaError::SigningLeaf(cause) => signing_fails(
                leaf_request(name, ips, now),
                tls::certificate_in_pem(ca.cert_pem)->0,
                ca.key_pem,
                cause,
            ),
            CaError::Chain(tls::ChainError::Tls(_)) => leaf_is_refused(ca, name, ips, now),
            _ => false,
        }
    }
}

/// Whether a leaf certificate that was minted from the CA at `now` for the share
/// and the addresses cannot be served with its key.
pub open spec fn leaf_is_refused(ca: CaView, name: Seq<char>, ips: Seq<Ip>, now: int) -> bool {
    exists|leaf: Seq<u8>, key: Seq<u8>|
        {
            &&& #[trigger] certifies(
                leaf,
                leaf_request(name, ips, now),
                key,
                tls::certificate_in_pem(ca.cert_pem),
                key_in_pem(ca.key_pem)->0,
            )
            &&& is_fresh(key)
            &&& !tls::can_be_served(seq![leaf, tls::certificate_in_pem(ca.cert_pem)->0], key)
        }
}

/// Whether this is why no leaf certificate of a share and addresses is minted
/// from the CA, at the time that the clock was read.
pub open spec fn refused(ca: CaView, name: Seq<char>, ips: Seq<Ip>, e: CaError) -> bool {
    exists|now: i64| #[trigger] clock_reads(now) && refused_at(ca, name, ips, now as int, e)
}

/// What minting a leaf certificate for a share and addresses from the CA gives.
pub open spec fn mint_outcome(
    ca: CaView,
    name: Seq<char>,
    ips: Seq<Ip>,
    r: Result<rustls::ServerConfig, CaError>,
) -> bool {
    match r {
        Ok(config) => protocol::valid_label(name) && ca.can_issue() && serves_share(
            config,
            ca,
            name,
            ips,
        ),
        Err(e) => refused(ca, name, ips, e),
    }
}

/// The text of a stored file, if it is there.
pub open spec fn stored_text(file: Option<String>) -> Option<Seq<char>> {
    match file {
        Some(s) => Some(s@),
        None => None,
    }
}

/// What `Ca::load_or_create` gives on the machine `host`: the stored CA and no
/// files to write, where the certificate and the key are both there; else a
/// new CA with the files to store it in.
pub open spec fn load_or_create_outcome(
    cert_pem: Option<Seq<char>>,
    key_pem: Option<Seq<char>>,
    host: Seq<char>,
    r: Result<(Ca, Vec<StoredFile>), CaError>,
) -> bool {
    match (cert_pem, key_pem) {
        (Some(cert), Some(key)) => match r {
            Ok((ca, files)) => load_outcome(cert, key, Ok::<Ca, CaError>(ca)) && files@.len() == 0,
            Err(e) => load_outcome(cert, key, Err::<Ca, CaError>(e)),
        },
        _ => match r {
            Ok((ca, files)) => ca@.wf() && stores(files@, ca@) && is_ca_of(ca@, host),
            Err(e) => is_no_ca_of(host, e),
        },
    }
}

impl Ca {
    /// The CA with this certificate and key.
    pub fn load(cert_pem: String, key_pem: String) -> (r: Result<Ca, CaError>)
        ensures
            load_outcome(cert_pem@, key_pem@, r),
    {
        match read_key(key_pem.as_str()) {
            Ok(()) => {},
            Err(e) => {
                return Err(CaError::ParsingKey(e));
            },
        }
        match read_issuer(cert_pem.as_str(), key_pem.as_str()) {
            Ok(()) => Ok(Ca { cert_pem, key_pem }),
            Err(e) => Err(CaError::ParsingCert(e)),
        }
    }

    /// A new CA for the machine `host`, made at `now`.
    pub fn create_at(host: &str, now: i64) -> (r: Result<Ca, CaError>)
        ensures
            match r {
                Ok(ca) => ca@.wf() && created(ca@, host@, now as int),
                Err(e) => not_created(host@, now as int, e),
            },
    {
        let params = match ca_params(host, now) {
            Ok(params) => params,
            Err(e) => {
                return Err(e);
            },
        };
        let made = generate_key();
        assert(key_making_gives(made));
        let key = match made {
            Ok(key) => key,
            Err(e) => {
                return Err(CaError::GeneratingKey(e));
            },
        };
        match self_sign(&params, key.pem.as_str()) {
            Ok(cert_pem) => Ok(Ca { cert_pem, key_pem: key.pem }),
            Err(e) => Err(CaError::SelfSigning(e)),
        }
    }

    /// The stored CA, where its certificate and its key are both there, or a
    /// new one, with the files to store it in. `host` is what the `hostname`
    /// command printed.
    pub fn load_or_create(
        cert_pem: Option<String>,
        key_pem: Option<String>,
        host: Option<Vec<u8>>,
    ) -> (r: Result<(Ca, Vec<StoredFile>), CaError>)
        ensures
            load_or_create_outcome(
                stored_text(cert_pem),
                stored_text(key_pem),
                host_text(output(host)),
                r,
            ),
    {
        if let (Some(cert), Some(key)) = (cert_pem, key_pem) {
            return match Ca::load(cert, key) {
                Ok(ca) => Ok((ca, Vec::new())),
                Err(e) => Err(e),
            };
        }
        let host = hostname(host);
        let now = now();
        assert(clock_reads(now));
        match Ca::create_at(host.as_str(), now) {
            Ok(ca) => {
                let mut files: Vec<StoredFile> = Vec::new();
                files.push(
                    StoredFile { name: CA_CERT_FILE, contents: ca.cert_pem.clone(), private: false },
                );
                files.push(
                    StoredFile { name: CA_KEY_FILE, contents: ca.key_pem.clone(), private: true },
                );
                Ok((ca, files))
            },
            Err(e) => Err(e),
        }
    }

    /// The CA certificate in PEM form: what devices install to trust us.
    pub fn cert_pem(&self) -> (r: &str)
        ensures
            r@ == self@.cert_pem,
    {
        self.cert_pem.as_str()
    }

    /// Mint a leaf certificate for `<name>.localhost`, `<name>.local` and
    /// `localhost` plus the given addresses, as of `now`, and build the
    /// settings of a server from it.
    pub fn server_config_at(&self, name: &str, ips: &[Ip], now: i64) -> (r: Result<
        rustls::ServerConfig,
        CaError,
    >)
        ensures
            match r {
                Ok(config) => {
                    &&& protocol::valid_label(name@)
                    &&& self@.can_issue()
                    &&& shows_leaf(config, self@, name@, ips@, now as int)
                },
                Err(e) => refused_at(self@, name@, ips@, now as int, e),
            },
    {
        let params = match leaf_params(name, ips, now) {
            Ok(params) => params,
            Err(e) => {
                return Err(e);
            },
        };
        let issuer = match tls::certificate_of(self.cert_pem.as_str()) {
            Ok(issuer) => issuer,
            Err(e) => {
                return Err(CaError::Chain(tls::ChainError::Pem(e)));
            },
        };
        if !subject::subject_writes_back(issuer.as_slice()) {
            return Err(CaError::IssuerSubject);
        }
        let made = generate_key();
        assert(key_making_gives(made));
        let key = match made {
            Ok(key) => key,
            Err(e) => {
                return Err(CaError::GeneratingLeafKey(e));
            },
        };
        let leaf = match sign(
            &params,
            key.pem.as_str(),
            issuer.as_slice(),
            self.key_pem.as_str(),
        ) {
            Ok(leaf) => leaf,
            Err(e) => {
                return Err(CaError::SigningLeaf(e));
            },
        };
        match tls::leaf_config(leaf, key.der, issuer) {
            Ok(config) => Ok(config),
            Err(e) => Err(CaError::Chain(tls::ChainError::Tls(e))),
        }
    }

    /// Mint a leaf certificate for `<name>.localhost`, `<name>.local` and
    /// `localhost` plus the given addresses, and build the settings of a
    /// server from it.
    pub fn server_config(&self, name: &str, ips: &[Ip]) -> (r: Result<
        rustls::ServerConfig,
        CaError,
    >)
        ensures
            mint_outcome(self@, name@, ips@, r),
    {
        let now = now();
        assert(clock_reads(now));
        self.server_config_at(name, ips, now)
    }

    /// Where the CA lives by default: `$XDG_CONFIG_HOME/lclhst`, else
    /// `~/.config/lclhst`, else `./lclhst`, as a directory and what to append
    /// to it. `P` is whatever stands for a directory.
    pub fn default_dir<P>(xdg_config_home: Option<P>, home: Option<P>) -> (r: (
        Option<P>,
        Vec<&'static str>,
    ))
        ensures
            match (xdg_config_home, home) {
                (Some(_), _) => r.0 == xdg_config_home && r.1@ == seq!["lclhst"],
                (None, Some(_)) => r.0 == home && r.1@ == seq![".config", "lclhst"],
                (None, None) => r.0 is None && r.1@ == seq![".", "lclhst"],
            },
    {
        let mut parts: Vec<&'static str> = Vec::new();
        if xdg_config_home.is_some() {
            parts.push("lclhst");
            return (xdg_config_home, parts);
        }
        if home.is_some() {
            parts.push(".config");
            parts.push("lclhst");
            return (home, parts);
        }
        parts.push(".");
        parts.push("lclhst");
        (None, parts)
    }
}

/// A CA that has been created and stored is the one that is loaded from then
/// on: where nothing is stored, the first call makes a CA with a certificate in
/// PEM and hands out the two files to store it in; with these, every later call
/// succeeds, gives the same CA, and writes nothing.
pub proof fn a_stored_ca_is_reused(
    host: Seq<char>,
    ca: Ca,
    files: Vec<StoredFile>,
    later_host: Seq<char>,
    later: Result<(Ca, Vec<StoredFile>), CaError>,
)
    requires
        load_or_create_outcome(None, None, host, Ok((ca, files))),
        load_or_create_outcome(
            Some(files@[0].contents@),
            Some(files@[1].contents@),
            later_host,
            later,
        ),
    ensures
        text::begins(ca@.cert_pem, PEM_HEADER@),
        stores(files@, ca@),
        later matches Ok((again, written)) && again@ == ca@ && written@.len() == 0,
{
}

/// A CA that was made here issues the certificate of every share with a valid
/// name, unless the clock is off, or making, signing or serving it fails: it is
/// never refused for the CA's own certificate.
pub proof fn a_created_ca_is_never_in_the_way(
    ca: CaView,
    host: Seq<char>,
    name: Seq<char>,
    ips: Seq<Ip>,
    e: CaError,
)
    requires
        is_ca_of(ca, host),
        protocol::valid_label(name),
        refused(ca, name, ips, e),
    ensures
        e is Clock || e is GeneratingLeafKey || e is SigningLeaf || (e matches CaError::Chain(cause)
            && cause is Tls),
{
}

/// The CA that is made on first use is valid when it is made: with `t` what the
/// clock said in the call, its certificate runs from a day before `t` to 3650 days
/// after. It is for a CA that signs certificates, named after the machine, with a
/// key of its own, made for it, which also signed it.
pub proof fn a_new_ca_is_valid_when_made(
    cert_pem: Option<Seq<char>>,
    key_pem: Option<Seq<char>>,
    host: Seq<char>,
    ca: Ca,
    files: Vec<StoredFile>,
)
    requires
        cert_pem is None || key_pem is None,
        load_or_create_outcome(cert_pem, key_pem, host, Ok((ca, files))),
    ensures
        exists|t: i64, request: Request|
            {
                &&& #[trigger] clock_reads(t)
                &&& request.not_before == t - 86_400
                &&& request.not_after == t + 3650 * 86_400
                &&& request.is_ca && !request.server_auth && request.nothing_else
                &&& request.names.len() == 0 && request.ips.len() == 0
                &&& request.common_name == "lclhst CA ("@ + host + ")"@
                &&& request.organization == Some("lclhst"@)
                &&& request.usages == seq![
                    Usage::KeyCertSign,
                    Usage::CrlSign,
                    Usage::DigitalSignature,
                ]
                &&& #[trigger] certifies(
                    tls::certificate_in_pem(ca@.cert_pem)->0,
                    request,
                    key_in_pem(ca@.key_pem)->0,
                    None,
                    key_in_pem(ca@.key_pem)->0,
                )
            },
        tls::certificate_in_pem(ca@.cert_pem) is Some,
        key_in_pem(ca@.key_pem) is Some,
        exists|made: FreshKey| #[trigger]
            key_making_gives(Ok(made)) && key_in_pem(ca@.key_pem) == Some(made.der@),
        is_issuer_pem(ca@.cert_pem),
        text::begins(ca@.cert_pem, "-----BEGIN CERTIFICATE-----"@),
{
    let t = choose|t: i64| #[trigger] clock_reads(t) && created(ca@, host, t as int);
    assert(clock_reads(t) && created(ca@, host, t as int));
    let request = ca_request(host, t as int);
    assert(ca@.made_for(request));
    assert(is_fresh(key_in_pem(ca@.key_pem)->0));
}

/// A CA is stored in two files: the certificate for everyone, and the key for its
/// owner alone. What is loaded from two files is the CA with exactly their texts.
pub proof fn a_ca_is_its_two_files(
    ca: CaView,
    files: Seq<StoredFile>,
    cert_pem: Seq<char>,
    key_pem: Seq<char>,
    r: Result<Ca, CaError>,
)
    ensures
        stores(files, ca) <==> {
            &&& files.len() == 2
            &&& files[0].name@ == "rootCA.pem"@ && files[0].contents@ == ca.cert_pem
                && !files[0].private
            &&& files[1].name@ == "rootCA-key.pem"@ && files[1].contents@ == ca.key_pem
                && files[1].private
        },
        load_outcome(cert_pem, key_pem, r) ==> {
            &&& r is Ok <==> key_in_pem(key_pem) is Some && is_issuer_pem(cert_pem)
            &&& r matches Ok(loaded) ==> loaded@.cert_pem == cert_pem && loaded@.key_pem == key_pem
            &&& r matches Err(e) ==> {
                &&& e is ParsingKey <==> key_in_pem(key_pem) is None
                &&& e is ParsingCert <==> key_in_pem(key_pem) is Some && !is_issuer_pem(cert_pem)
            }
        },
{
}

/// What `Ca::load_or_create` gives where both files are there is what loading
/// them gives, and nothing is written; where one is missing, what is made is
/// handed out to be stored.
pub proof fn a_ca_is_made_only_where_a_file_is_missing(
    cert_pem: Option<Seq<char>>,
    key_pem: Option<Seq<char>>,
    host: Seq<char>,
    r: Result<(Ca, Vec<StoredFile>), CaError>,
)
    requires
        load_or_create_outcome(cert_pem, key_pem, host, r),
    ensures
        (cert_pem matches Some(cert) && key_pem matches Some(key)) ==> {
            &&& r is Ok <==> key_in_pem(key_pem->0) is Some && is_issuer_pem(cert_pem->0)
            &&& r matches Ok((ca, files)) ==> ca@.cert_pem == cert_pem->0 && ca@.key_pem
                == key_pem->0 && files@.len() == 0
        },
        cert_pem is None || key_pem is None ==> (r matches Ok((ca, files)) ==> {
            &&& files@.len() == 2
            &&& files@[0].contents@ == ca@.cert_pem && !files@[0].private
            &&& files@[1].contents@ == ca@.key_pem && files@[1].private
        }),
        cert_pem is None || key_pem is None ==> (r matches Err(e) ==> match e {
            CaError::Clock => exists|t: i64| #[trigger]
                clock_reads(t) && (t - 86_400 < -62_167_219_200 || t + 3650 * 86_400
                    > 253_402_300_799),
            CaError::GeneratingKey(cause) => key_making_gives(Err(cause)),
            CaError::SelfSigning(cause) => exists|t: i64| #[trigger]
                clock_reads(t) && self_signing_fails(ca_request(host, t as int), cause),
            _ => false,
        }),
{
    if cert_pem is None || key_pem is None {
        if let Err(e) = r {
            assert(is_no_ca_of(host, e));
            let t = choose|t: i64| #[trigger] clock_reads(t) && not_created(host, t as int, e);
            assert(clock_reads(t) && not_created(host, t as int, e));
        }
    }
}

/// A minted certificate is valid when it is made: with `t` what the clock said in
/// the call, it runs from a day before `t` to 398 days after. It is for a server,
/// not a CA, covers the three names of the share and exactly the given addresses,
/// goes with a key that was made for it, is signed with the CA's key, and is shown
/// followed by the CA's certificate.
pub proof fn a_minted_leaf_is_valid_when_made(
    ca: CaView,
    name: Seq<char>,
    ips: Seq<Ip>,
    config: rustls::ServerConfig,
)
    requires
        mint_outcome(ca, name, ips, Ok(config)),
    ensures
        tls::presented(config).chain.len() == 2,
        tls::certificate_in_pem(ca.cert_pem) == Some(tls::presented(config).chain[1]),
        tls::presented(config).protocols == seq![vstd::utf8::encode_utf8("http/1.1"@)],
        exists|made: FreshKey| #[trigger]
            key_making_gives(Ok(made)) && tls::presented(config).key == made.der@,
        exists|t: i64, request: Request|
            {
                &&& #[trigger] clock_reads(t)
                &&& request.not_before == t - 86_400
                &&& request.not_after == t + 398 * 86_400
                &&& !request.is_ca && request.server_auth && request.nothing_else
                &&& request.names == seq![name + ".localhost"@, name + ".local"@, "localhost"@]
                &&& request.ips == ips
                &&& request.common_name == name + ".local"@
                &&& request.organization is None
                &&& request.usages == seq![Usage::DigitalSignature, Usage::KeyEncipherment]
                &&& #[trigger] certifies(
                    tls::presented(config).chain[0],
                    request,
                    tls::presented(config).key,
                    tls::certificate_in_pem(ca.cert_pem),
                    key_in_pem(ca.key_pem)->0,
                )
            },
{
    assert(serves_share(config, ca, name, ips));
    let t = choose|t: i64| #[trigger]
        clock_reads(t) && shows_leaf(config, ca, name, ips, t as int);
    assert(clock_reads(t) && shows_leaf(config, ca, name, ips, t as int));
    let request = leaf_request(name, ips, t as int);
    assert(certifies(
        tls::presented(config).chain[0],
        request,
        tls::presented(config).key,
        tls::certificate_in_pem(ca.cert_pem),
        key_in_pem(ca.key_pem)->0,
    ));
    assert(is_fresh(tls::presented(config).key));
}

/// A share is refused a certificate for one reason at a time: its name, the clock,
/// the CA's text, the CA's subject, or a call that failed.
pub proof fn refusals_have_their_reasons(
    ca: CaView,
    name: Seq<char>,
    ips: Seq<Ip>,
    r: Result<rustls::ServerConfig, CaError>,
)
    requires
        mint_outcome(ca, name, ips, r),
    ensures
        !protocol::valid_label(name) <==> (r matches Err(CaError::InvalidName(n)) && n@ == name),
        r matches Err(CaError::Clock) ==> exists|t: i64| #[trigger]
            clock_reads(t) && (t - 86_400 < -62_167_219_200 || t + 398 * 86_400
                > 253_402_300_799),
        r matches Err(CaError::Chain(tls::ChainError::Pem(_))) ==> tls::certificate_in_pem(
            ca.cert_pem,
        ) is None,
        r is Err && tls::certificate_in_pem(ca.cert_pem) is None ==> (r matches Err(e) && (e
            is InvalidName || e is Clock || e is Chain)),
        r matches Err(CaError::IssuerSubject) ==> tls::certificate_in_pem(ca.cert_pem) is Some
            && !subject::subject_can_be_written(tls::certificate_in_pem(ca.cert_pem)->0),
        r matches Err(CaError::GeneratingLeafKey(cause)) ==> key_making_gives(Err(cause)),
        r matches Err(CaError::SigningLeaf(cause)) ==> exists|t: i64| #[trigger]
            clock_reads(t) && signing_fails(
                leaf_request(name, ips, t as int),
                tls::certificate_in_pem(ca.cert_pem)->0,
                ca.key_pem,
                cause,
            ),
        r matches Err(e) ==> !(e is ParsingKey || e is ParsingCert || e is GeneratingKey || e
            is SelfSigning || e is LeafParams),
{
    if let Err(e) = r {
        let t = choose|t: i64| #[trigger]
            clock_reads(t) && refused_at(ca, name, ips, t as int, e);
        assert(clock_reads(t) && refused_at(ca, name, ips, t as int, e));
    }
}

/// A machine goes by what the `hostname` command printed, without the white space
/// around it; where that is nothing, or no text, or the command could not be run,
/// its name is not known.
pub proof fn machines_go_by_their_host_name(a: Seq<char>, name: Seq<char>, b: Seq<char>)
    requires
        forall|i: int| 0 <= i < a.len() ==> text::is_space(#[trigger] a[i]),
        forall|i: int| 0 <= i < b.len() ==> text::is_space(#[trigger] b[i]),
        name.len() > 0 ==> !text::is_space(name[0]) && !text::is_space(name.last()),
    ensures
        host_text(Some(vstd::utf8::encode_utf8(a + name + b))) == (if name.len() > 0 {
            name
        } else {
            "unknown-host"@
        }),
        host_text(None) == "unknown-host"@,
        forall|bytes: Seq<u8>|
            !vstd::utf8::valid_utf8(bytes) ==> #[trigger] host_text(Some(bytes))
                == "unknown-host"@,
{
    let all = a + name + b;
    vstd::utf8::encode_utf8_valid_utf8(all);
    vstd::utf8::encode_utf8_decode_utf8(all);
    text::trimming_takes_white_space_off(a, name, b);
}

/// Stored files and the output of a command are taken as they are.
pub proof fn what_is_there_is_taken_as_it_is(file: Option<String>, stdout: Option<Vec<u8>>)
    ensures
        file is None <==> stored_text(file) is None,
        file matches Some(s) ==> stored_text(file) == Some(s@),
        stdout is None <==> output(stdout) is None,
        stdout matches Some(bytes) ==> output(stdout) == Some(bytes@),
{
}

} // verus!
