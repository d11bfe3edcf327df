//! TLS for the edge.

use vstd::prelude::*;

use crate::ca;
use crate::protocol;
use crate::text;

verus! {

/// The application protocol that every edge speaks.
pub const HTTP_1_1: &'static str = "http/1.1";

/// `rustls::ServerConfig`: the TLS settings of a server.
#[verifier::external_type_specification]
#[verifier::external_body]
pub struct ExServerConfig(rustls::ServerConfig);

/// `rustls::Error`: why TLS settings are refused.
#[verifier::external_type_specification]
#[verifier::external_body]
pub struct ExTlsError(rustls::Error);

/// `rustls::pki_types::pem::Error`: why a PEM text is refused.
#[verifier::external_type_specification]
#[verifier::external_body]
pub struct ExPemError(rustls::pki_types::pem::Error);

/// What a server shows to its clients.
#[verifier::ext_equal]
pub struct Presented {
    /// Its certificate, followed by those of its issuers.
    pub chain: Seq<Seq<u8>>,
    /// The PKCS #8 bytes of the private key that goes with its certificate.
    pub key: Seq<u8>,
    /// The application protocols it speaks.
    pub protocols: Seq<Seq<u8>>,
}

/// What a server with the given settings shows to its clients.
pub uninterp spec fn presented(config: rustls::ServerConfig) -> Presented;

/// The bytes of each of a list of byte vectors.
pub open spec fn byte_lists(v: Seq<Vec<u8>>) -> Seq<Seq<u8>> {
    Seq::new(v.len(), |i: int| v[i]@)
}

/// Whether a chain of certificates and a private key can be served together.
pub uninterp spec fn can_be_served(chain: Seq<Seq<u8>>, key: Seq<u8>) -> bool;

/// `rustls::ServerConfig::builder_with_provider` with the `ring` provider and
/// the default protocol versions, `with_no_client_auth`, `with_single_cert`,
/// and then its `alpn_protocols`: the settings of a server that shows this
/// chain, with this key, and speaks these protocols. Refused where the chain
/// cannot be read, the key cannot be used, or it is not the certificate's,
/// which depends on the chain and the key. That reading a key would fail with
/// the system's random source is left aside.
#[verifier::external_body]
fn single_certificate(chain: Vec<Vec<u8>>, key: Vec<u8>, protocols: Vec<Vec<u8>>) -> (r: Result<
    rustls::ServerConfig,
    rustls::Error,
>)
    ensures
        r is Ok <==> can_be_served(byte_lists(chain@), key@),
        r matches Ok(config) ==> presented(config) == (Presented {
            chain: byte_lists(chain@),
            key: key@,
            protocols: byte_lists(protocols@),
        }),
{
    let chain = chain.into_iter().map(rustls::pki_types::CertificateDer::from).collect();
    let key = rustls::pki_types::PrivateKeyDer::Pkcs8(key.into());
    let provider = std::sync::Arc::new(rustls::crypto::ring::default_provider());
    let mut config = rustls::ServerConfig::builder_with_provider(
        provider,
    ).with_safe_default_protocol_versions()?.with_no_client_auth().with_single_cert(chain, key)?;
    config.alpn_protocols = protocols;
    Ok(config)
}

/// The bytes of the first certificate in a PEM text.
pub uninterp spec fn certificate_in_pem(pem: Seq<char>) -> Option<Seq<u8>>;

/// `rustls::pki_types::CertificateDer::from_pem_slice`: the bytes of the first
/// certificate in the text, a function of the text alone.
#[verifier::external_body]
pub(crate) fn certificate_of(pem: &str) -> (r: Result<Vec<u8>, rustls::pki_types::pem::Error>)
    ensures
        r is Ok <==> certificate_in_pem(pem@) is Some,
        r matches Ok(der) ==> certificate_in_pem(pem@) == Some(der@),
{
    <rustls::pki_types::CertificateDer as rustls::pki_types::pem::PemObject>::from_pem_slice(
        pem.as_bytes(),
    ).map(|c| c.to_vec())
}

/// Why a chain of certificates could not be served.
#[derive(Debug)]
pub enum ChainError {
    /// The issuer's certificate cannot be read.
    Pem(rustls::pki_types::pem::Error),
    /// The certificate and its key were refused.
    Tls(rustls::Error),
}

/// The settings of an edge that shows these certificates and speaks HTTP/1.1.
fn edge_config(chain: Vec<Vec<u8>>, key: Vec<u8>) -> (r: Result<
    rustls::ServerConfig,
    rustls::Error,
>)
    ensures
        r is Ok <==> can_be_served(byte_lists(chain@), key@),
        r matches Ok(config) ==> presented(config) == (Presented {
            chain: byte_lists(chain@),
            key: key@,
            protocols: seq![vstd::utf8::encode_utf8(HTTP_1_1@)],
        }),
{
    let mut protocols: Vec<Vec<u8>> = Vec::new();
    protocols.push(vstd::slice::slice_to_vec(HTTP_1_1.as_bytes()));
    assert(byte_lists(protocols@) =~= seq![vstd::utf8::encode_utf8(HTTP_1_1@)]);
    single_certificate(chain, key, protocols)
}

/// The settings of an edge that shows a leaf certificate with that of its
/// issuer, and speaks HTTP/1.1.
pub fn leaf_config(leaf: Vec<u8>, key: Vec<u8>, issuer: Vec<u8>) -> (r: Result<
    rustls::ServerConfig,
    rustls::Error,
>)
    ensures
        r is Ok <==> can_be_served(seq![leaf@, issuer@], key@),
        r matches Ok(config) ==> presented(config) == (Presented {
            chain: seq![leaf@, issuer@],
            key: key@,
            protocols: seq![vstd::utf8::encode_utf8(HTTP_1_1@)],
        }),
{
    let ghost shown = seq![leaf@, issuer@];
    let mut chain: Vec<Vec<u8>> = Vec::new();
    chain.push(leaf);
    chain.push(issuer);
    assert(byte_lists(chain@) =~= shown);
    edge_config(chain, key)
}

/// The names that a share's certificate covers.
pub fn share_names(name: &str) -> (r: Vec<String>)
    ensures
        text::texts(r@) == ca::leaf_names(name@),
{
    let mut here: String = name.to_owned();
    here.append(".localhost");
    let mut lan: String = name.to_owned();
    lan.append(".local");
    let mut names: Vec<String> = Vec::new();
    names.push(here);
    names.push(lan);
    names.push("localhost".to_owned());
    assert(text::texts(names@) =~= ca::leaf_names(name@));
    names
}

/// A certificate and its private key, as DER.
#[derive(Debug)]
pub struct Identity {
    pub certificate: Vec<u8>,
    pub key: Vec<u8>,
}

/// What a certificate for the given names says when nothing else is asked of
/// it: from 1975 to 4096, under a stock subject.
pub open spec fn stock_request(names: Seq<Seq<char>>) -> ca::Request {
    ca::Request {
        names,
        ips: seq![],
        common_name: "rcgen self signed cert"@,
        organization: None,
        is_ca: false,
        usages: seq![],
        server_auth: false,
        not_before: 157_766_400,
        not_after: 67_090_118_400,
        nothing_else: true,
    }
}

/// `rcgen::generate_simple_self_signed`, with `der` of its certificate and
/// `serialize_der` of its key: a random key and a certificate for the names,
/// signed with it.
#[verifier::external_body]
fn self_signed(names: Vec<String>) -> (r: Result<Identity, rcgen::Error>)
    ensures
        r matches Ok(id) ==> (ca::dns_names(text::texts(names@)) ==> ca::certifies(
            id.certificate@,
            stock_request(text::texts(names@)),
            id.key@,
            None,
            id.key@,
        )),
{
    let made = rcgen::generate_simple_self_signed(names)?;
    Ok(Identity { certificate: made.cert.der().to_vec(), key: made.signing_key.serialize_der() })
}

/// Whether a self-signed certificate was asked for these names, and this is what came
/// of it: `self_signed` gave it.
pub closed spec fn self_signing_gives(
    names: Seq<Seq<char>>,
    r: Result<Identity, rcgen::Error>,
) -> bool {
    exists|v: Vec<String>| text::texts(v@) == names && #[trigger] call_ensures(self_signed, (v,), r)
}

/// What is said of self-signing is said of what the call gave, and of nothing else.
proof fn outcomes_are_those_of_the_call(names: Seq<Seq<char>>, r: Result<Identity, rcgen::Error>)
    ensures
        self_signing_gives(names, r) ==> exists|v: Vec<String>|
            text::texts(v@) == names && #[trigger] call_ensures(self_signed, (v,), r),
{
}

/// Whether a self-signed certificate was made for these names that cannot be served
/// with its key.
pub open spec fn self_signed_is_refused(names: Seq<Seq<char>>) -> bool {
    exists|id: Identity| #[trigger]
        self_signing_gives(names, Ok(id)) && !can_be_served(seq![id.certificate@], id.key@)
}

/// Whether a certificate and a key were made for these names.
pub open spec fn made_for(names: Seq<Seq<char>>, certificate: Seq<u8>, key: Seq<u8>) -> bool {
    exists|id: Identity| #[trigger]
        self_signing_gives(names, Ok(id)) && id.certificate@ == certificate && id.key@ == key
}

/// Why a self-signed edge could not be set up.
#[derive(Debug)]
pub enum TlsError {
    /// The name is not a valid tunnel name.
    InvalidName(String),
    /// The certificate could not be made.
    Certificate(rcgen::Error),
    /// The certificate and its key were refused.
    Tls(rustls::Error),
}

impl TlsError {
    /// What went wrong; `None` where the cause says it all.
    pub fn context(&self) -> (r: Option<String>)
        ensures
            match self {
                TlsError::InvalidName(name) => r matches Some(s) && s@
                    == protocol::invalid_name_text(name@),
                _ => r is None,
            },
    {
        match self {
            TlsError::InvalidName(name) => Some(protocol::invalid_name_message(name.as_str())),
            _ => None,
        }
    }
}

/// Whether a server with these settings shows a self-signed certificate for
/// the names of a share, and speaks HTTP/1.1.
pub open spec fn shows_self_signed(config: rustls::ServerConfig, name: Seq<char>) -> bool {
    let shown = presented(config);
    &&& shown.chain.len() == 1
    &&& ca::certifies(
        shown.chain[0],
        stock_request(ca::leaf_names(name)),
        shown.key,
        None,
        shown.key,
    )
    &&& shown.protocols == seq![vstd::utf8::encode_utf8(HTTP_1_1@)]
}

/// The settings of an edge with a self-signed certificate that covers
/// `<name>.localhost` (this machine) and `<name>.local` (the LAN, resolved via
/// mDNS).
pub fn server_config(name: &str) -> (r: Result<rustls::ServerConfig, TlsError>)
    ensures
        match r {
            Ok(config) => {
                &&& protocol::valid_label(name@)
                &&& shows_self_signed(config, name@)
                &&& made_for(
                    ca::leaf_names(name@),
                    presented(config).chain[0],
                    presented(config).key,
                )
            },
            Err(TlsError::InvalidName(n)) => !protocol::valid_label(name@) && n@ == name@,
            Err(TlsError::Certificate(e)) => protocol::valid_label(name@) && self_signing_gives(
                ca::leaf_names(name@),
                Err(e),
            ),
            Err(TlsError::Tls(_)) => protocol::valid_label(name@) && self_signed_is_refused(
                ca::leaf_names(name@),
            ),
        },
{
    if !protocol::valid_name(name) {
        return Err(TlsError::InvalidName(name.to_owned()));
    }
    proof {
        ca::lemma_leaf_names(name@);
    }
    let made = self_signed(share_names(name));
    assert(self_signing_gives(ca::leaf_names(name@), made));
    let id = match made {
        Ok(id) => id,
        Err(e) => {
            return Err(TlsError::Certificate(e));
        },
    };
    let ghost shown = seq![id.certificate@];
    let ghost whole = id;
    let mut chain: Vec<Vec<u8>> = Vec::new();
    chain.push(id.certificate);
    assert(byte_lists(chain@) =~= shown);
    assert(self_signing_gives(ca::leaf_names(name@), Ok(whole)));
    match edge_config(chain, id.key) {
        Ok(config) => {
            assert(presented(config).chain[0] == whole.certificate@);
            Ok(config)
        },
        Err(e) => Err(TlsError::Tls(e)),
    }
}

/// A self-signed edge shows one certificate, for the three names of the share and no
/// others, signed with its own key, and speaks HTTP/1.1.
pub proof fn self_signed_edges_cover_the_share(config: rustls::ServerConfig, name: Seq<char>)
    requires
        shows_self_signed(config, name),
    ensures
        presented(config).chain.len() == 1,
        presented(config).protocols == seq![vstd::utf8::encode_utf8("http/1.1"@)],
        exists|request: ca::Request|
            {
                &&& request.names == seq![name + ".localhost"@, name + ".local"@, "localhost"@]
                &&& request.ips.len() == 0
                &&& !request.is_ca
                &&& request.nothing_else
                &&& request.not_before == 157_766_400 && request.not_after == 67_090_118_400
                &&& #[trigger] ca::certifies(
                    presented(config).chain[0],
                    request,
                    presented(config).key,
                    None,
                    presented(config).key,
                )
            },
{
    let request = stock_request(ca::leaf_names(name));
    assert(ca::certifies(
        presented(config).chain[0],
        request,
        presented(config).key,
        None,
        presented(config).key,
    ));
}

/// The bytes of a list of byte vectors are those of the vectors, one for one.
pub proof fn byte_lists_are_those_of_the_vectors(v: Seq<Vec<u8>>)
    ensures
        byte_lists(v).len() == v.len(),
        forall|i: int| 0 <= i < v.len() ==> byte_lists(v)[i] == #[trigger] v[i]@,
{
}

} // verus!
