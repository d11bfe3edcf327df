use lclhst::ca::{Ca, CaError};
use lclhst::subject::subject_writes_back;
use lclhst::tls::ChainError;

/// A CA certificate with an organization as a printable string and an attribute
/// of another type, and its private key.
fn issuer(organization: &str, other: &[u64]) -> (Vec<u8>, String) {
    let mut params = rcgen::CertificateParams::new(Vec::<String>::new()).unwrap();
    params.is_ca = rcgen::IsCa::Ca(rcgen::BasicConstraints::Unconstrained);
    let printable: rcgen::string::PrintableString = organization.try_into().unwrap();
    params.distinguished_name = rcgen::DistinguishedName::new();
    params.distinguished_name.push(
        rcgen::DnType::OrganizationName,
        rcgen::DnValue::PrintableString(printable),
    );
    params
        .distinguished_name
        .push(rcgen::DnType::CustomDnType(other.to_vec()), "other");
    let key = rcgen::KeyPair::generate().unwrap();
    let cert = params.self_signed(&key).unwrap();
    (cert.der().to_vec(), key.serialize_pem())
}

/// The bytes with every occurrence of a part replaced by one as long.
fn patched(der: &[u8], from: &[u8], to: &[u8]) -> Vec<u8> {
    assert_eq!(from.len(), to.len());
    let mut out = der.to_vec();
    let mut found = 0;
    for i in 0..out.len() - from.len() + 1 {
        if &der[i..i + from.len()] == from {
            out[i..i + from.len()].copy_from_slice(to);
            found += 1;
        }
    }
    assert!(found >= 2, "in the issuer and in the subject");
    out
}

fn pem(der: &[u8]) -> String {
    let digits = b"ABCDEFGHIJKLMNOPQRSTUVWXYZabcdefghijklmnopqrstuvwxyz0123456789+/";
    let mut text = String::new();
    for chunk in der.chunks(3) {
        let mut bits: u32 = 0;
        for i in 0..3 {
            bits = bits * 256 + chunk.get(i).copied().unwrap_or(0) as u32;
        }
        for i in 0..4 {
            if i <= chunk.len() {
                text.push(digits[(bits >> (18 - 6 * i)) as usize % 64] as char);
            } else {
                text.push('=');
            }
        }
    }
    let mut out = String::from("-----BEGIN CERTIFICATE-----\n");
    for line in text.as_bytes().chunks(64) {
        out.push_str(std::str::from_utf8(line).unwrap());
        out.push('\n');
    }
    out.push_str("-----END CERTIFICATE-----\n");
    out
}

fn element(tag: u8, content: &[u8]) -> Vec<u8> {
    assert!(content.len() < 128);
    let mut out = vec![tag, content.len() as u8];
    out.extend_from_slice(content);
    out
}

fn named(kind: &[u8], value: &[u8]) -> Vec<u8> {
    let pair = [element(6, kind), value.to_vec()].concat();
    element(0x31, &element(0x30, &pair))
}

/// As much of a certificate as there is up to its subject.
fn certificate(version: bool, name: &[u8]) -> Vec<u8> {
    let mut signed = Vec::new();
    if version {
        signed.extend(element(0xa0, &[2, 1, 2]));
    }
    signed.extend(element(2, &[1]));
    signed.extend(element(0x30, &[]));
    signed.extend(element(0x30, b"?"));
    signed.extend(element(0x30, &[]));
    signed.extend(element(0x30, name));
    element(0x30, &element(0x30, &signed))
}

const COMMON_NAME: [u8; 3] = [0x55, 4, 3];

#[test]
fn issuers_with_ordinary_subjects_sign() {
    let (der, key) = issuer("Whox", &[2, 5, 4, 99]);
    assert!(subject_writes_back(&der));
    let ca = Ca::load(pem(&der), key).unwrap();
    assert!(ca.server_config("myapp", &[]).is_ok());
}

#[test]
fn issuers_with_a_question_mark_in_a_printable_string_do_not_sign() {
    let (der, key) = issuer("Whox", &[2, 5, 4, 99]);
    let der = patched(&der, b"Whox", b"Who?");
    assert!(!subject_writes_back(&der));
    let ca = Ca::load(pem(&der), key).unwrap();
    let e = ca.server_config("myapp", &[]).unwrap_err();
    assert!(matches!(e, CaError::IssuerSubject));
    assert_eq!(
        e.context().unwrap(),
        "the CA certificate has a subject that cannot be written"
    );
    let e = ca.server_config("Bad.Name", &[]).unwrap_err();
    assert!(matches!(e, CaError::InvalidName(_)));
}

#[test]
fn issuers_with_an_attribute_type_out_of_range_do_not_sign() {
    let (der, key) = issuer("Whox", &[2, 5, 4, 99]);
    let der = patched(&der, &[0x55, 4, 99], &[0x88, 0x37, 1]);
    assert!(!subject_writes_back(&der));
    let ca = Ca::load(pem(&der), key).unwrap();
    let e = ca.server_config("myapp", &[]).unwrap_err();
    assert!(matches!(e, CaError::IssuerSubject));
}

#[test]
fn issuers_in_a_section_of_another_label_do_not_sign() {
    let (der, key) = issuer("Whox", &[2, 5, 4, 99]);
    let text = pem(&der).replace("CERTIFICATE-----", "X509 CERTIFICATE-----");
    let ca = Ca::load(text, key).unwrap();
    let e = ca.server_config("myapp", &[]).unwrap_err();
    assert!(matches!(e, CaError::Chain(ChainError::Pem(_))));
    assert_eq!(e.context().unwrap(), "re-encoding CA cert");
}

#[test]
fn attribute_types_need_two_numbers_in_range() {
    let text = element(12, b"x");
    for (kind, ok) in [
        (&[][..], false),
        (&[0][..], false),
        (&[1][..], true),
        (&[0, 1][..], true),
        (&[119, 1][..], true),
        (&[120, 1][..], false),
        (&[0x88, 0x37][..], false),
        (&COMMON_NAME[..], true),
    ] {
        assert_eq!(subject_writes_back(&certificate(true, &named(kind, &text))), ok, "{kind:?}");
        assert_eq!(subject_writes_back(&certificate(false, &named(kind, &text))), ok, "{kind:?}");
    }
}

#[test]
fn only_printable_strings_go_without_question_marks() {
    for (value, ok) in [
        (element(12, b"a?"), true),
        (element(22, b"a?"), true),
        (element(19, b"a"), true),
        (element(19, b""), true),
        (element(19, b"a?"), false),
        (element(19, b"?"), false),
        // The class does not matter, nor the form of the tag and the length.
        (element(0x93, b"?"), false),
        (vec![0x1f, 19, 1, b'?'], false),
        (vec![0x1f, 0x90, 0x80, 0x80, 0x80, 19, 1, b'?'], false),
        (vec![0x1f, 20, 1, b'?'], true),
        (vec![19, 0x81, 1, b'?'], false),
        (vec![19, 0x83, 0, 0, 1, b'?'], false),
    ] {
        let first = named(&COMMON_NAME, &value);
        let name = [named(&COMMON_NAME, &element(12, b"x")), first].concat();
        assert_eq!(subject_writes_back(&certificate(true, &name)), ok, "{value:?}");
    }
}

#[test]
fn subjects_are_read_as_far_as_they_go() {
    assert!(subject_writes_back(&certificate(true, &[])));
    // What follows something that is no set is not read.
    let bad = named(&COMMON_NAME, &element(19, b"?"));
    assert!(!subject_writes_back(&certificate(true, &bad)));
    let name = [element(0x30, b""), bad.clone()].concat();
    assert!(subject_writes_back(&certificate(true, &name)));
    // Nor a set of something else, or with a type made up of elements.
    assert!(subject_writes_back(&certificate(true, &[element(0x31, b""), bad.clone()].concat())));
    let kind = element(0x31, &element(0x30, &[element(0x26, b""), element(19, b"?")].concat()));
    assert!(subject_writes_back(&certificate(true, &[kind, bad].concat())));
}

#[test]
fn unreadable_certificates_have_no_subject() {
    assert!(!subject_writes_back(&[]));
    assert!(!subject_writes_back(b"no certificate"));
    let whole = certificate(true, &named(&COMMON_NAME, &element(12, b"x")));
    assert!(subject_writes_back(&whole));
    assert!(!subject_writes_back(&whole[..whole.len() - 1]));
    for length in [
        &[0x80][..],
        &[0xff][..],
        &[0x84, 0xff, 0xff, 0xff, 0xff][..],
        &[0x89, 1, 0, 0, 0, 0, 0, 0, 0, 0][..],
        &[0x81][..],
    ] {
        let mut der = vec![0x30];
        der.extend_from_slice(length);
        der.extend_from_slice(&whole[2..]);
        assert!(!subject_writes_back(&der), "{length:?}");
    }
    assert!(!subject_writes_back(&[0x1f, 0x81]));
    assert!(!subject_writes_back(&[0x1f, 0x81, 0x81, 0x81, 0x81, 0x81, 1, 0]));
}
