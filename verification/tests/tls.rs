use lclhst::tls::{leaf_config, server_config, share_names, TlsError};

#[test]
fn builds_a_server_config_for_the_name() {
    let cfg = server_config("myapp").unwrap();
    assert_eq!(cfg.alpn_protocols, vec![b"http/1.1".to_vec()]);
}

#[test]
fn tls_rejects_invalid_name() {
    assert!(server_config("Bad.Name").is_err());
    let e = server_config("Bad.Name").unwrap_err();
    assert!(matches!(e, TlsError::InvalidName(_)));
    assert_eq!(e.context().unwrap(), "invalid tunnel name: \"Bad.Name\"");
}

#[test]
fn certificates_cover_three_names() {
    assert_eq!(share_names("myapp"), vec!["myapp.localhost", "myapp.local", "localhost"]);
}

#[test]
fn leaf_config_needs_a_usable_key() {
    let made = rcgen::generate_simple_self_signed(vec!["localhost".to_string()]).unwrap();
    let der = made.cert.der().to_vec();
    assert!(leaf_config(der.clone(), vec![2], der.clone()).is_err());
    assert!(leaf_config(vec![1], made.signing_key.serialize_der(), der.clone()).is_err());
    let config = leaf_config(der.clone(), made.signing_key.serialize_der(), der).unwrap();
    assert_eq!(config.alpn_protocols, vec![b"http/1.1".to_vec()]);
}
