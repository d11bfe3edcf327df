use std::sync::Arc;

use lclhst::ca::Ca;
use lclhst::net::Ip;
use rustls::pki_types::pem::PemObject;
use rustls::pki_types::{CertificateDer, ServerName};
use rustls::{ClientConfig, ClientConnection, RootCertStore, ServerConfig, ServerConnection};

/// Shake hands in memory, as a visitor who trusts `root` and asks for `host`.
/// Returns the application protocol and how many certificates were shown.
fn shake_hands(
    server: ServerConfig,
    root: CertificateDer<'static>,
    host: &str,
) -> Result<(Vec<u8>, usize), rustls::Error> {
    let mut roots = RootCertStore::empty();
    roots.add(root).unwrap();
    let mut config = ClientConfig::builder()
        .with_root_certificates(roots)
        .with_no_client_auth();
    config.alpn_protocols = vec![b"h2".to_vec(), b"http/1.1".to_vec()];
    let name = ServerName::try_from(host.to_string()).unwrap();
    let mut client = ClientConnection::new(Arc::new(config), name)?;
    let mut server = ServerConnection::new(Arc::new(server))?;
    for _ in 0..20 {
        if !client.is_handshaking() && !server.is_handshaking() {
            break;
        }
        let mut wire = Vec::new();
        client.write_tls(&mut wire).unwrap();
        if !wire.is_empty() {
            server.read_tls(&mut wire.as_slice()).unwrap();
            server.process_new_packets()?;
        }
        let mut wire = Vec::new();
        while server.wants_write() {
            server.write_tls(&mut wire).unwrap();
        }
        let mut rest = wire.as_slice();
        while !rest.is_empty() {
            client.read_tls(&mut rest).unwrap();
            client.process_new_packets()?;
        }
    }
    assert!(!client.is_handshaking());
    let protocol = client.alpn_protocol().unwrap().to_vec();
    Ok((protocol, client.peer_certificates().unwrap().len()))
}

#[test]
fn devices_that_trust_the_ca_trust_its_shares() {
    let (ca, _) = Ca::load_or_create(None, None, Some(b"box\n".to_vec())).unwrap();
    let root = CertificateDer::from_pem_slice(ca.cert_pem().as_bytes()).unwrap();
    let ips = [Ip::V4(0xc0a8_010a), Ip::V6(1)];
    for host in ["myapp.localhost", "myapp.local", "localhost", "192.168.1.10", "::1"] {
        let config = ca.server_config("myapp", &ips).unwrap();
        let (protocol, shown) = shake_hands(config, root.clone(), host).unwrap();
        assert_eq!(protocol, b"http/1.1".to_vec());
        assert_eq!(shown, 2);
    }
    for host in ["other.local", "local", "192.168.1.11"] {
        let config = ca.server_config("myapp", &ips).unwrap();
        assert!(shake_hands(config, root.clone(), host).is_err(), "{host}");
    }
}

#[test]
fn a_reloaded_ca_is_trusted_like_before() {
    let (ca, files) = Ca::load_or_create(None, None, Some(b"box\n".to_vec())).unwrap();
    let root = CertificateDer::from_pem_slice(ca.cert_pem().as_bytes()).unwrap();
    let again = Ca::load(files[0].contents.clone(), files[1].contents.clone()).unwrap();
    let config = again.server_config("myapp", &[]).unwrap();
    assert!(shake_hands(config, root, "myapp.local").is_ok());
}

#[test]
fn another_ca_is_not_trusted() {
    let (ca, _) = Ca::load_or_create(None, None, None).unwrap();
    let (other, _) = Ca::load_or_create(None, None, None).unwrap();
    let root = CertificateDer::from_pem_slice(other.cert_pem().as_bytes()).unwrap();
    let config = ca.server_config("myapp", &[]).unwrap();
    assert!(shake_hands(config, root, "myapp.local").is_err());
}

#[test]
fn leaf_certificates_expire() {
    let (ca, _) = Ca::load_or_create(None, None, None).unwrap();
    let root = CertificateDer::from_pem_slice(ca.cert_pem().as_bytes()).unwrap();
    let config = ca.server_config_at("myapp", &[], 1_600_000_000).unwrap();
    assert!(shake_hands(config, root, "myapp.local").is_err());
}
