use lclhst::mdns::{announce, announce_ips, lan_ips, MdnsError, TTL};
use lclhst::net::Ip;

const LAN: Ip = Ip::V4(0xc0a8_010a); // 192.168.1.10

#[test]
fn rejects_invalid_names() {
    assert!(announce_ips("Bad.Name", &[LAN]).is_err());
    assert!(announce_ips("ok-name", &[]).is_err());
    assert_eq!(
        announce_ips("Bad.Name", &[LAN]).unwrap_err().message(),
        "invalid tunnel name: \"Bad.Name\""
    );
    assert_eq!(
        announce_ips("ok-name", &[]).unwrap_err().message(),
        "no LAN address to announce"
    );
}

#[test]
fn builds_a_responder_for_valid_input() {
    let a = announce_ips("myapp", &[LAN]).unwrap();
    assert_eq!(a.fqdn, "myapp.local");
    assert_eq!(a.ttl, TTL);
    assert_eq!(a.ttl, 60);
    assert_eq!(a.addresses, vec![LAN]);
}

#[test]
fn the_longest_names_can_be_announced() {
    let name = "x".repeat(63);
    assert_eq!(announce_ips(&name, &[LAN]).unwrap().fqdn, format!("{name}.local"));
}

#[test]
fn lan_addresses_are_sorted_and_unique() {
    let found = vec![
        LAN,
        Ip::V4(0x0a00_0001),
        LAN,
        Ip::V4(0x7f00_0001),
        Ip::V4(0xa9fe_0101),
        Ip::V6(1),
        Ip::V4(0xac10_0001),
    ];
    assert_eq!(
        lan_ips(Some(found)).unwrap(),
        vec![Ip::V4(0x0a00_0001), Ip::V4(0xac10_0001), LAN]
    );
}

#[test]
fn neighbours_of_the_skipped_blocks_are_kept() {
    let kept = vec![
        Ip::V4(0x7eff_ffff),
        Ip::V4(0x8000_0000),
        Ip::V4(0xa9fd_ffff),
        Ip::V4(0xa9ff_0000),
    ];
    assert_eq!(lan_ips(Some(kept.clone())).unwrap(), kept);
    for skipped in [0x7f00_0000u32, 0x7fff_ffff, 0xa9fe_0000, 0xa9fe_ffff] {
        assert!(matches!(
            lan_ips(Some(vec![Ip::V4(skipped)])),
            Err(MdnsError::NoLanAddress)
        ));
    }
}

#[test]
fn without_a_lan_address_there_is_an_error() {
    let e = lan_ips(Some(vec![Ip::V6(7)])).unwrap_err();
    assert_eq!(e.message(), "no LAN address found — is Wi-Fi/Ethernet up?");
    assert_eq!(lan_ips(None).unwrap_err().message(), "listing network interfaces");
}

#[test]
fn announcing_uses_the_lan_addresses() {
    let a = announce("myapp", Some(vec![LAN, Ip::V4(0x7f00_0001)])).unwrap();
    assert_eq!(a.addresses, vec![LAN]);
    assert!(matches!(announce("myapp", None), Err(MdnsError::Interfaces)));
    assert!(matches!(announce("myapp", Some(vec![])), Err(MdnsError::NoLanAddress)));
    assert!(matches!(announce("-", Some(vec![LAN])), Err(MdnsError::InvalidName(_))));
}

#[test]
fn a_name_that_is_no_dns_name_is_quoted() {
    assert_eq!(
        MdnsError::InvalidMdnsName("x.local".to_string()).message(),
        "invalid mDNS name \"x.local\""
    );
}
