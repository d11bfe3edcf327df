use lclhst::banner::{open_banner, serve_banner, trust_url, url};

#[test]
fn the_default_port_is_elided() {
    assert_eq!(url("myapp.local", 443), "https://myapp.local");
    assert_eq!(url("myapp.local", 4433), "https://myapp.local:4433");
    assert_eq!(url("192.168.1.10", 0), "https://192.168.1.10:0");
}

#[test]
fn phones_get_plain_http() {
    assert_eq!(trust_url("https://myapp.local:4433"), "http://myapp.local:4433/.lclhst/");
    assert_eq!(trust_url("https://myapp.local"), "http://myapp.local/.lclhst/");
    assert_eq!(trust_url("myapp"), "httpmyapp/.lclhst/");
}

#[test]
fn a_served_share_is_announced_to_its_user() {
    let lan = Some(("192.168.1.10".to_string(), 4433));
    let b = serve_banner("photos@endpointx", "photos", lan.clone(), false);
    assert_eq!(
        b.lines,
        vec![
            "ticket: photos@endpointx",
            "on another machine: lclhst open photos@endpointx",
            "on this network:    https://photos.local:4433 (or https://192.168.1.10:4433)",
            "trust on a phone:   http://photos.local:4433/.lclhst/",
        ]
    );
    assert_eq!(b.qr.unwrap(), "https://192.168.1.10:4433");
    assert_eq!(b.last, "Ctrl-C to stop");
    assert!(serve_banner("t", "photos", lan, true).qr.is_none());
    let b = serve_banner("t", "photos", None, false);
    assert_eq!(b.lines, vec!["ticket: t", "on another machine: lclhst open t"]);
    assert!(b.qr.is_none());
}

#[test]
fn an_opened_ticket_is_announced_to_its_user() {
    let b = open_banner("myapp", 443, false, Some("10.0.0.1".to_string()), false);
    assert_eq!(
        b.lines,
        vec![
            "this machine:    https://myapp.localhost",
            "on this network: https://myapp.local",
            "trust on a phone: http://myapp.local/.lclhst/",
        ]
    );
    assert_eq!(b.qr.unwrap(), "https://10.0.0.1");
    assert_eq!(b.last, "(run `lclhst trust` once on this machine for a clean padlock)");
    let b = open_banner("myapp", 4433, true, Some("10.0.0.1".to_string()), false);
    assert_eq!(b.lines, vec!["this machine:    https://myapp.localhost:4433"]);
    assert!(b.qr.is_none());
    assert!(open_banner("myapp", 443, false, None, false).qr.is_none());
    assert!(open_banner("myapp", 443, false, Some("10.0.0.1".to_string()), true).qr.is_none());
}
