use lclhst::ca::{Ca, CaError};
use lclhst::mdns::MdnsError;
use lclhst::net::Ip;
use lclhst::session::{start_lan_edge, wants_port_80_helper, Begin, Exposure, LanError, Reach};
use lclhst::ticket::Ticket;
use lclhst::{open, serve, Target};

const LAN: Ip = Ip::V4(0xc0a8_010a);
const LOOPBACK: Ip = Ip::V4(0x7f00_0001);

#[test]
fn invalid_names_are_not_served() {
    let e = serve(Target::Port(3000), "Bad.Name".to_string(), false).unwrap_err();
    assert_eq!(
        e.message(),
        "invalid name \"Bad.Name\": use a lowercase DNS label like my-app"
    );
}

#[test]
fn an_app_is_served_on_its_own_port() {
    let next = match serve(Target::Port(3000), "myapp".to_string(), false).unwrap() {
        Begin::App(next) => next,
        other => panic!("{other:?}"),
    };
    let (exposure, warning) = next.connected(true);
    assert!(warning.is_none());
    let next = match exposure {
        Exposure::Lan(next) => next,
        other => panic!("{other:?}"),
    };
    assert_eq!(next.opener().port, 3000);
    let (sharing, warning) = next.exposed(Ok((LAN, 4433)));
    assert!(warning.is_none());
    assert_eq!(sharing.name, "myapp");
    assert_eq!(sharing.port, 3000);
    assert_eq!(sharing.lan, Some((LAN, 4433)));
}

#[test]
fn files_are_served_through_the_file_server() {
    let (path, next) = match serve(Target::Path("photos".to_string()), "p".to_string(), true).unwrap() {
        Begin::Files(path, next) => (path, next),
        other => panic!("{other:?}"),
    };
    assert_eq!(path, "photos");
    let (exposure, warning) = next.listening(40000).connected(false);
    assert_eq!(
        warning,
        Some("warning: no relay reachable — only direct connections will work")
    );
    match exposure {
        Exposure::TicketOnly(sharing) => {
            assert_eq!(sharing.port, 40000);
            assert_eq!(sharing.lan, None);
        }
        other => panic!("local only: {other:?}"),
    }
}

#[test]
fn a_share_goes_on_without_the_lan() {
    let next = match serve(Target::Port(1), "a".to_string(), false).unwrap() {
        Begin::App(next) => next,
        other => panic!("{other:?}"),
    };
    let next = match next.connected(true).0 {
        Exposure::Lan(next) => next,
        other => panic!("{other:?}"),
    };
    let (sharing, warning) = next.exposed(Err("no luck".to_string()));
    assert_eq!(sharing.lan, None);
    assert_eq!(sharing.port, 1);
    assert_eq!(
        warning.unwrap(),
        "warning: LAN exposure failed (no luck); continuing with ticket only"
    );
}

#[test]
fn the_lan_edge_uses_the_first_address() {
    let (ca, _) = Ca::load_or_create(None, None, None).unwrap();
    let found = vec![LAN, Ip::V4(0x0a00_0001), LOOPBACK];
    let edge = start_lan_edge(&ca, "myapp", Some(found)).unwrap();
    assert_eq!(edge.ips, vec![Ip::V4(0x0a00_0001), LAN]);
    assert_eq!(edge.address(443), (Ip::V4(0x0a00_0001), 443));
    assert_eq!(edge.config.alpn_protocols, vec![b"http/1.1".to_vec()]);
}

#[test]
fn no_lan_edge_without_an_address_or_a_name() {
    let (ca, _) = Ca::load_or_create(None, None, None).unwrap();
    assert!(matches!(
        start_lan_edge(&ca, "myapp", Some(vec![LOOPBACK])),
        Err(LanError::Mdns(MdnsError::NoLanAddress))
    ));
    assert!(matches!(
        start_lan_edge(&ca, "myapp", None),
        Err(LanError::Mdns(MdnsError::Interfaces))
    ));
    assert!(matches!(
        start_lan_edge(&ca, "Bad.Name", Some(vec![LAN])),
        Err(LanError::Ca(CaError::InvalidName(_)))
    ));
}

fn reach(local_only: bool, found: Option<Vec<Ip>>) -> Reach {
    let ticket = Ticket::from_parts("myapp", Some("endpoint".to_string())).unwrap();
    let dialing = open(ticket, local_only);
    assert_eq!(dialing.ticket.endpoint, "endpoint");
    dialing.dialed(Ok(()), found).unwrap()
}

#[test]
fn local_only_stays_on_this_machine() {
    let reach = reach(true, Some(vec![LAN]));
    assert_eq!(reach.name, "myapp");
    assert_eq!(reach.bind, LOOPBACK);
    assert!(reach.cert_ips.is_empty());
    assert!(!reach.announce);
    let bound = reach.bound(Ok::<u16, ()>(443)).unwrap();
    assert!(!bound.helper);
    let (_, warning) = bound.announced(Err("not asked".to_string()));
    assert!(warning.is_none());
}

#[test]
fn opened_tickets_reach_the_lan() {
    let wide = reach(false, Some(vec![LAN, LOOPBACK]));
    assert_eq!(wide.bind, Ip::V4(0));
    assert_eq!(wide.cert_ips, vec![LAN]);
    assert!(wide.announce);
    assert!(reach(false, None).cert_ips.is_empty());
    assert!(reach(false, Some(vec![LOOPBACK])).cert_ips.is_empty());
    assert!(reach(false, None).announce);
}

#[test]
fn a_dead_serving_side_ends_it() {
    let ticket = Ticket::from_parts("myapp", Some("endpoint".to_string())).unwrap();
    let message = open(ticket, false)
        .dialed(Err("timed out".to_string()), None)
        .unwrap_err();
    assert_eq!(
        message,
        "could not reach the serving side (stale ticket?): timed out"
    );
}

#[test]
fn a_port_that_cannot_be_bound_ends_it() {
    assert_eq!(reach(false, None).bound(Err::<u16, i32>(13)).unwrap_err(), 13);
}

#[test]
fn a_failed_announcement_does_not_end_it() {
    let bound = reach(false, Some(vec![LAN])).bound(Ok::<u16, ()>(443)).unwrap();
    assert!(bound.helper);
    let (minting, warning) = bound.announced(Err("busy".to_string()));
    assert_eq!(
        warning.unwrap(),
        "warning: mDNS announce failed (busy); LAN devices must use the IP"
    );
    let (ca, _) = Ca::load_or_create(None, None, None).unwrap();
    let opening = minting.minted(&ca).unwrap();
    assert_eq!(opening.name, "myapp");
    assert_eq!(opening.port, 443);
    assert_eq!(opening.config.alpn_protocols, vec![b"http/1.1".to_vec()]);
}

#[test]
fn an_announced_share_comes_without_a_warning() {
    let bound = reach(false, Some(vec![LAN])).bound(Ok::<u16, ()>(4433)).unwrap();
    assert!(!bound.helper);
    let (minting, warning) = bound.announced(Ok(()));
    assert!(warning.is_none());
    assert_eq!(minting.cert_ips, vec![LAN]);
}

#[test]
fn a_ticket_with_an_invalid_name_cannot_be_minted() {
    let ticket = Ticket { name: "Bad.Name".to_string(), endpoint: "endpoint".to_string() };
    let reach = open(ticket, true).dialed(Ok(()), None).unwrap();
    let (minting, _) = reach.bound(Ok::<u16, ()>(4433)).unwrap().announced(Ok(()));
    let (ca, _) = Ca::load_or_create(None, None, None).unwrap();
    assert!(matches!(minting.minted(&ca), Err(CaError::InvalidName(_))));
}

#[test]
fn the_https_port_gets_a_plain_helper() {
    assert!(wants_port_80_helper(443, false));
    assert!(!wants_port_80_helper(443, true));
    assert!(!wants_port_80_helper(4433, false));
}
