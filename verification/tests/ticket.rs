use iroh_tickets::endpoint::EndpointTicket;
use lclhst::ticket::{Ticket, TicketError};

fn some_endpoint_ticket() -> EndpointTicket {
    let id = iroh::SecretKey::from_bytes(&[7u8; 32]).public();
    EndpointTicket::new(iroh::EndpointAddr::new(id))
}

#[test]
fn round_trips_through_string() {
    let endpoint = some_endpoint_ticket();
    let t = Ticket::new("myapp", &endpoint.to_string()).unwrap();
    let parsed = Ticket::from_str(&t.to_text()).unwrap();
    assert_eq!(parsed.name, "myapp");
    let back: EndpointTicket = parsed.endpoint.parse().unwrap();
    assert_eq!(back.endpoint_addr().id, endpoint.endpoint_addr().id);
    assert_eq!(parsed.to_text(), t.to_text());
}

#[test]
fn rejects_bad_names_and_shapes() {
    let ep = some_endpoint_ticket();
    assert!(Ticket::from_str(&format!("UPPER@{ep}")).is_err());
    assert!(Ticket::from_str(&format!("no-at-sign{ep}")).is_err());
    assert!(Ticket::from_str("myapp@notaticket").is_err());
}

#[test]
fn ticket_errors_tell_what_is_wrong() {
    let ep = some_endpoint_ticket();
    let e = Ticket::from_str(&format!("UPPER@{ep}")).unwrap_err();
    assert!(matches!(e, TicketError::InvalidName(_)));
    assert_eq!(e.message(), "invalid tunnel name in ticket: \"UPPER\"");
    let e = Ticket::from_str(&format!("no-at-sign{ep}")).unwrap_err();
    assert!(matches!(e, TicketError::NoSeparator));
    assert_eq!(e.message(), "ticket must look like <name>@<endpoint-ticket>");
    let e = Ticket::from_str("myapp@notaticket").unwrap_err();
    assert!(matches!(e, TicketError::InvalidEndpoint));
    assert_eq!(e.message(), "invalid endpoint ticket");
}

#[test]
fn ticket_text_is_name_at_endpoint() {
    let ep = some_endpoint_ticket();
    let t = Ticket::from_str(&format!("myapp@{ep}")).unwrap();
    assert_eq!(t.to_text(), format!("myapp@{ep}"));
    assert_eq!(t.endpoint, ep.to_string());
}

#[test]
fn ticket_is_split_at_the_first_separator() {
    let ep = some_endpoint_ticket();
    assert!(matches!(
        Ticket::from_str(&format!("myapp@@{ep}")),
        Err(TicketError::InvalidEndpoint)
    ));
}

#[test]
fn ticket_endpoints_are_made_canonical() {
    let ep = some_endpoint_ticket();
    let text = ep.to_string();
    let prefix: String = text.chars().take_while(|c| c.is_ascii_lowercase()).collect();
    assert!(prefix.starts_with("endpoint"));
    let upper = format!("endpoint{}", text["endpoint".len()..].to_uppercase());
    assert_ne!(upper, text);
    let t = Ticket::new("myapp", &upper).unwrap();
    assert_eq!(t.endpoint, text);
}

#[test]
fn ticket_parts_decide_without_the_endpoint_format() {
    let t = Ticket::from_parts("myapp", Some("whatever".to_string())).unwrap();
    assert_eq!(t.to_text(), "myapp@whatever");
    assert!(matches!(Ticket::from_parts("myapp", None), Err(TicketError::InvalidEndpoint)));
    assert!(matches!(Ticket::from_parts("-", None), Err(TicketError::InvalidName(_))));
}
