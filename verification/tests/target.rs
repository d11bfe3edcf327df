use lclhst::edge::{client_handshake, HandshakeEvent, HandshakeStep};
use lclhst::protocol::{self, STATUS_CONNECT_FAILED, STATUS_OK};
use lclhst::target::{handle_stream, Action, Event};

fn greeting() -> Event {
    let hello = protocol::write_hello("myapp").unwrap();
    Event::Greeted(protocol::read_hello(&hello).map(|(hello, _)| hello))
}

#[test]
fn connects_and_splices_on_ok() {
    assert!(matches!(handle_stream(3000, Event::Opened), Action::ReadHello));
    assert!(matches!(
        handle_stream(3000, greeting()),
        Action::Dial("127.0.0.1", 3000)
    ));
    let status = match handle_stream(3000, Event::Dialed(true)) {
        Action::Splice(status) => status,
        other => panic!("{other:?}"),
    };
    assert_eq!(status, STATUS_OK);
    assert!(matches!(
        client_handshake("myapp", HandshakeEvent::Status(Some(status))),
        Ok(HandshakeStep::Ready)
    ));
}

#[test]
fn reports_connect_failed_when_app_is_down() {
    let status = match handle_stream(3000, Event::Dialed(false)) {
        Action::Refuse(status) => status,
        other => panic!("{other:?}"),
    };
    assert_eq!(status, STATUS_CONNECT_FAILED);
    assert!(client_handshake("myapp", HandshakeEvent::Status(Some(status))).is_err());
}

#[test]
fn streams_without_a_hello_are_dropped() {
    let bad = protocol::read_hello(&[99, 1, b'a']).map(|(hello, _)| hello);
    match handle_stream(3000, Event::Greeted(bad)) {
        Action::Abort(e) => assert_eq!(e.message(), "peer speaks protocol version 99, we speak 0"),
        other => panic!("{other:?}"),
    }
}
