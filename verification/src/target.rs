//! The serving side: forwards tunnel streams to the one configured local port.
//!
//! One stream: read hello, dial the local app, report status, splice. The
//! port comes exclusively from our own configuration; the protocol carries no
//! port, so a peer can never pick a different local target.

use vstd::prelude::*;

use crate::edge;
use crate::edge::LOOPBACK;
use crate::protocol::Hello;
use crate::protocol::HelloError;
use crate::protocol::STATUS_CONNECT_FAILED;
use crate::protocol::STATUS_OK;

verus! {

/// What happened on a stream.
#[derive(Debug)]
pub enum Event {
    /// The peer opened it.
    Opened,
    /// The hello was read, or could not be.
    Greeted(Result<Hello, HelloError>),
    /// The local app answered the connection attempt, or did not.
    Dialed(bool),
}

/// What to do next on a stream.
#[derive(Debug)]
pub enum Action {
    /// Read the peer's hello.
    ReadHello,
    /// Connect to this host and port.
    Dial(&'static str, u16),
    /// Send this status byte, then copy bytes both ways until both sides end.
    Splice(u8),
    /// Send this status byte, then end the stream.
    Refuse(u8),
    /// Drop the stream without an answer.
    Abort(HelloError),
}

/// The action that each event calls for on a share of `port`.
pub open spec fn reaction(port: u16, event: Event, action: Action) -> bool {
    match event {
        Event::Opened => action is ReadHello,
        Event::Greeted(Ok(_)) => action matches Action::Dial(host, p) && host@ == LOOPBACK@ && p
            == port,
        Event::Greeted(Err(e)) => action == Action::Abort(e),
        Event::Dialed(reached) => if reached {
            action == Action::Splice(STATUS_OK)
        } else {
            action == Action::Refuse(STATUS_CONNECT_FAILED)
        },
    }
}

/// One step of forwarding a stream to the app on `port`.
pub fn handle_stream(port: u16, event: Event) -> (r: Action)
    ensures
        reaction(port, event, r),
{
    match event {
        Event::Opened => Action::ReadHello,
        Event::Greeted(greeting) => match greeting {
            Ok(_) => Action::Dial(LOOPBACK, port),
            Err(e) => Action::Abort(e),
        },
        Event::Dialed(reached) => {
            if reached {
                Action::Splice(STATUS_OK)
            } else {
                Action::Refuse(STATUS_CONNECT_FAILED)
            }
        },
    }
}

/// Whatever a peer sends, the only thing that is ever dialed is the configured
/// port on this machine.
pub proof fn peers_cannot_choose_the_port(port: u16, event: Event, action: Action)
    requires
        reaction(port, event, action),
    ensures
        action matches Action::Dial(host, p) ==> host@ == LOOPBACK@ && p == port,
{
}

/// The edge goes on with a stream exactly when the serving side reached its
/// app: the status byte that is sent is the one that is understood.
pub proof fn status_is_understood(port: u16, reached: bool, action: Action)
    requires
        reaction(port, Event::Dialed(reached), action),
    ensures
        match action {
            Action::Splice(status) => reached && edge::app_reached(Some(status)),
            Action::Refuse(status) => !reached && !edge::app_reached(Some(status)),
            _ => false,
        },
{
}

/// A stream is forwarded in a fixed order: the hello is read first; only a good one
/// leads to the app, on this machine; the app is then spliced to the peer under the
/// status byte 0, or the peer is told 1; a bad hello ends the stream.
pub proof fn streams_are_forwarded_step_by_step(port: u16, event: Event, action: Action)
    requires
        reaction(port, event, action),
    ensures
        event is Opened <==> action is ReadHello,
        event matches Event::Greeted(Ok(_)) ==> (action matches Action::Dial(host, p) && host@
            == "127.0.0.1"@ && p == port),
        event matches Event::Greeted(Err(e)) ==> action == Action::Abort(e),
        event == Event::Dialed(true) ==> action == Action::Splice(0),
        event == Event::Dialed(false) ==> action == Action::Refuse(1),
{
}

} // verus!
