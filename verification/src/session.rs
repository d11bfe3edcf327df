//! Serving a target and opening a ticket: what is started, in which order,
//! and how far it reaches.

use vstd::prelude::*;

use crate::ca;
use crate::edge;
use crate::mdns;
use crate::net::Ip;
use crate::net::LOCALHOST;
use crate::net::UNSPECIFIED;
use crate::protocol;
use crate::share::Target;
use crate::text;
use crate::ticket::Ticket;

verus! {

/// How many seconds a served endpoint has to reach a relay before the user is
/// warned.
pub const ONLINE_TIMEOUT_SECS: u64 = 5;

/// A share name that is no lowercase DNS label.
#[derive(Debug)]
pub struct InvalidName {
    pub name: String,
}

impl InvalidName {
    /// What the user is told.
    pub fn message(&self) -> (r: String)
        ensures
            r@ == "invalid name "@ + text::debug_text(self.name@)
                + ": use a lowercase DNS label like my-app"@,
    {
        let mut out: String = "invalid name ".to_owned();
        out.append(text::quoted(self.name.as_str()).as_str());
        out.append(": use a lowercase DNS label like my-app");
        out
    }
}

/// The file server is to be started.
#[derive(Debug)]
pub struct StartingFiles {
    pub name: String,
    pub local_only: bool,
}

/// The bytes of the share come from a local port; the tunnel endpoint is to be
/// made.
#[derive(Debug)]
pub struct Connecting {
    pub name: String,
    pub local_only: bool,
    pub port: u16,
}

/// The endpoint is there; the LAN edge is to be started.
#[derive(Debug)]
pub struct Exposing {
    pub name: String,
    pub port: u16,
}

/// Everything is up: tunnel streams are to be forwarded to the port.
#[derive(Debug)]
pub struct Sharing {
    pub name: String,
    pub port: u16,
    /// The address that the LAN should use, if LAN exposure is on.
    pub lan: Option<(Ip, u16)>,
}

/// Where serving a target begins.
#[derive(Debug)]
pub enum Begin {
    /// With an app that listens already.
    App(Connecting),
    /// With the built-in file server, on this path.
    Files(String, StartingFiles),
}

/// How serving goes on once there is an endpoint.
#[derive(Debug)]
pub enum Exposure {
    /// With an edge on the LAN.
    Lan(Exposing),
    /// With the ticket alone.
    TicketOnly(Sharing),
}

/// Serve a target under a name: nothing is started under an invalid name; a
/// port is served as it is, a path through the built-in file server.
pub fn serve(target: Target, name: String, local_only: bool) -> (r: Result<Begin, InvalidName>)
    ensures
        match r {
            Ok(Begin::App(next)) => {
                &&& protocol::valid_label(name@)
                &&& target == Target::Port(next.port)
                &&& next.name@ == name@
                &&& next.local_only == local_only
            },
            Ok(Begin::Files(path, next)) => {
                &&& protocol::valid_label(name@)
                &&& target == Target::Path(path)
                &&& next.name@ == name@
                &&& next.local_only == local_only
            },
            Err(e) => !protocol::valid_label(name@) && e.name@ == name@,
        },
{
    if !protocol::valid_name(name.as_str()) {
        return Err(InvalidName { name });
    }
    match target {
        Target::Port(port) => Ok(Begin::App(Connecting { name, local_only, port })),
        Target::Path(path) => Ok(Begin::Files(path, StartingFiles { name, local_only })),
    }
}

impl StartingFiles {
    /// The file server listens on this port.
    pub fn listening(self, port: u16) -> (r: Connecting)
        ensures
            r.name@ == self.name@,
            r.local_only == self.local_only,
            r.port == port,
    {
        Connecting { name: self.name, local_only: self.local_only, port }
    }
}

impl Connecting {
    /// The endpoint is there; whether it reached a relay in time. Returns how
    /// to go on, and what to warn of.
    pub fn connected(self, relay: bool) -> (r: (Exposure, Option<&'static str>))
        ensures
            match r.0 {
                Exposure::Lan(next) => {
                    &&& !self.local_only
                    &&& next.name@ == self.name@
                    &&& next.port == self.port
                },
                Exposure::TicketOnly(next) => {
                    &&& self.local_only
                    &&& next.name@ == self.name@
                    &&& next.port == self.port
                    &&& next.lan is None
                },
            },
            match r.1 {
                None => relay,
                Some(warning) => !relay && warning@
                    == "warning: no relay reachable — only direct connections will work"@,
            },
    {
        let warning = if relay {
            None
        } else {
            Some("warning: no relay reachable — only direct connections will work")
        };
        if self.local_only {
            (Exposure::TicketOnly(Sharing { name: self.name, port: self.port, lan: None }), warning)
        } else {
            (Exposure::Lan(Exposing { name: self.name, port: self.port }), warning)
        }
    }
}

impl Exposing {
    /// What the LAN edge sends requests through: straight to the local port,
    /// with no tunnel hop for devices in the same room.
    pub fn opener(&self) -> (r: edge::DirectOpener)
        ensures
            r.port == self.port,
    {
        edge::DirectOpener { port: self.port }
    }

    /// The LAN edge is up at this address, or could not be started. Returns
    /// how to go on, and what to warn of: a share goes on without the LAN.
    pub fn exposed(self, edge: Result<(Ip, u16), String>) -> (r: (Sharing, Option<String>))
        ensures
            r.0.name@ == self.name@,
            r.0.port == self.port,
            match edge {
                Ok(address) => r.0.lan == Some(address) && r.1 is None,
                Err(e) => r.0.lan is None && (r.1 matches Some(warning) && warning@
                    == "warning: LAN exposure failed ("@ + e@ + "); continuing with ticket only"@),
            },
    {
        match edge {
            Ok(address) => (
                Sharing { name: self.name, port: self.port, lan: Some(address) },
                None,
            ),
            Err(e) => {
                let mut warning: String = "warning: LAN exposure failed (".to_owned();
                warning.append(e.as_str());
                warning.append("); continuing with ticket only");
                (Sharing { name: self.name, port: self.port, lan: None }, Some(warning))
            },
        }
    }
}

/// What the running share exposes; sent once everything is listening.
#[derive(Debug)]
pub struct ServeInfo {
    pub ticket: Ticket,
    /// LAN address of the edge if LAN exposure is on.
    pub lan: Option<(Ip, u16)>,
}

/// Why there is no edge on the LAN.
#[derive(Debug)]
pub enum LanError {
    /// The LAN addresses could not be found.
    Mdns(mdns::MdnsError),
    /// No certificate could be minted.
    Ca(ca::CaError),
}

/// An edge for the LAN, to be bound on all interfaces.
pub struct LanEdge {
    /// This machine's LAN addresses, which the certificate covers.
    pub ips: Vec<Ip>,
    /// The TLS settings of the edge.
    pub config: rustls::ServerConfig,
}

impl LanEdge {
    /// There is an address for the LAN to use.
    pub open spec fn wf(&self) -> bool {
        self.ips@.len() > 0
    }

    /// The address that the LAN should use: the first LAN address with the
    /// port that was bound.
    pub fn address(&self, bound_port: u16) -> (r: (Ip, u16))
        requires
            self.wf(),
        ensures
            r == (self.ips@[0], bound_port),
    {
        (self.ips[0], bound_port)
    }
}

/// Whether this is why no certificate is minted for a share and the LAN
/// addresses among those of the network interfaces.
pub open spec fn refused_on_lan(
    ca: ca::CaView,
    name: Seq<char>,
    found: Option<Seq<Ip>>,
    e: ca::CaError,
) -> bool {
    exists|ips: Seq<Ip>|
        mdns::lan_outcome(found, Ok(ips)) && #[trigger] ca::refused(ca, name, ips, e)
}

/// An edge for the LAN, from the addresses of the network interfaces (`None`
/// if they could not be listed): its certificate covers the share's names and
/// all LAN addresses.
pub fn start_lan_edge(ca: &ca::Ca, name: &str, found: Option<Vec<Ip>>) -> (r: Result<
    LanEdge,
    LanError,
>)
    ensures
        match r {
            Ok(edge) => {
                &&& edge.wf()
                &&& mdns::lan_outcome(mdns::listed(found), Ok(edge.ips@))
                &&& ca::mint_outcome(ca@, name@, edge.ips@, Ok(edge.config))
            },
            Err(LanError::Mdns(e)) => mdns::lan_outcome(mdns::listed(found), Err(e)),
            Err(LanError::Ca(e)) => {
                &&& found matches Some(all) && !mdns::none_announceable(all@)
                &&& refused_on_lan(ca@, name@, mdns::listed(found), e)
            },
        },
{
    let ips = match mdns::lan_ips(found) {
        Ok(ips) => ips,
        Err(e) => {
            return Err(LanError::Mdns(e));
        },
    };
    assert(ips@.contains(ips@[0]));
    match ca.server_config(name, ips.as_slice()) {
        Ok(config) => Ok(LanEdge { ips, config }),
        Err(e) => Err(LanError::Ca(e)),
    }
}

/// The certificate of an edge covers the address that the LAN is told to use,
/// so the URL by address validates like the one by name.
pub proof fn the_lan_address_is_certified(edge: LanEdge, ca: ca::CaView, name: Seq<char>, now: int)
    requires
        edge.wf(),
        ca::shows_leaf(edge.config, ca, name, edge.ips@, now),
    ensures
        ca::certifies(
            crate::tls::presented(edge.config).chain[0],
            ca::leaf_request(name, edge.ips@, now),
            crate::tls::presented(edge.config).key,
            crate::tls::certificate_in_pem(ca.cert_pem),
            ca::key_in_pem(ca.key_pem)->0,
        ),
        ca::leaf_request(name, edge.ips@, now).ips.contains(edge.ips@[0]),
        ca::leaf_request(name, edge.ips@, now).names.contains(name + ".local"@),
{
    let request = ca::leaf_request(name, edge.ips@, now);
    assert(request.ips[0] == edge.ips@[0]);
    assert(request.names[1] == name + ".local"@);
}

/// Whether plain `http://<name>.local` needs a helper on port 80: the edge has
/// the https port and is reachable from the LAN.
pub fn wants_port_80_helper(edge_port: u16, local_only: bool) -> (r: bool)
    ensures
        r == (edge_port == 443 && !local_only),
{
    edge_port == 443 && !local_only
}

/// The serving side of a ticket is to be dialed.
#[derive(Debug)]
pub struct Dialing {
    pub ticket: Ticket,
    pub local_only: bool,
}

/// How far the edge of an opened ticket reaches; it is to be bound.
#[derive(Debug)]
pub struct Reach {
    pub name: String,
    /// The address that the edge listens on.
    pub bind: Ip,
    /// The addresses that its certificate covers besides its names.
    pub cert_ips: Vec<Ip>,
    /// Whether the name is announced on the LAN.
    pub announce: bool,
}

/// The edge of an opened ticket is bound; its name is to be announced, as far
/// as it reaches the LAN.
#[derive(Debug)]
pub struct Bound {
    pub name: String,
    pub port: u16,
    pub cert_ips: Vec<Ip>,
    pub announce: bool,
    /// Whether plain http needs a helper on port 80.
    pub helper: bool,
}

/// The certificate of an opened ticket is to be minted.
#[derive(Debug)]
pub struct Minting {
    pub name: String,
    pub port: u16,
    pub cert_ips: Vec<Ip>,
}

/// An opened ticket: the edge is to be run.
pub struct Opening {
    pub name: String,
    pub port: u16,
    /// The TLS settings of the edge.
    pub config: rustls::ServerConfig,
}

/// Whether everything stays on this machine.
pub open spec fn loopback_only(reach: Reach) -> bool {
    &&& reach.bind == Ip::V4(LOCALHOST)
    &&& reach.cert_ips@ == Seq::<Ip>::empty()
    &&& !reach.announce
}

/// Whether an edge listens on all interfaces, is announced, and its certificate
/// covers the LAN addresses, as far as there are any.
pub open spec fn reaches_lan(reach: Reach, found: Option<Seq<Ip>>) -> bool {
    &&& reach.bind == Ip::V4(UNSPECIFIED)
    &&& reach.announce
    &&& match found {
        Some(all) => if mdns::none_announceable(all) {
            reach.cert_ips@ == Seq::<Ip>::empty()
        } else {
            mdns::lan_outcome(Some(all), Ok(reach.cert_ips@))
        },
        None => reach.cert_ips@ == Seq::<Ip>::empty(),
    }
}

/// Open a ticket: on this machine and, unless `local_only`, for devices on this
/// machine's network.
pub fn open(ticket: Ticket, local_only: bool) -> (r: Dialing)
    ensures
        r.ticket == ticket,
        r.local_only == local_only,
{
    Dialing { ticket, local_only }
}

impl Dialing {
    /// The serving side answered, or could not be reached, which ends it.
    /// `found` holds the addresses of the network interfaces, `None` if they
    /// could not be listed; an edge without a LAN address still serves.
    pub fn dialed(self, connection: Result<(), String>, found: Option<Vec<Ip>>) -> (r: Result<
        Reach,
        String,
    >)
        ensures
            match r {
                Ok(reach) => {
                    &&& connection is Ok
                    &&& reach.name@ == self.ticket.name@
                    &&& self.local_only ==> loopback_only(reach)
                    &&& !self.local_only ==> reaches_lan(reach, mdns::listed(found))
                },
                Err(message) => connection matches Err(cause) && message@ == unreachable_text(
                    cause@,
                ),
            },
    {
        if let Err(cause) = connection {
            return Err(unreachable_message(cause.as_str()));
        }
        let name = self.ticket.name;
        if self.local_only {
            return Ok(
                Reach { name, bind: Ip::V4(LOCALHOST), cert_ips: Vec::new(), announce: false },
            );
        }
        let cert_ips: Vec<Ip> = match mdns::lan_ips(found) {
            Ok(ips) => {
                assert(ips@.contains(ips@[0]));
                ips
            },
            Err(_) => Vec::new(),
        };
        Ok(Reach { name, bind: Ip::V4(UNSPECIFIED), cert_ips, announce: true })
    }
}

impl Reach {
    /// The edge is bound on this port, or could not be bound, which ends it.
    pub fn bound<E>(self, port: Result<u16, E>) -> (r: Result<Bound, E>)
        ensures
            match port {
                Ok(p) => r matches Ok(next) && {
                    &&& next.name@ == self.name@
                    &&& next.port == p
                    &&& next.cert_ips@ == self.cert_ips@
                    &&& next.announce == self.announce
                    &&& next.helper == (p == 443 && self.announce)
                },
                Err(e) => r == Err::<Bound, E>(e),
            },
    {
        match port {
            Ok(port) => Ok(
                Bound {
                    name: self.name,
                    port,
                    cert_ips: self.cert_ips,
                    announce: self.announce,
                    helper: wants_port_80_helper(port, !self.announce),
                },
            ),
            Err(e) => Err(e),
        }
    }
}

impl Bound {
    /// The name is announced, or could not be. Returns how to go on, and what
    /// to warn of: an opened ticket goes on without. Where there is nothing to
    /// announce, the outcome does not matter.
    pub fn announced(self, outcome: Result<(), String>) -> (r: (Minting, Option<String>))
        ensures
            r.0.name@ == self.name@,
            r.0.port == self.port,
            r.0.cert_ips@ == self.cert_ips@,
            match r.1 {
                Some(warning) => {
                    &&& self.announce
                    &&& outcome matches Err(cause) && warning@ == announce_text(cause@)
                },
                None => !self.announce || outcome is Ok,
            },
    {
        let warning = match outcome {
            Err(cause) => {
                if self.announce {
                    Some(announce_warning(cause.as_str()))
                } else {
                    None
                }
            },
            Ok(()) => None,
        };
        (Minting { name: self.name, port: self.port, cert_ips: self.cert_ips }, warning)
    }
}

impl Minting {
    /// Mint the certificate; a failure ends it.
    pub fn minted(self, ca: &ca::Ca) -> (r: Result<Opening, ca::CaError>)
        ensures
            match r {
                Ok(next) => {
                    &&& next.name@ == self.name@
                    &&& next.port == self.port
                    &&& ca::mint_outcome(ca@, self.name@, self.cert_ips@, Ok(next.config))
                },
                Err(e) => ca::mint_outcome(ca@, self.name@, self.cert_ips@, Err(e)),
            },
    {
        match ca.server_config(self.name.as_str(), self.cert_ips.as_slice()) {
            Ok(config) => Ok(Opening { name: self.name, port: self.port, config }),
            Err(e) => Err(e),
        }
    }
}

/// What the user is told when the serving side of a ticket cannot be reached.
pub open spec fn unreachable_text(cause: Seq<char>) -> Seq<char> {
    "could not reach the serving side (stale ticket?): "@ + cause
}

/// What the user is warned of when the name cannot be announced.
pub open spec fn announce_text(cause: Seq<char>) -> Seq<char> {
    "warning: mDNS announce failed ("@ + cause + "); LAN devices must use the IP"@
}

/// What the user is told when the serving side of a ticket cannot be reached.
fn unreachable_message(cause: &str) -> (r: String)
    ensures
        r@ == unreachable_text(cause@),
{
    let mut out: String = "could not reach the serving side (stale ticket?): ".to_owned();
    out.append(cause);
    out
}

/// What the user is warned of when the name cannot be announced.
fn announce_warning(cause: &str) -> (r: String)
    ensures
        r@ == announce_text(cause@),
{
    let mut out: String = "warning: mDNS announce failed (".to_owned();
    out.append(cause);
    out.append("); LAN devices must use the IP");
    out
}

/// A ticket that is opened for this machine only stays on it: the edge listens on
/// the loopback address, is not announced, and its certificate covers no address.
pub proof fn local_edges_stay_on_this_machine(reach: Reach)
    requires
        loopback_only(reach),
    ensures
        reach.bind == Ip::V4(0x7f00_0001),
        !reach.announce,
        reach.cert_ips@.len() == 0,
{
}

/// A ticket that is opened for the network is: the edge listens on all interfaces
/// and is announced, and its certificate covers every LAN address that was found.
pub proof fn open_edges_reach_the_lan(reach: Reach, found: Option<Seq<Ip>>)
    requires
        reaches_lan(reach, found),
    ensures
        reach.bind == Ip::V4(0),
        reach.announce,
        found is None ==> reach.cert_ips@.len() == 0,
        found matches Some(all) ==> forall|ip: Ip| #[trigger]
            reach.cert_ips@.contains(ip) <==> all.contains(ip) && mdns::announceable(ip),
{
    if let Some(all) = found {
        if mdns::none_announceable(all) {
            assert forall|ip: Ip| #[trigger]
                reach.cert_ips@.contains(ip) <==> all.contains(ip) && mdns::announceable(ip) by {
                assert(all.contains(ip) ==> !mdns::announceable(ip));
            }
        }
    }
}

/// What the user is told names the cause.
pub proof fn warnings_name_the_cause(cause: Seq<char>)
    ensures
        unreachable_text(cause) == "could not reach the serving side (stale ticket?): "@ + cause,
        announce_text(cause) == "warning: mDNS announce failed ("@ + cause
            + "); LAN devices must use the IP"@,
{
}

/// A share is refused an edge on the LAN for a reason that holds of its LAN
/// addresses.
pub proof fn lan_refusals_are_about_lan_addresses(
    ca: ca::CaView,
    name: Seq<char>,
    found: Option<Seq<Ip>>,
    e: ca::CaError,
)
    requires
        refused_on_lan(ca, name, found, e),
    ensures
        exists|ips: Seq<Ip>|
            ips.len() > 0 && (forall|ip: Ip| #[trigger]
                ips.contains(ip) <==> (found->0).contains(ip) && mdns::announceable(ip))
                && #[trigger] ca::mint_outcome(ca, name, ips, Err(e)),
        found is Some,
{
    let ips = choose|ips: Seq<Ip>|
        mdns::lan_outcome(found, Ok(ips)) && #[trigger] ca::refused(ca, name, ips, e);
    assert(mdns::lan_outcome(found, Ok(ips)));
    assert(ca::mint_outcome(ca, name, ips, Err(e)));
}

} // verus!
