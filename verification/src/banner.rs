//! URLs, and what is printed once a share is up.

use vstd::prelude::*;

use crate::text;

verus! {

/// What follows the host in a URL: nothing for the https default port.
pub open spec fn port_suffix(port: u16) -> Seq<char> {
    if port == 443 {
        Seq::empty()
    } else {
        ":"@ + text::decimal(port as nat)
    }
}

/// The https URL of a host.
pub open spec fn https_url(host: Seq<char>, port: u16) -> Seq<char> {
    "https://"@ + host + port_suffix(port)
}

/// The onboarding page of a host, over plain http.
pub open spec fn phone_url(host: Seq<char>, port: u16) -> Seq<char> {
    "http://"@ + host + port_suffix(port) + "/.lclhst/"@
}

/// https URL with the port elided when it's the https default.
pub fn url(host: &str, port: u16) -> (r: String)
    ensures
        r@ == https_url(host@, port),
{
    let mut out: String = "https://".to_owned();
    out.append(host);
    if port != 443 {
        out.append(":");
        out.append(text::decimal_of(port as u64).as_str());
    }
    assert(out@ =~= https_url(host@, port));
    out
}

/// Where a phone finds the onboarding page of the host that `by_name` is the
/// https URL of.
pub fn trust_url(by_name: &str) -> (r: String)
    ensures
        r@ == "http"@ + (if text::begins(by_name@, "https"@) {
            by_name@.skip(5)
        } else {
            by_name@
        }) + "/.lclhst/"@,
        forall|host: Seq<char>, port: u16|
            by_name@ == #[trigger] https_url(host, port) ==> r@ == phone_url(host, port),
{
    proof {
        reveal_strlit("https");
        reveal_strlit("https://");
        reveal_strlit("http://");
        reveal_strlit("http");
    }
    let cs = text::chars_of(by_name);
    let mut out: String = "http".to_owned();
    if text::begins_with(&cs, "https") {
        let rest = text::text_between(&cs, 5, cs.len());
        assert(rest@ =~= by_name@.skip(5));
        out.append(rest.as_str());
    } else {
        out.append(by_name);
    }
    out.append("/.lclhst/");
    assert forall|host: Seq<char>, port: u16| by_name@ == #[trigger] https_url(host, port) implies out@
        == phone_url(host, port) by {
        assert(by_name@.take(5) =~= "https"@);
        assert(out@ =~= phone_url(host, port));
    }
    out
}

/// What is printed once a share is up.
#[derive(Debug)]
pub struct Banner {
    /// The lines to print first.
    pub lines: Vec<String>,
    /// The URL to render as a QR code after them, if any.
    pub qr: Option<String>,
    /// The line to print last.
    pub last: String,
}

/// What is printed once a served share is up. `lan` is the address of its LAN
/// edge, as the text of the IP and the port.
pub fn serve_banner(ticket: &str, name: &str, lan: Option<(String, u16)>, no_qr: bool) -> (r:
    Banner)
    ensures
        r.last@ == "Ctrl-C to stop"@,
        match lan {
            None => text::texts(r.lines@) == seq![
                "ticket: "@ + ticket@,
                "on another machine: lclhst open "@ + ticket@,
            ] && r.qr is None,
            Some((ip, port)) => {
                &&& text::texts(r.lines@) == seq![
                    "ticket: "@ + ticket@,
                    "on another machine: lclhst open "@ + ticket@,
                    "on this network:    "@ + https_url(name@ + ".local"@, port) + " (or "@
                        + https_url(ip@, port) + ")"@,
                    "trust on a phone:   "@ + phone_url(name@ + ".local"@, port),
                ]
                &&& if no_qr {
                    r.qr is None
                } else {
                    r.qr matches Some(q) && q@ == https_url(ip@, port)
                }
            },
        },
{
    let mut lines: Vec<String> = Vec::new();
    let mut first: String = "ticket: ".to_owned();
    first.append(ticket);
    lines.push(first);
    let mut second: String = "on another machine: lclhst open ".to_owned();
    second.append(ticket);
    lines.push(second);
    let mut qr: Option<String> = None;
    if let Some((ip, port)) = lan {
        let mut host: String = name.to_owned();
        host.append(".local");
        let by_name = url(host.as_str(), port);
        let by_ip = url(ip.as_str(), port);
        let mut third: String = "on this network:    ".to_owned();
        third.append(by_name.as_str());
        third.append(" (or ");
        third.append(by_ip.as_str());
        third.append(")");
        lines.push(third);
        let mut fourth: String = "trust on a phone:   ".to_owned();
        fourth.append(trust_url(by_name.as_str()).as_str());
        lines.push(fourth);
        if !no_qr {
            qr = Some(by_ip);
        }
        assert(text::texts(lines@) =~= seq![first@, second@, third@, fourth@]);
    } else {
        assert(text::texts(lines@) =~= seq![first@, second@]);
    }
    Banner { lines, qr, last: "Ctrl-C to stop".to_owned() }
}

/// What is printed once a ticket is open on `port`. `lan_ip` is the text of
/// this machine's first LAN address, if it has one.
pub fn open_banner(
    name: &str,
    port: u16,
    local_only: bool,
    lan_ip: Option<String>,
    no_qr: bool,
) -> (r: Banner)
    ensures
        r.last@ == "(run `lclhst trust` once on this machine for a clean padlock)"@,
        if local_only {
            text::texts(r.lines@) == seq![
                "this machine:    "@ + https_url(name@ + ".localhost"@, port),
            ] && r.qr is None
        } else {
            &&& text::texts(r.lines@) == seq![
                "this machine:    "@ + https_url(name@ + ".localhost"@, port),
                "on this network: "@ + https_url(name@ + ".local"@, port),
                "trust on a phone: "@ + phone_url(name@ + ".local"@, port),
            ]
            &&& match lan_ip {
                Some(ip) => if no_qr {
                    r.qr is None
                } else {
                    r.qr matches Some(q) && q@ == https_url(ip@, port)
                },
                None => r.qr is None,
            }
        },
{
    let mut lines: Vec<String> = Vec::new();
    let mut here: String = name.to_owned();
    here.append(".localhost");
    let mut first: String = "this machine:    ".to_owned();
    first.append(url(here.as_str(), port).as_str());
    lines.push(first);
    let mut qr: Option<String> = None;
    if !local_only {
        let mut host: String = name.to_owned();
        host.append(".local");
        let by_name = url(host.as_str(), port);
        let mut second: String = "on this network: ".to_owned();
        second.append(by_name.as_str());
        lines.push(second);
        let mut third: String = "trust on a phone: ".to_owned();
        third.append(trust_url(by_name.as_str()).as_str());
        lines.push(third);
        if !no_qr {
            if let Some(ip) = lan_ip {
                qr = Some(url(ip.as_str(), port));
            }
        }
        assert(text::texts(lines@) =~= seq![first@, second@, third@]);
    } else {
        assert(text::texts(lines@) =~= seq![first@]);
    }
    Banner {
        lines,
        qr,
        last: "(run `lclhst trust` once on this machine for a clean padlock)".to_owned(),
    }
}

/// A URL is the scheme, the host, and the port unless it is the one that https has
/// anyway; the onboarding page is at the same host and port over plain http.
pub proof fn urls_lead_to_host_and_port(host: Seq<char>, port: u16)
    ensures
        port == 443 ==> https_url(host, port) == "https://"@ + host && phone_url(host, port)
            == "http://"@ + host + "/.lclhst/"@,
        port != 443 ==> https_url(host, port) == "https://"@ + host + (seq![':'] + text::decimal(
            port as nat,
        )) && phone_url(host, port) == "http://"@ + host + (seq![':'] + text::decimal(port as nat))
            + "/.lclhst/"@,
{
    reveal_strlit(":");
    assert(":"@ =~= seq![':']);
    assert("https://"@ + host + Seq::<char>::empty() =~= "https://"@ + host);
    assert("http://"@ + host + Seq::<char>::empty() =~= "http://"@ + host);
}

} // verus!
