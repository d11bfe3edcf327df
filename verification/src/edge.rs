//! The receiving side's front door: HTTP knowledge lives here and only here.

use vstd::prelude::*;

use crate::protocol;
use crate::protocol::STATUS_OK;
use crate::reply::Reply;
use crate::text;

verus! {

/// How many seconds the tunnel has to yield a handshaken stream before 504.
pub const OPEN_TIMEOUT_SECS: u64 = 10;

/// The only host that is ever dialed for a share.
pub const LOOPBACK: &'static str = "127.0.0.1";

/// The first byte of a TLS handshake record.
pub const TLS_HANDSHAKE: u8 = 0x16;

/// The reserved path prefix for lclhst's own pages (CA download, help).
pub const ONBOARDING_PREFIX: &'static str = "/.lclhst";

/// Where the CA certificate is downloaded.
pub const CA_PATH: &'static str = "/.lclhst/ca";

/// The content type of every page.
pub const HTML: &'static str = "text/html; charset=utf-8";

/// The content type that makes iOS offer profile installation and Android
/// offer CA installation on tap.
pub const CA_TYPE: &'static str = "application/x-x509-ca-cert";

/// Offers the CA certificate as a file.
pub const CA_DISPOSITION: &'static str = "attachment; filename=\"lclhst-ca.crt\"";

/// The error page up to its title.
pub const ERROR_PAGE_TITLE: &'static str = "<!doctype html><html><head><title>";

/// The error page between its title and its heading.
pub const ERROR_PAGE_STYLE: &'static str = " — lclhst</title>\
    <style>body{font-family:system-ui;max-width:36rem;margin:4rem auto;color:#333}\
    code{background:#f4f4f4;padding:.1rem .3rem;border-radius:4px}</style></head>\
    <body><h1>";

/// The error page between its heading and the tunnel name.
pub const ERROR_PAGE_NAME: &'static str = "</h1><p>The tunnel <code>";

/// The error page between the tunnel name and the detail.
pub const ERROR_PAGE_DETAIL: &'static str =
    "</code> is up, but the request didn't make it through:</p><p><em>";

/// The error page after the detail.
pub const ERROR_PAGE_END: &'static str = "</em></p>\
    <p>The app on the serving side may have stopped. Ask the person running\
    <code>lclhst serve</code> to check.</p></body></html>";

/// The onboarding page up to the share's name.
pub const ONBOARDING_HEAD: &'static str =
    "<!doctype html><html><head><title>trust this device — lclhst</title>\
    <meta name=\"viewport\" content=\"width=device-width, initial-scale=1\">\
    <style>body{font-family:system-ui;max-width:36rem;margin:2rem auto;padding:0 1rem;color:#333}\
    code{background:#f4f4f4;padding:.1rem .3rem;border-radius:4px}\
    a.button{display:inline-block;background:#0a7;color:#fff;padding:.6rem 1.2rem;\
    border-radius:8px;text-decoration:none;margin:.5rem 0}</style></head>\
    <body><h2>Trust this device once, browse without warnings</h2>\
    <p><code>";

/// The onboarding page after the share's name.
pub const ONBOARDING_TAIL: &'static str =
    "</code> is shared via lclhst. Its certificates are signed by a\
    private authority on the sharing machine. Install that authority once and\
    every lclhst share from it gets a normal padlock.</p>\
    <p><a class=\"button\" href=\"/.lclhst/ca\">Download the certificate</a></p>\
    <p><strong>iPhone/iPad:</strong> after downloading, Settings → General →\
    VPN &amp; Device Management → install the profile, then Settings → General →\
    About → Certificate Trust Settings → enable full trust.</p>\
    <p><strong>Android:</strong> after downloading, tap the file (or Settings →\
    Security → Install a certificate → CA certificate).</p>\
    <p><strong>Mac/Linux:</strong> run <code>lclhst trust</code> on the machine\
    that serves, or import the downloaded file into your trust store.</p>\
    <p>Skipping this is fine too — traffic is encrypted either way; your browser\
    just can't verify who it's talking to, so it shows a warning.</p>\
    </body></html>";

/// Why a stream into the tunnel could not be used.
#[derive(Debug)]
pub enum HandshakeError {
    /// No hello can be made for the name.
    Hello(protocol::HelloError),
    /// The stream ended before the status byte.
    NoStatus,
    /// The far side could not reach its app.
    AppUnreachable,
}

/// How far the handshake on a fresh stream has come.
#[derive(Debug, Clone, Copy)]
pub enum HandshakeEvent {
    /// The stream has been opened.
    Open,
    /// The hello has been sent and this status byte came back, if any did.
    Status(Option<u8>),
}

/// What to do next in the handshake.
#[derive(Debug)]
pub enum HandshakeStep {
    /// Send these bytes and read the status byte.
    Send(Vec<u8>),
    /// The stream leads to the app.
    Ready,
}

/// Whether a status byte says that the app has been reached.
pub open spec fn app_reached(status: Option<u8>) -> bool {
    status == Some(STATUS_OK)
}

/// Send the hello, consume the status byte. Shared by every opener.
pub fn client_handshake(name: &str, event: HandshakeEvent) -> (r: Result<
    HandshakeStep,
    HandshakeError,
>)
    ensures
        match event {
            HandshakeEvent::Open => if protocol::valid_label(name@) {
                r matches Ok(HandshakeStep::Send(hello)) && hello@ == protocol::hello_frame(name@)
            } else {
                r matches Err(HandshakeError::Hello(protocol::HelloError::InvalidName(s))) && s@
                    == name@
            },
            HandshakeEvent::Status(None) => r matches Err(HandshakeError::NoStatus),
            HandshakeEvent::Status(Some(b)) => if app_reached(Some(b)) {
                r matches Ok(HandshakeStep::Ready)
            } else {
                r matches Err(HandshakeError::AppUnreachable)
            },
        },
{
    match event {
        HandshakeEvent::Open => match protocol::write_hello(name) {
            Ok(hello) => Ok(HandshakeStep::Send(hello)),
            Err(e) => Err(HandshakeError::Hello(e)),
        },
        HandshakeEvent::Status(None) => Err(HandshakeError::NoStatus),
        HandshakeEvent::Status(Some(b)) => {
            if b != STATUS_OK {
                return Err(HandshakeError::AppUnreachable);
            }
            Ok(HandshakeStep::Ready)
        },
    }
}

impl HandshakeError {
    /// What the visitor is told.
    pub fn message(&self) -> (r: String)
        ensures
            r@ == match self {
                HandshakeError::Hello(e) => e.text(),
                HandshakeError::NoStatus => "reading status byte"@,
                HandshakeError::AppUnreachable => "the app is not reachable on the far side"@,
            },
    {
        match self {
            HandshakeError::Hello(e) => e.message(),
            HandshakeError::NoStatus => "reading status byte".to_owned(),
            HandshakeError::AppUnreachable => "the app is not reachable on the far side".to_owned(),
        }
    }
}

/// What the visitor is told when no stream can be opened in the tunnel.
pub fn tunnel_unreachable(cause: &str) -> (r: String)
    ensures
        r@ == "tunnel unreachable: "@ + cause@,
{
    let mut out: String = "tunnel unreachable: ".to_owned();
    out.append(cause);
    out
}

/// Opener that skips the tunnel entirely: each open is a TCP connection to
/// a port on this machine. This is what serves the LAN on the `serve` side,
/// where the target is local and no QUIC hop exists.
#[derive(Debug, Clone, Copy)]
pub struct DirectOpener {
    pub port: u16,
}

impl DirectOpener {
    /// The address to connect to.
    pub fn address(&self) -> (r: (&'static str, u16))
        ensures
            r.0@ == LOOPBACK@,
            r.0@ == "127.0.0.1"@,
            r.1 == self.port,
    {
        (LOOPBACK, self.port)
    }

    /// What the visitor is told when the connection fails.
    pub fn unreachable(&self) -> (r: String)
        ensures
            r@ == "the app on port "@ + text::decimal(self.port as nat) + " is not reachable"@,
    {
        let mut out: String = "the app on port ".to_owned();
        out.append(text::decimal_of(self.port as u64).as_str());
        out.append(" is not reachable");
        out
    }
}

/// The reason phrase of a status code, where it has one.
pub uninterp spec fn canonical_reason(code: u16) -> Option<Seq<char>>;

/// `hyper::StatusCode::canonical_reason`: the registered reason phrase of a
/// status code, a function of the code alone.
#[verifier::external_body]
fn reason_of(code: u16) -> (r: Option<&'static str>)
    requires
        100 <= code <= 999,
    ensures
        r is Some <==> canonical_reason(code) is Some,
        r matches Some(s) ==> canonical_reason(code) == Some(s@),
        r matches Some(s) ==> (code == 502 ==> s@ == "Bad Gateway"@),
        r matches Some(s) ==> (code == 504 ==> s@ == "Gateway Timeout"@),
        code == 502 || code == 504 ==> r is Some,
{
    hyper::StatusCode::from_u16(code).ok().and_then(|s| s.canonical_reason())
}

/// The text of the page for a failed request.
pub open spec fn error_html(
    code: u16,
    reason: Seq<char>,
    tunnel_name: Seq<char>,
    detail: Seq<char>,
) -> Seq<char> {
    ERROR_PAGE_TITLE@ + text::decimal(code as nat) + ERROR_PAGE_STYLE@ + text::decimal(code as nat)
        + " "@ + reason + ERROR_PAGE_NAME@ + tunnel_name + ERROR_PAGE_DETAIL@ + detail
        + ERROR_PAGE_END@
}

/// The reason phrase that goes on a page: empty where there is none.
pub open spec fn page_reason(code: u16) -> Seq<char> {
    match canonical_reason(code) {
        Some(s) => s,
        None => Seq::empty(),
    }
}

/// The page for a failed request, with the given reason phrase.
pub fn error_page_with(status: u16, reason: &str, tunnel_name: &str, detail: &str) -> (r: Reply)
    ensures
        r.says(
            status,
            seq![("content-type"@, HTML@)],
            error_html(status, reason@, tunnel_name@, detail@),
        ),
{
    let code = text::decimal_of(status as u64);
    let mut html: String = ERROR_PAGE_TITLE.to_owned();
    html.append(code.as_str());
    html.append(ERROR_PAGE_STYLE);
    html.append(code.as_str());
    html.append(" ");
    html.append(reason);
    html.append(ERROR_PAGE_NAME);
    html.append(tunnel_name);
    html.append(ERROR_PAGE_DETAIL);
    html.append(detail);
    html.append(ERROR_PAGE_END);
    Reply::typed(status, HTML, html)
}

/// The page for a failed request.
pub fn error_page(status: u16, tunnel_name: &str, detail: &str) -> (r: Reply)
    requires
        100 <= status <= 999,
    ensures
        r.says(
            status,
            seq![("content-type"@, HTML@)],
            error_html(status, page_reason(status), tunnel_name@, detail@),
        ),
        status == 502 ==> r.body@ == error_html(502, "Bad Gateway"@, tunnel_name@, detail@),
        status == 504 ==> r.body@ == error_html(504, "Gateway Timeout"@, tunnel_name@, detail@),
{
    match reason_of(status) {
        Some(reason) => error_page_with(status, reason, tunnel_name, detail),
        None => {
            let none: String = String::new();
            let r = error_page_with(status, none.as_str(), tunnel_name, detail);
            assert(none@ =~= Seq::<char>::empty());
            r
        },
    }
}

/// How opening a stream into the tunnel went.
#[derive(Debug)]
pub enum Opened {
    /// A handshaken stream.
    Stream,
    /// It failed, for this reason.
    Failed(String),
    /// It took longer than `OPEN_TIMEOUT_SECS`.
    TimedOut,
}

/// What to do with a request.
#[derive(Debug)]
pub enum Verdict {
    /// Send it through the stream.
    Proxy,
    /// Answer it here.
    Answer(Reply),
}

/// Decide on a request once the tunnel has (not) been opened. Failures become
/// styled 502/504 pages instead of connection drops.
pub fn handle_request(opened: Opened, tunnel_name: &str) -> (r: Verdict)
    ensures
        match opened {
            Opened::Stream => r is Proxy,
            Opened::Failed(e) => r matches Verdict::Answer(reply) && reply.says(
                502,
                seq![("content-type"@, HTML@)],
                error_html(502, "Bad Gateway"@, tunnel_name@, e@),
            ),
            Opened::TimedOut => r matches Verdict::Answer(reply) && reply.says(
                504,
                seq![("content-type"@, HTML@)],
                error_html(
                    504,
                    "Gateway Timeout"@,
                    tunnel_name@,
                    "the tunnel did not answer in time"@,
                ),
            ),
        },
{
    match opened {
        Opened::Stream => Verdict::Proxy,
        Opened::Failed(e) => Verdict::Answer(error_page(502, tunnel_name, e.as_str())),
        Opened::TimedOut => Verdict::Answer(
            error_page(504, tunnel_name, "the tunnel did not answer in time"),
        ),
    }
}

/// The page for a request that failed inside the opened stream.
pub fn proxy_failed(tunnel_name: &str, detail: &str) -> (r: Reply)
    ensures
        r.says(
            502,
            seq![("content-type"@, HTML@)],
            error_html(502, "Bad Gateway"@, tunnel_name@, detail@),
        ),
{
    error_page(502, tunnel_name, detail)
}

/// Whether an upstream answer turns the exchange into a raw byte stream in
/// both directions: it switches protocols and the visitor can follow.
pub fn upgrades(status: u16, visitor_can_upgrade: bool) -> (r: bool)
    ensures
        r == (status == 101 && visitor_can_upgrade),
{
    status == 101 && visitor_can_upgrade
}

/// The share's onboarding page.
pub open spec fn onboarding_html(name: Seq<char>) -> Seq<char> {
    ONBOARDING_HEAD@ + name + ONBOARDING_TAIL@
}

/// How to trust this machine's CA on a device.
pub fn onboarding_page(name: &str) -> (r: String)
    ensures
        r@ == onboarding_html(name@),
{
    let mut out: String = ONBOARDING_HEAD.to_owned();
    out.append(name);
    out.append(ONBOARDING_TAIL);
    out
}

/// Responses for the reserved `/.lclhst/` routes, or `None` to proxy normally.
pub fn onboarding_response(path: &str, name: &str, ca_pem: &str) -> (r: Option<Reply>)
    ensures
        if path@ == CA_PATH@ {
            r matches Some(reply) && reply.says(
                200,
                seq![
                    ("content-type"@, CA_TYPE@),
                    ("content-disposition"@, CA_DISPOSITION@),
                ],
                ca_pem@,
            )
        } else if path@ == "/.lclhst"@ || path@ == "/.lclhst/"@ {
            r matches Some(reply) && reply.says(
                200,
                seq![("content-type"@, HTML@)],
                onboarding_html(name@),
            )
        } else {
            r is None
        },
{
    if text::same(path, CA_PATH) {
        let mut reply = Reply::typed(200, CA_TYPE, ca_pem.to_owned());
        let ghost before = reply.headers@;
        reply.headers.push(("content-disposition".to_owned(), CA_DISPOSITION.to_owned()));
        assert(crate::reply::header_texts(reply.headers@) =~= crate::reply::header_texts(
            before,
        ).push(("content-disposition"@, CA_DISPOSITION@)));
        assert(crate::reply::header_texts(reply.headers@) =~= seq![
            ("content-type"@, CA_TYPE@),
            ("content-disposition"@, CA_DISPOSITION@),
        ]);
        Some(reply)
    } else if text::same(path, "/.lclhst") || text::same(path, "/.lclhst/") {
        Some(Reply::typed(200, HTML, onboarding_page(name)))
    } else {
        None
    }
}

/// What the first bytes of a connection make of it.
#[derive(Debug, Clone, Copy, PartialEq, Eq, Structural)]
pub enum Front {
    /// Nothing came: close it.
    Close,
    /// Plain HTTP: serve onboarding routes or redirect to https.
    Plaintext,
    /// A TLS handshake.
    Tls,
}

/// Browsers given a bare host:port try plain http first. A TLS record always
/// starts with a handshake; anything else is plaintext. `peeked` is the number
/// of bytes that were peeked at with the first of them, or `None` on an error.
pub fn classify(peeked: Option<(usize, u8)>) -> (r: Front)
    ensures
        r == match peeked {
            None => Front::Close,
            Some((n, first)) => if n == 0 {
                Front::Close
            } else if first == TLS_HANDSHAKE {
                Front::Tls
            } else {
                Front::Plaintext
            },
        },
{
    match peeked {
        None => Front::Close,
        Some((n, first)) => {
            if n == 0 {
                Front::Close
            } else if first != TLS_HANDSHAKE {
                Front::Plaintext
            } else {
                Front::Tls
            }
        },
    }
}

/// The ports an edge may listen on, in order of preference.
pub open spec fn bind_candidates(port: Option<u16>) -> Seq<u16> {
    match port {
        Some(p) => seq![p],
        None => seq![443, 4433],
    }
}

/// What to do next to get an edge listening.
#[derive(Debug, Clone, Copy, PartialEq, Eq, Structural)]
pub enum BindStep {
    /// Try to listen on this port.
    Try(u16),
    /// Report that listening on this port failed.
    GiveUp(u16),
}

/// Bind a listener for an edge, trying each port in order. `None` means auto:
/// 443 first (bare https URLs), then the registered fallback 4433. `failures`
/// is the number of ports that could not be bound so far.
pub fn bind(port: Option<u16>, failures: usize) -> (r: BindStep)
    ensures
        r == if failures < bind_candidates(port).len() {
            BindStep::Try(bind_candidates(port)[failures as int])
        } else {
            BindStep::GiveUp(bind_candidates(port).last())
        },
{
    match port {
        Some(p) => {
            if failures == 0 {
                BindStep::Try(p)
            } else {
                BindStep::GiveUp(p)
            }
        },
        None => {
            if failures == 0 {
                BindStep::Try(443)
            } else if failures == 1 {
                BindStep::Try(4433)
            } else {
                BindStep::GiveUp(4433)
            }
        },
    }
}

/// The page for a failed request shows its status code, in the title and the
/// heading, the reason phrase, the tunnel's name, and the detail, each as given.
pub proof fn error_pages_show_what_went_wrong(
    code: u16,
    reason: Seq<char>,
    tunnel_name: Seq<char>,
    detail: Seq<char>,
)
    ensures
        error_html(code, reason, tunnel_name, detail) == ERROR_PAGE_TITLE@ + text::decimal(
            code as nat,
        ) + ERROR_PAGE_STYLE@ + text::decimal(code as nat) + seq![' '] + reason + ERROR_PAGE_NAME@
            + tunnel_name + ERROR_PAGE_DETAIL@ + detail + ERROR_PAGE_END@,
        forall|other: Seq<char>| #[trigger]
            error_html(code, reason, tunnel_name, other) == error_html(
                code,
                reason,
                tunnel_name,
                detail,
            ) ==> other == detail,
{
    reveal_strlit(" ");
    assert(" "@ =~= seq![' ']);
    let head = ERROR_PAGE_TITLE@ + text::decimal(code as nat) + ERROR_PAGE_STYLE@ + text::decimal(
        code as nat,
    ) + " "@ + reason + ERROR_PAGE_NAME@ + tunnel_name + ERROR_PAGE_DETAIL@;
    assert forall|other: Seq<char>| #[trigger]
        error_html(code, reason, tunnel_name, other) == error_html(
            code,
            reason,
            tunnel_name,
            detail,
        ) implies other == detail by {
        let a = head + other + ERROR_PAGE_END@;
        let b = head + detail + ERROR_PAGE_END@;
        assert(a == b);
        assert(a.len() == b.len());
        assert(a.subrange(head.len() as int, (head.len() + other.len()) as int) =~= other);
        assert(b.subrange(head.len() as int, (head.len() + detail.len()) as int) =~= detail);
    }
}

/// A page has the registered reason phrase of its status code, where there is one.
pub proof fn pages_give_the_registered_reason(code: u16)
    ensures
        canonical_reason(code) matches Some(reason) ==> page_reason(code) == reason,
        canonical_reason(code) is None ==> page_reason(code).len() == 0,
{
}

/// The onboarding page shows the share's name and leads to the CA certificate.
pub proof fn the_onboarding_page_shows_the_name(name: Seq<char>)
    ensures
        onboarding_html(name) == ONBOARDING_HEAD@ + name + ONBOARDING_TAIL@,
        forall|other: Seq<char>| #[trigger]
            onboarding_html(other) == onboarding_html(name) ==> other == name,
{
    assert forall|other: Seq<char>| #[trigger]
        onboarding_html(other) == onboarding_html(name) implies other == name by {
        let a = onboarding_html(other);
        let b = onboarding_html(name);
        let h = ONBOARDING_HEAD@.len() as int;
        assert(a.len() == b.len());
        assert(a.subrange(h, h + other.len()) =~= other);
        assert(b.subrange(h, h + name.len()) =~= name);
    }
}

/// The app is reached exactly where the status byte is zero.
pub proof fn only_a_zero_status_means_reached(status: Option<u8>)
    ensures
        app_reached(status) <==> (status matches Some(b) && b == 0),
{
}

/// An edge listens on the port it is given and tries no other; where it is given
/// none, it tries 443 and then 4433.
pub proof fn edges_try_their_ports_in_order(port: Option<u16>)
    ensures
        port matches Some(p) ==> bind_candidates(port).len() == 1 && bind_candidates(port)[0] == p,
        port is None ==> bind_candidates(port).len() == 2 && bind_candidates(port)[0] == 443
            && bind_candidates(port)[1] == 4433,
{
}

} // verus!
