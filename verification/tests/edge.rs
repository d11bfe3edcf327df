use lclhst::edge::{
    bind, classify, client_handshake, error_page, error_page_with, handle_request,
    onboarding_page, onboarding_response, proxy_failed, tunnel_unreachable, upgrades, BindStep,
    DirectOpener, Front, HandshakeError, HandshakeEvent, HandshakeStep, Opened, Verdict,
};
use lclhst::protocol::{STATUS_CONNECT_FAILED, STATUS_OK};

const HTML: &str = "text/html; charset=utf-8";

#[test]
fn app_down_becomes_502_naming_the_tunnel() {
    let detail = client_handshake("myapp", HandshakeEvent::Status(Some(STATUS_CONNECT_FAILED)))
        .unwrap_err()
        .message();
    let resp = match handle_request(Opened::Failed(detail), "myapp") {
        Verdict::Answer(reply) => reply,
        Verdict::Proxy => panic!("nothing to proxy to"),
    };
    assert_eq!(resp.status, 502);
    let text = resp.body;
    assert!(
        text.contains("myapp"),
        "502 page should name the tunnel: {text}"
    );
    assert!(text.contains("the app is not reachable on the far side"));
}

#[test]
fn app_down_yields_502_page() {
    let detail = DirectOpener { port: 3000 }.unreachable();
    match handle_request(Opened::Failed(detail), "myapp") {
        Verdict::Answer(reply) => {
            assert_eq!(reply.status, 502);
            assert!(reply.body.contains("myapp"));
            assert!(reply.body.contains("the app on port 3000 is not reachable"));
        }
        Verdict::Proxy => panic!("nothing to proxy to"),
    }
}

#[test]
fn error_pages_look_like_this() {
    let reply = error_page(502, "myapp", "boom");
    assert_eq!(
        reply.headers,
        vec![("content-type".to_string(), HTML.to_string())]
    );
    assert_eq!(
        reply.body,
        "<!doctype html><html><head><title>502 — lclhst</title>\
         <style>body{font-family:system-ui;max-width:36rem;margin:4rem auto;color:#333}\
         code{background:#f4f4f4;padding:.1rem .3rem;border-radius:4px}</style></head>\
         <body><h1>502 Bad Gateway</h1>\
         <p>The tunnel <code>myapp</code> is up, but the request didn't make it through:</p>\
         <p><em>boom</em></p>\
         <p>The app on the serving side may have stopped. Ask the person running\
         <code>lclhst serve</code> to check.</p></body></html>"
    );
    assert!(error_page(799, "myapp", "boom").body.contains("<h1>799 </h1>"));
    assert_eq!(
        error_page_with(418, "I'm a teapot", "t", "d").body,
        error_page(418, "t", "d").body
    );
}

#[test]
fn a_slow_tunnel_becomes_504() {
    match handle_request(Opened::TimedOut, "myapp") {
        Verdict::Answer(reply) => {
            assert_eq!(reply.status, 504);
            assert!(reply.body.contains("<h1>504 Gateway Timeout</h1>"));
            assert!(reply.body.contains("the tunnel did not answer in time"));
        }
        Verdict::Proxy => panic!("nothing to proxy to"),
    }
    assert!(matches!(handle_request(Opened::Stream, "myapp"), Verdict::Proxy));
}

#[test]
fn a_failure_inside_the_stream_becomes_502() {
    assert_eq!(proxy_failed("myapp", "boom").body, error_page(502, "myapp", "boom").body);
    assert_eq!(proxy_failed("myapp", "boom").status, 502);
}

#[test]
fn the_handshake_sends_the_hello_and_reads_the_status() {
    match client_handshake("myapp", HandshakeEvent::Open) {
        Ok(HandshakeStep::Send(hello)) => assert_eq!(hello, b"\x00\x05myapp".to_vec()),
        other => panic!("{other:?}"),
    }
    assert!(matches!(
        client_handshake("myapp", HandshakeEvent::Status(Some(STATUS_OK))),
        Ok(HandshakeStep::Ready)
    ));
    let e = client_handshake("myapp", HandshakeEvent::Status(None)).unwrap_err();
    assert_eq!(e.message(), "reading status byte");
    let e = client_handshake("Bad.Name", HandshakeEvent::Open).unwrap_err();
    assert!(matches!(e, HandshakeError::Hello(_)));
    assert_eq!(e.message(), "invalid tunnel name: \"Bad.Name\"");
    for status in 1..=255u8 {
        assert!(matches!(
            client_handshake("myapp", HandshakeEvent::Status(Some(status))),
            Err(HandshakeError::AppUnreachable)
        ));
    }
}

#[test]
fn only_switching_protocols_upgrades() {
    assert!(upgrades(101, true));
    assert!(!upgrades(101, false));
    assert!(!upgrades(200, true));
}

#[test]
fn onboarding_routes_are_answered_here() {
    let ca = onboarding_response("/.lclhst/ca", "myapp", "PEM").unwrap();
    assert_eq!(ca.status, 200);
    assert_eq!(ca.body, "PEM");
    assert_eq!(
        ca.headers,
        vec![
            (
                "content-type".to_string(),
                "application/x-x509-ca-cert".to_string()
            ),
            (
                "content-disposition".to_string(),
                "attachment; filename=\"lclhst-ca.crt\"".to_string()
            ),
        ]
    );
    for path in ["/.lclhst", "/.lclhst/"] {
        let page = onboarding_response(path, "myapp", "PEM").unwrap();
        assert_eq!(page.status, 200);
        assert_eq!(page.body, onboarding_page("myapp"));
        assert_eq!(page.headers, vec![("content-type".to_string(), HTML.to_string())]);
    }
    assert!(onboarding_response("/.lclhst/other", "myapp", "PEM").is_none());
    assert!(onboarding_response("/", "myapp", "PEM").is_none());
}

#[test]
fn the_onboarding_page_names_the_share() {
    let page = onboarding_page("myapp");
    assert_eq!(
        page,
        "<!doctype html><html><head><title>trust this device — lclhst</title>\
         <meta name=\"viewport\" content=\"width=device-width, initial-scale=1\">\
         <style>body{font-family:system-ui;max-width:36rem;margin:2rem auto;padding:0 1rem;color:#333}\
         code{background:#f4f4f4;padding:.1rem .3rem;border-radius:4px}\
         a.button{display:inline-block;background:#0a7;color:#fff;padding:.6rem 1.2rem;\
         border-radius:8px;text-decoration:none;margin:.5rem 0}</style></head>\
         <body><h2>Trust this device once, browse without warnings</h2>\
         <p><code>myapp</code> is shared via lclhst. Its certificates are signed by a\
         private authority on the sharing machine. Install that authority once and\
         every lclhst share from it gets a normal padlock.</p>\
         <p><a class=\"button\" href=\"/.lclhst/ca\">Download the certificate</a></p>\
         <p><strong>iPhone/iPad:</strong> after downloading, Settings → General →\
         VPN &amp; Device Management → install the profile, then Settings → General →\
         About → Certificate Trust Settings → enable full trust.</p>\
         <p><strong>Android:</strong> after downloading, tap the file (or Settings →\
         Security → Install a certificate → CA certificate).</p>\
         <p><strong>Mac/Linux:</strong> run <code>lclhst trust</code> on the machine\
         that serves, or import the downloaded file into your trust store.</p>\
         <p>Skipping this is fine too — traffic is encrypted either way; your browser\
         just can't verify who it's talking to, so it shows a warning.</p>\
         </body></html>"
    );
}

#[test]
fn the_first_byte_tells_tls_from_plaintext() {
    assert_eq!(classify(None), Front::Close);
    assert_eq!(classify(Some((0, 0x16))), Front::Close);
    assert_eq!(classify(Some((1, 0x16))), Front::Tls);
    assert_eq!(classify(Some((1, b'G'))), Front::Plaintext);
}

#[test]
fn ports_are_tried_in_order() {
    assert_eq!(bind(None, 0), BindStep::Try(443));
    assert_eq!(bind(None, 1), BindStep::Try(4433));
    assert_eq!(bind(None, 2), BindStep::GiveUp(4433));
    assert_eq!(bind(Some(8443), 0), BindStep::Try(8443));
    assert_eq!(bind(Some(8443), 1), BindStep::GiveUp(8443));
}

#[test]
fn the_direct_opener_dials_this_machine() {
    assert_eq!(tunnel_unreachable("closed"), "tunnel unreachable: closed");
    assert_eq!(DirectOpener { port: 3000 }.address(), ("127.0.0.1", 3000));
}
