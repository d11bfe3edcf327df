use lclhst::edge::onboarding_page;
use lclhst::plaintext::{answer_plaintext, serve_plaintext};

const CA: &str = "-----BEGIN CERTIFICATE-----\nabc\n-----END CERTIFICATE-----\n";

fn plaintext_request(path: &str) -> String {
    let request = format!("GET {path} HTTP/1.1\r\nHost: myapp.local:4433\r\n\r\n");
    serve_plaintext(request.as_bytes(), "myapp", CA)
}

#[test]
fn plain_http_serves_onboarding_routes() {
    let ca = plaintext_request("/.lclhst/ca");
    assert!(ca.starts_with("HTTP/1.1 200"), "{ca}");
    assert!(ca.contains("-----BEGIN CERTIFICATE-----"), "{ca}");
    let help = plaintext_request("/.lclhst/");
    assert!(help.starts_with("HTTP/1.1 200"), "{help}");
    assert!(help.contains("Trust this device"), "{help}");
}

#[test]
fn plain_http_gets_redirected_to_https() {
    let resp = plaintext_request("/sub/page?x=1");
    assert!(resp.starts_with("HTTP/1.1 301"), "{resp}");
    assert!(
        resp.contains("location: https://myapp.local:4433/sub/page?x=1"),
        "{resp}"
    );
}

#[test]
fn plain_answers_look_like_this() {
    assert_eq!(
        plaintext_request("/.lclhst/ca"),
        format!(
            "HTTP/1.1 200 OK\r\ncontent-type: application/x-x509-ca-cert\r\n\
             content-disposition: attachment; filename=\"lclhst-ca.crt\"\r\n\
             content-length: {}\r\nconnection: close\r\n\r\n{}",
            CA.len(),
            CA
        )
    );
    let page = onboarding_page("myapp");
    assert_eq!(
        plaintext_request("/.lclhst-and-more"),
        format!(
            "HTTP/1.1 200 OK\r\ncontent-type: text/html; charset=utf-8\r\n\
             content-length: {}\r\nconnection: close\r\n\r\n{}",
            page.len(),
            page
        )
    );
    assert_eq!(
        plaintext_request("/a"),
        "HTTP/1.1 301 Moved Permanently\r\nlocation: https://myapp.local:4433/a\r\n\
         content-length: 0\r\nconnection: close\r\n\r\n"
    );
}

fn location(head: &str) -> String {
    let answer = answer_plaintext(head, "myapp", CA);
    let line = answer.lines().nth(1).unwrap().to_string();
    line.strip_prefix("location: ").unwrap().to_string()
}

#[test]
fn hosts_are_read_leniently() {
    assert_eq!(location("GET /a HTTP/1.1\r\nhost:  me:80 \r\n\r\n"), "https://me:80/a");
    assert_eq!(location("GET /a HTTP/1.1\nX: y\nHost: me\n\n"), "https://me/a");
    assert_eq!(location("GET /a HTTP/1.1\r\n\r\n"), "https://myapp.local/a");
    assert_eq!(location("GET /a HTTP/1.1\r\nHost:    \r\n\r\n"), "https://myapp.local/a");
    assert_eq!(location("GET /a HTTP/1.1\r\nHOST: me\r\n\r\n"), "https://me/a");
    assert_eq!(location("GET /a HTTP/1.1\r\nhOsT:me:1\t\r\n\r\n"), "https://me:1/a");
    assert_eq!(location("GET /a HTTP/1.1\r\nX-Host: me\r\n\r\n"), "https://myapp.local/a");
    assert_eq!(location("GET /host:x HTTP/1.1\r\nHost: me\r\n\r\n"), "https://me/host:x");
    assert_eq!(
        location("GET /a HTTP/1.1\r\nHost: one\r\nHost: two\r\n\r\n"),
        "https://one/a"
    );
}

#[test]
fn the_port_survives_whatever_the_case_of_the_field() {
    let answer = serve_plaintext(
        b"GET /a HTTP/1.1\r\nHOST: myapp.local:4433\r\n\r\n",
        "myapp",
        CA,
    );
    assert!(answer.contains("location: https://myapp.local:4433/a\r\n"), "{answer}");
    let answer = serve_plaintext(
        b"GET /a HTTP/1.1\r\nHost:myapp.local:4433\r\n\r\n",
        "myapp",
        CA,
    );
    assert!(answer.contains("location: https://myapp.local:4433/a\r\n"), "{answer}");
}

#[test]
fn paths_are_read_leniently() {
    assert_eq!(location(""), "https://myapp.local/");
    assert_eq!(location("GET"), "https://myapp.local/");
    assert_eq!(location("GET http://x/ HTTP/1.1"), "https://myapp.local/");
    assert_eq!(location("  GET\t/b  HTTP/1.1"), "https://myapp.local/b");
}

#[test]
fn bytes_that_are_no_text_are_replaced() {
    let answer = serve_plaintext(b"GET /\xff HTTP/1.1\r\n\r\n", "myapp", CA);
    assert!(answer.contains("location: https://myapp.local/\u{fffd}\r\n"), "{answer}");
}
