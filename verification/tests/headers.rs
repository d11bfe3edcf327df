use lclhst::headers::rewrite_host;

#[test]
fn proxies_a_request_and_rewrites_host() {
    let req = hyper::Request::builder()
        .uri("/")
        .header("host", "myapp.localhost:4433")
        .body(())
        .unwrap();
    let mut headers = req.headers().clone();
    rewrite_host(&mut headers).unwrap();
    // Host must be rewritten for the local app, not leak myapp.localhost
    assert_eq!(headers.get("host").unwrap(), "localhost");
    assert_eq!(headers.len(), 1);
}

#[test]
fn every_host_is_replaced_and_the_rest_kept() {
    let req = hyper::Request::builder()
        .uri("/")
        .header("host", "one")
        .header("accept", "a")
        .header("Host", "two")
        .header("accept", "b")
        .body(())
        .unwrap();
    let mut headers = req.headers().clone();
    rewrite_host(&mut headers).unwrap();
    let hosts: Vec<_> = headers.get_all("host").iter().collect();
    assert_eq!(hosts, vec!["localhost"]);
    let accepts: Vec<_> = headers.get_all("accept").iter().collect();
    assert_eq!(accepts, vec!["a", "b"]);
}

#[test]
fn a_missing_host_is_added() {
    let mut headers = hyper::HeaderMap::new();
    rewrite_host(&mut headers).unwrap();
    assert_eq!(headers.get("host").unwrap(), "localhost");
}

#[test]
fn many_headers_are_no_obstacle() {
    let mut headers = hyper::HeaderMap::new();
    for i in 0..6553 {
        let name: hyper::header::HeaderName = format!("x-{i}").parse().unwrap();
        headers.insert(name, hyper::header::HeaderValue::from_static("v"));
    }
    rewrite_host(&mut headers).unwrap();
    assert_eq!(headers.len(), 6554);
    assert_eq!(headers.get("host").unwrap(), "localhost");
}

#[test]
fn a_full_map_is_left_alone() {
    let mut headers = hyper::HeaderMap::new();
    let mut i = 0;
    loop {
        let name: hyper::header::HeaderName = format!("x-{i}").parse().unwrap();
        if headers
            .try_insert(name, hyper::header::HeaderValue::from_static("v"))
            .is_err()
        {
            break;
        }
        i += 1;
    }
    let before = headers.len();
    assert!(rewrite_host(&mut headers).is_err());
    assert_eq!(headers.len(), before);
    assert!(headers.get("host").is_none());
}
