use lclhst::fileserve::{
    answer_with, directory_answer, directory_page, extension_of, file_answer, found, handle,
    starts_with, FileAnswer, Found, Step,
};
use lclhst::listing::{html_escape, listing, sorted, Entry};

fn path(components: &[&str]) -> Vec<Vec<u8>> {
    components.iter().map(|c| c.as_bytes().to_vec()).collect()
}

fn file(name: &str, size: u64) -> Entry {
    Entry { is_dir: false, name: name.to_string(), size: Some(size) }
}

fn dir(name: &str) -> Entry {
    Entry { is_dir: true, name: name.to_string(), size: None }
}

fn lookup(uri_path: &str) -> Option<Vec<String>> {
    match handle("GET", uri_path, false) {
        Step::Lookup(parts) => Some(parts),
        Step::Answer(reply) => {
            assert_eq!(reply.status, 404);
            assert_eq!(reply.body, "not found");
            None
        }
        Step::Root => panic!("the root is no file"),
    }
}

fn content_type(answer: FileAnswer) -> String {
    match answer {
        FileAnswer::Contents(headers) => {
            assert_eq!(headers[0].0, "content-type");
            headers[0].1.clone()
        }
        FileAnswer::Answer(reply) => panic!("{reply:?}"),
    }
}

#[test]
fn serves_files_with_mime_types() {
    assert_eq!(lookup("/hello.txt").unwrap(), vec!["hello.txt"]);
    let ctype = content_type(file_answer("hello.txt", true, Some(8)));
    assert!(ctype.starts_with("text/plain"), "{ctype}");

    assert_eq!(lookup("/sub/page.html").unwrap(), vec!["sub", "page.html"]);
    let ctype = content_type(file_answer("page.html", true, Some(13)));
    assert!(ctype.starts_with("text/html"), "{ctype}");
}

#[test]
fn lists_directories_with_encoded_links() {
    let entries = vec![file("hello.txt", 8), dir("sub"), file("with space.txt", 6)];
    let root = path(&["/", "tmp", "share"]);
    let reply = directory_answer(Some(directory_page(&root, &root, &entries)));
    assert_eq!(reply.status, 200);
    assert!(reply.headers[0].1.starts_with("text/html"));
    let body = reply.body;
    assert!(body.contains("hello.txt"));
    assert!(body.contains("sub/"), "dirs listed with trailing slash");
    assert!(
        body.contains("with%20space.txt"),
        "links percent-encoded: {body}"
    );

    let sub = path(&["/", "tmp", "share", "sub"]);
    let body = directory_page(&root, &sub, &vec![file("page.html", 13)]);
    assert!(body.contains("page.html"));
    assert!(body.contains("<h2>/sub</h2>"));
    assert!(body.contains("<a href=\"../\">../</a>"));
}

#[test]
fn decodes_percent_encoded_paths() {
    assert_eq!(lookup("/with%20space.txt").unwrap(), vec!["with space.txt"]);
}

#[test]
fn refuses_to_escape_the_root() {
    for sneaky in [
        "/../etc/passwd",
        "/%2e%2e/etc/passwd",
        "/sub/%2e%2e/%2e%2e/etc/passwd",
    ] {
        assert!(lookup(sneaky).is_none(), "{sneaky} must not escape the root");
    }
}

#[test]
fn missing_file_is_404_and_post_is_405() {
    let root = path(&["/", "tmp"]);
    match found(&root, &None, false) {
        Found::Answer(reply) => assert_eq!(reply.status, 404),
        other => panic!("{other:?}"),
    }
    match handle("POST", "/hello.txt", false) {
        Step::Answer(reply) => {
            assert_eq!(reply.status, 405);
            assert_eq!(reply.body, "GET and HEAD only");
            assert_eq!(reply.headers[0].1, "text/plain; charset=utf-8");
        }
        other => panic!("{other:?}"),
    }
}

#[test]
fn serves_a_single_file_at_root() {
    assert!(matches!(handle("GET", "/", true), Step::Root));
    assert!(matches!(handle("HEAD", "/any/../where", true), Step::Root));
}

#[test]
fn paths_that_are_no_text_lead_nowhere() {
    assert!(lookup("/%ff").is_none());
    assert!(matches!(handle("GET", "/%ff", true), Step::Answer(_)));
}

#[test]
fn empty_and_dot_components_are_dropped() {
    assert_eq!(lookup("/").unwrap(), Vec::<String>::new());
    assert_eq!(lookup("").unwrap(), Vec::<String>::new());
    assert_eq!(lookup("//a/./b//").unwrap(), vec!["a", "b"]);
    assert_eq!(lookup("/a%2fb").unwrap(), vec!["a", "b"]);
    assert_eq!(lookup("/.../..a").unwrap(), vec!["...", "..a"]);
    assert_eq!(lookup("/100%").unwrap(), vec!["100%"]);
    assert_eq!(lookup("/%zz%4").unwrap(), vec!["%zz%4"]);
}

#[test]
fn nothing_outside_the_root_is_served() {
    let root = path(&["/", "tmp", "share"]);
    let inside = path(&["/", "tmp", "share", "a"]);
    let outside = path(&["/", "tmp", "share2"]);
    assert!(matches!(found(&root, &Some(inside.clone()), false), Found::File));
    assert!(matches!(found(&root, &Some(inside), true), Found::Directory));
    assert!(matches!(found(&root, &Some(root.clone()), true), Found::Directory));
    assert!(matches!(found(&root, &Some(outside.clone()), true), Found::Answer(_)));
    assert!(!starts_with(&outside, &root));
    assert!(!starts_with(&path(&["/", "tmp"]), &root));
    assert!(starts_with(&root, &path(&[])));
}

#[test]
fn files_carry_type_and_length() {
    match file_answer("a.png", true, Some(1234)) {
        FileAnswer::Contents(headers) => assert_eq!(
            headers,
            vec![
                ("content-type".to_string(), "image/png".to_string()),
                ("content-length".to_string(), "1234".to_string()),
            ]
        ),
        other => panic!("{other:?}"),
    }
    match file_answer("a", true, None) {
        FileAnswer::Contents(headers) => assert_eq!(
            headers,
            vec![(
                "content-type".to_string(),
                "application/octet-stream".to_string()
            )]
        ),
        other => panic!("{other:?}"),
    }
    match answer_with("x/y".to_string(), false, Some(1)) {
        FileAnswer::Answer(reply) => {
            assert_eq!(reply.status, 404);
            assert_eq!(reply.body, "not found");
        }
        other => panic!("{other:?}"),
    }
}

#[test]
fn media_types_go_by_the_name() {
    for name in [
        "a.html", "A.HTML", "a.tar.gz", ".html", "..html", "a.", "a.b.unknown-ext", "a", "..", "x..css",
    ] {
        let expected = mime_guess::from_path(name).first_or_octet_stream();
        assert_eq!(content_type(file_answer(name, true, None)), expected.as_ref(), "{name}");
    }
}

#[test]
fn extensions_follow_the_last_dot() {
    assert_eq!(extension_of("a.tar.gz"), "gz");
    assert_eq!(extension_of(".profile"), "");
    assert_eq!(extension_of(".profile.txt"), "txt");
    assert_eq!(extension_of("a."), "");
    assert_eq!(extension_of("a"), "");
    assert_eq!(extension_of(""), "");
}

#[test]
fn unreadable_directories_are_500() {
    let reply = directory_answer(None);
    assert_eq!(reply.status, 500);
    assert_eq!(reply.body, "listing failed");
    assert_eq!(reply.headers[0].1, "text/plain; charset=utf-8");
}

#[test]
fn listings_look_like_this() {
    let entries = vec![file("b.txt", 2048), dir("<Z>"), file("A&B", 3), file("?", 0)];
    assert_eq!(
        listing("photos/2026", true, &entries),
        "<!doctype html><html><head><title>/photos/2026 — lclhst</title>\
         <meta name=\"viewport\" content=\"width=device-width, initial-scale=1\">\
         <style>body{font-family:system-ui;max-width:42rem;margin:2rem auto;padding:0 1rem;color:#333}\
         table{width:100%;border-collapse:collapse}td{padding:.35rem .5rem;border-bottom:1px solid #eee}\
         td:last-child{text-align:right;color:#888;white-space:nowrap}a{text-decoration:none}</style>\
         </head><body><h2>/photos/2026</h2><table>\
         <tr><td><a href=\"../\">../</a></td><td></td></tr>\
         <tr><td><a href=\"%3CZ%3E/\">&lt;Z&gt;/</a></td><td></td></tr>\
         <tr><td><a href=\"%3F\">?</a></td><td>0 B</td></tr>\
         <tr><td><a href=\"A&B\">A&amp;B</a></td><td>3 B</td></tr>\
         <tr><td><a href=\"b.txt\">b.txt</a></td><td>2.0 KB</td></tr>\
         </table></body></html>"
    );
}

#[test]
fn unknown_sizes_are_left_out() {
    let entries = vec![Entry { is_dir: false, name: "x".to_string(), size: None }];
    assert!(listing("", false, &entries).contains("<td><a href=\"x\">x</a></td><td></td>"));
    assert!(!listing("", false, &entries).contains("../"));
}

#[test]
fn listings_are_ordered_like_their_keys() {
    let names = ["b", "B", "a", "\u{c9}", "e\u{301}", "\u{ffff}", "\u{10000}", "", "Z", "10", "9", "\u{130}"];
    let mut entries = Vec::new();
    for (i, name) in names.iter().enumerate() {
        for is_dir in [i % 2 == 0, i % 3 == 0] {
            entries.push(Entry { is_dir, name: name.to_string(), size: Some(entries.len() as u64) });
        }
    }
    let mut expected: Vec<(bool, String, Option<u64>)> = entries
        .iter()
        .map(|e| (e.is_dir, e.name.clone(), e.size))
        .collect();
    expected.sort_by_key(|e| (!e.0, e.1.to_lowercase()));
    let got: Vec<(bool, String, Option<u64>)> = sorted(&entries)
        .into_iter()
        .map(|e| (e.is_dir, e.name, e.size))
        .collect();
    assert_eq!(got, expected);
}

#[test]
fn links_lead_back_to_their_entries() {
    for name in ["with space.txt", "100%", "a?b#c", "\"<&>'", "%41", "\u{e9}\u{1F4BB}", "...", "a\\b"] {
        for e in [file(name, 1), dir(name)] {
            let page = listing("", false, &vec![e]);
            let link = page.split("href=\"").nth(1).unwrap().split('"').next().unwrap();
            assert_eq!(lookup(&format!("/photos/{link}")).unwrap(), vec!["photos", name]);
        }
    }
}

#[test]
fn markup_is_escaped() {
    assert_eq!(html_escape("<b>&amp;</b>"), "&lt;b&gt;&amp;amp;&lt;/b&gt;");
    assert_eq!(html_escape("\"plain\""), "\"plain\"");
}

#[test]
fn titles_that_are_no_text_are_replaced() {
    let root = path(&["/"]);
    let mut sub = root.clone();
    sub.push(vec![b'a', 0xff]);
    sub.push(b"b".to_vec());
    assert!(directory_page(&root, &sub, &vec![]).contains("<h2>/a\u{fffd}/b</h2>"));
}
