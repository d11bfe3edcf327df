use lclhst::protocol;
use lclhst::share::sanitize_name;
use lclhst::Target;

#[test]
fn target_parses_ports_and_paths() {
    assert!(matches!(Target::parse("3000"), Ok(Target::Port(3000))));
    assert!(matches!(Target::parse("."), Ok(Target::Path(_))));
    assert!(Target::parse("/definitely/not/a/real/path").is_err());
    assert!(Target::parse("70000").is_err()); // not a u16, not a path
}

#[test]
fn default_names_are_valid_dns_labels() {
    assert_eq!(Target::Port(3000).default_name(), "app");
    let name = Target::Path(".".to_string()).default_name();
    assert!(protocol::valid_name(&name), "{name:?}");
    assert_eq!(sanitize_name("My Photos (2026)"), "my-photos--2026");
}

#[test]
fn missing_targets_say_so() {
    assert_eq!(
        Target::parse("/definitely/not/a/real/path").unwrap_err().message(),
        "\"/definitely/not/a/real/path\" is neither a port number nor an existing path"
    );
}

#[test]
fn targets_by_existence() {
    assert!(matches!(Target::parse_with("+80", false), Ok(Target::Port(80))));
    assert!(matches!(Target::parse_with("0080", false), Ok(Target::Port(80))));
    assert!(matches!(Target::parse_with("65535", false), Ok(Target::Port(65535))));
    assert!(Target::parse_with("65536", false).is_err());
    assert!(Target::parse_with("-1", false).is_err());
    assert!(Target::parse_with("", false).is_err());
    assert!(Target::parse_with("+", false).is_err());
    match Target::parse_with("photos", true) {
        Ok(Target::Path(p)) => assert_eq!(p, "photos"),
        other => panic!("{other:?}"),
    }
}

#[test]
fn missing_paths_are_named_files() {
    let name = Target::Path("/definitely/not/a/real/path".to_string()).default_name();
    assert_eq!(name, "files");
    assert_eq!(Target::Path("/".to_string()).default_name(), "files");
}

#[test]
fn sanitized_names_are_labels_or_empty() {
    assert_eq!(sanitize_name("my-app-2"), "my-app-2");
    assert_eq!(sanitize_name("UPPER"), "upper");
    assert_eq!(sanitize_name("---"), "");
    assert_eq!(sanitize_name(""), "");
    assert_eq!(sanitize_name("\u{c9}t\u{e9} 1"), "t--1");
    assert_eq!(sanitize_name(&"x".repeat(80)), "x".repeat(63));
    // Truncation comes first, trimming second.
    let long = format!("{}-{}", "x".repeat(62), "yyy");
    assert_eq!(sanitize_name(&long), "x".repeat(62));
}

#[test]
fn sanitizing_settles_and_ignores_ascii_case() {
    for s in [
        "My Photos (2026)",
        "\u{c9}t\u{e9} 1",
        "\u{39f}\u{3a3} aB",
        "A\u{3a3}",
        "a\u{3a3}b",
        "\u{130}stanbul",
        "stra\u{df}e",
        "\u{212a}elvin",
        "",
        "---",
        "my-app-2",
    ] {
        let once = sanitize_name(s);
        assert_eq!(sanitize_name(&once), once, "{s:?}");
        assert_eq!(sanitize_name(&s.to_ascii_uppercase()), once, "{s:?}");
        assert_eq!(sanitize_name(&s.to_ascii_lowercase()), once, "{s:?}");
        assert_eq!(s.to_ascii_lowercase().to_lowercase(), s.to_lowercase(), "{s:?}");
        assert_eq!(s.to_ascii_uppercase().to_lowercase(), s.to_lowercase(), "{s:?}");
    }
}
