use lclhst::protocol::{
    read_hello, read_hello_header, read_hello_name, valid_name, write_hello, HelloError, VERSION,
};

#[test]
fn hello_round_trips() {
    let buf = write_hello("myapp").unwrap();
    let (hello, used) = read_hello(buf.as_slice()).unwrap();
    assert_eq!(hello.name, "myapp");
    assert_eq!(used, buf.len());
}

#[test]
fn hello_is_version_length_name() {
    assert_eq!(write_hello("myapp").unwrap(), b"\x00\x05myapp".to_vec());
}

#[test]
fn hello_leaves_what_follows_on_the_stream() {
    let mut buf = write_hello("a").unwrap();
    buf.extend_from_slice(b"GET / HTTP/1.1");
    let (hello, used) = read_hello(buf.as_slice()).unwrap();
    assert_eq!(hello.name, "a");
    assert_eq!(used, 3);
}

#[test]
fn rejects_wrong_version() {
    let buf = [99u8, 1, b'a'];
    assert!(read_hello(&buf).is_err());
    assert!(matches!(read_hello(&buf), Err(HelloError::Version(99))));
    assert_eq!(
        read_hello(&buf).unwrap_err().message(),
        "peer speaks protocol version 99, we speak 0"
    );
}

#[test]
fn rejects_invalid_name_on_read() {
    // valid version, but name contains uppercase
    let buf = [VERSION, 1, b'A'];
    assert!(read_hello(&buf).is_err());
    assert_eq!(
        read_hello(&buf).unwrap_err().message(),
        "invalid tunnel name in hello: \"A\""
    );
}

#[test]
fn truncated_hellos_are_rejected() {
    assert!(matches!(read_hello(&[]), Err(HelloError::Header)));
    assert!(matches!(read_hello(&[VERSION]), Err(HelloError::Header)));
    assert!(matches!(read_hello(&[VERSION, 3, b'a', b'b']), Err(HelloError::Name)));
    assert_eq!(HelloError::Header.message(), "reading hello header");
    assert_eq!(HelloError::Name.message(), "reading hello name");
}

#[test]
fn hello_names_have_to_be_utf8() {
    let e = read_hello(&[VERSION, 2, 0xc3, 0x28]).unwrap_err();
    assert!(matches!(e, HelloError::NotUtf8));
    assert_eq!(e.message(), "hello name is not UTF-8");
    assert!(matches!(read_hello_name(vec![0xff]), Err(HelloError::NotUtf8)));
    assert_eq!(read_hello_name(b"my-app".to_vec()).unwrap().name, "my-app");
}

#[test]
fn hello_header_gives_the_name_length() {
    assert_eq!(read_hello_header(VERSION, 63).unwrap(), 63);
    assert!(matches!(read_hello_header(1, 63), Err(HelloError::Version(1))));
}

#[test]
fn invalid_names_are_not_written() {
    let e = write_hello("Bad.Name").unwrap_err();
    assert!(matches!(e, HelloError::InvalidName(_)));
    assert_eq!(e.message(), "invalid tunnel name: \"Bad.Name\"");
}

#[test]
fn name_validation() {
    assert!(valid_name("myapp"));
    assert!(valid_name("my-app-2"));
    assert!(!valid_name(""));
    assert!(!valid_name("-leading"));
    assert!(!valid_name("trailing-"));
    assert!(!valid_name("UPPER"));
    assert!(!valid_name("dots.bad"));
    assert!(!valid_name(&"x".repeat(64)));
    assert!(valid_name(&"x".repeat(63)));
}

#[test]
fn names_are_ascii() {
    assert!(!valid_name("caf\u{e9}"));
    assert!(!valid_name("a b"));
    assert!(valid_name("0"));
    assert!(!valid_name("-"));
}
