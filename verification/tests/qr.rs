use lclhst::qr::{invite, print_qr};

#[test]
fn a_terminal_gets_a_code_to_scan() {
    let url = "https://192.168.1.10:4433";
    let s = print_qr(url, true).unwrap();
    let drawing = fast_qr::QRBuilder::new(url).build().unwrap().to_str();
    assert_eq!(s, format!("\nscan to open {url}:\n{drawing}"));
    assert!(drawing.contains('\u{2588}'));
}

#[test]
fn only_a_terminal_gets_a_code() {
    assert!(print_qr("https://192.168.1.10:4433", false).is_none());
}

#[test]
fn what_is_too_long_gets_no_code() {
    assert!(print_qr(&"\u{e9}".repeat(2000), true).is_none());
    assert!(print_qr(&"\u{e9}".repeat(831), true).is_some());
}

#[test]
fn the_invitation_names_the_target() {
    assert_eq!(invite("https://a", "##"), "\nscan to open https://a:\n##");
}
