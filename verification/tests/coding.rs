use lclhst::percent::encoded;
use lclhst::size::human_size;
use lclhst::text::{
    begins_with, chars_of, decimal_of, is_white_space, lines_of, parse_port, same, split_on,
    trimmed, words_of,
};

fn double_text(bytes: u64) -> String {
    let units = ["B", "KB", "MB", "GB", "TB"];
    let mut size = bytes as f64;
    let mut unit = 0;
    while size >= 1024.0 && unit < units.len() - 1 {
        size /= 1024.0;
        unit += 1;
    }
    if unit == 0 {
        format!("{bytes} B")
    } else {
        format!("{size:.1} {}", units[unit])
    }
}

#[test]
fn sizes_are_shown_as_doubles_print() {
    assert_eq!(human_size(0), "0 B");
    assert_eq!(human_size(1023), "1023 B");
    assert_eq!(human_size(1024), "1.0 KB");
    assert_eq!(human_size(1536), "1.5 KB");
    assert_eq!(human_size(1_048_575), "1024.0 KB");
    assert_eq!(human_size(5 * 1024 * 1024), "5.0 MB");
    assert_eq!(human_size(u64::MAX), "16777216.0 TB");
    // Ties go to the even digit.
    assert_eq!(human_size(1024 + 256), "1.2 KB");
    assert_eq!(human_size(1024 + 768), "1.8 KB");
    let mut n: u64 = 1;
    for i in 0..4000u64 {
        for bytes in [n, n.wrapping_sub(1), n.wrapping_add(i), n ^ (i << 20), u64::MAX - n] {
            assert_eq!(human_size(bytes), double_text(bytes), "{bytes}");
        }
        n = n.wrapping_mul(6364136223846793005).wrapping_add(1442695040888963407) >> (i % 60);
        if n == 0 {
            n = 1;
        }
    }
    for k in 0..64u32 {
        for d in [0u64, 1, 2, 3, 511, 512, 513, 1023, 1024, 1025, 2048] {
            for bytes in [(1u64 << k).wrapping_add(d), (1u64 << k).wrapping_sub(d)] {
                assert_eq!(human_size(bytes), double_text(bytes), "{bytes}");
            }
        }
    }
}

#[test]
fn links_escape_what_a_link_cannot_hold() {
    assert_eq!(encoded("with space.txt"), "with%20space.txt");
    assert_eq!(encoded("a\"<>#?%"), "a%22%3C%3E%23%3F%25");
    assert_eq!(encoded("\u{1}\u{7f}"), "%01%7F");
    assert_eq!(encoded("\u{e9}"), "%C3%A9");
    assert_eq!(encoded("aZ09-_.~!$&'()*+,/:;=@[]\\^`{|}"), "aZ09-_.~!$&'()*+,/:;=@[]\\^`{|}");
}

#[test]
fn white_space_is_what_unicode_says() {
    for u in 0..=0x10ffffu32 {
        if let Some(c) = char::from_u32(u) {
            assert_eq!(is_white_space(c), c.is_whitespace(), "{u:#x}");
        }
    }
}

#[test]
fn texts_are_cut_as_std_cuts_them() {
    for s in [
        "", "\n", "a", "a\n", "a\r\nb", "\r", "a\r", "\n\n", "a\n\nb\r\n\r\n", " a b ", "\t\u{a0}x\u{2003}y",
        "GET / HTTP/1.1\r\nHost: x\r\n\r\n", "\u{85}", "/a//b/", "..", "\u{feff}z",
    ] {
        let cs = chars_of(s);
        assert_eq!(lines_of(&cs), s.lines().collect::<Vec<_>>(), "{s:?}");
        assert_eq!(words_of(s), s.split_whitespace().collect::<Vec<_>>(), "{s:?}");
        assert_eq!(split_on(&cs, '/'), s.split('/').collect::<Vec<_>>(), "{s:?}");
        assert_eq!(trimmed(s), s.trim(), "{s:?}");
        for prefix in ["", "a", "GET", "\n", "longer than any of them"] {
            assert_eq!(begins_with(&cs, prefix), s.starts_with(prefix), "{s:?}");
        }
        for other in ["", "a", "\n", "/a//b/"] {
            assert_eq!(same(s, other), s == other, "{s:?}");
        }
    }
}

#[test]
fn numbers_are_written_as_std_writes_them() {
    for n in [0u64, 1, 9, 10, 99, 100, 4433, 65535, u64::MAX - 1, u64::MAX] {
        assert_eq!(decimal_of(n), n.to_string());
    }
}

#[test]
fn ports_are_read_as_std_reads_them() {
    for s in [
        "", "0", "1", "443", "65535", "65536", "70000", "00080", "+80", "++80", "+", "-1", "-0", " 80", "80 ",
        "8a", "99999999999999999999999999", "000000000000000000000000065535", "\u{663}", "4_4",
    ] {
        assert_eq!(parse_port(s), s.parse::<u16>().ok(), "{s:?}");
    }
}
