//! Percent-coding of names in links and of paths in requests.

use vstd::prelude::*;
use vstd::utf8;

verus! {

/// The value of a hexadecimal digit, in either case.
pub open spec fn hex_value(b: u8) -> Option<u8> {
    if 0x30 <= b <= 0x39 {
        Some((b - 0x30) as u8)
    } else if 0x41 <= b <= 0x46 {
        Some((b - 0x41 + 10) as u8)
    } else if 0x61 <= b <= 0x66 {
        Some((b - 0x61 + 10) as u8)
    } else {
        None
    }
}

/// Whether the bytes begin with `%` and two hexadecimal digits.
pub open spec fn begins_escaped(b: Seq<u8>) -> bool {
    b.len() >= 3 && b[0] == 0x25 && hex_value(b[1]) is Some && hex_value(b[2]) is Some
}

/// The bytes with each `%` that two hexadecimal digits follow replaced, along
/// with them, by the byte they denote.
pub open spec fn percent_decode(b: Seq<u8>) -> Seq<u8>
    decreases b.len(),
{
    if b.len() == 0 {
        seq![]
    } else if begins_escaped(b) {
        seq![(hex_value(b[1])->0 * 16 + hex_value(b[2])->0) as u8] + percent_decode(b.skip(3))
    } else {
        seq![b[0]] + percent_decode(b.skip(1))
    }
}

/// `percent_encoding::percent_decode_str`, then `decode_utf8`: the text whose
/// UTF-8 bytes are the percent-decoded bytes of `s`; `None` where those are
/// not well-formed UTF-8.
#[verifier::external_body]
pub(crate) fn decoded(s: &str) -> (r: Option<String>)
    ensures
        r is Some <==> utf8::valid_utf8(percent_decode(utf8::encode_utf8(s@))),
        r matches Some(t) ==> t@ == utf8::decode_utf8(percent_decode(utf8::encode_utf8(s@))),
{
    percent_encoding::percent_decode_str(s).decode_utf8().ok().map(|t| t.into_owned())
}

/// The uppercase hexadecimal digit of a value below 16.
pub open spec fn hex_digit(v: u8) -> char {
    if v < 10 {
        (0x30 + v) as char
    } else {
        (0x41 + v - 10) as char
    }
}

/// A byte as `%` and two uppercase hexadecimal digits.
pub open spec fn escaped(b: u8) -> Seq<char> {
    seq!['%', hex_digit((b / 16) as u8), hex_digit((b % 16) as u8)]
}

/// `percent_encoding::percent_encode_byte`: `%` and the two uppercase
/// hexadecimal digits of the byte.
#[verifier::external_body]
fn escape_byte(b: u8) -> (r: &'static str)
    ensures
        r@ == escaped(b),
{
    percent_encoding::percent_encode_byte(b)
}

/// The bytes to escape in listing links: controls, what is not ASCII, and the
/// characters that mean something else in a link.
pub open spec fn escapes(b: u8) -> bool {
    ||| b < 0x20
    ||| b >= 0x7f
    ||| b == 0x20
    ||| b == 0x22
    ||| b == 0x3c
    ||| b == 0x3e
    ||| b == 0x23
    ||| b == 0x3f
    ||| b == 0x25
}

/// The bytes as link text: those to escape escaped, the rest as they are.
pub open spec fn percent_encode(b: Seq<u8>) -> Seq<char>
    decreases b.len(),
{
    if b.len() == 0 {
        seq![]
    } else {
        (if escapes(b[0]) {
            escaped(b[0])
        } else {
            seq![b[0] as char]
        }) + percent_encode(b.skip(1))
    }
}

/// A name as link text.
pub fn encoded(name: &str) -> (r: String)
    ensures
        r@ == percent_encode(utf8::encode_utf8(name@)),
{
    let bytes = name.as_bytes();
    let mut out: String = String::new();
    let mut i: usize = 0;
    assert(bytes@.skip(0) =~= bytes@);
    assert(out@ + percent_encode(bytes@.skip(0)) =~= percent_encode(bytes@));
    while i < bytes.len()
        invariant
            i <= bytes@.len(),
            bytes@ == utf8::encode_utf8(name@),
            out@ + percent_encode(bytes@.skip(i as int)) == percent_encode(bytes@),
        decreases bytes@.len() - i,
    {
        let b: u8 = bytes[i];
        let ghost rest = bytes@.skip(i as int);
        let ghost before = out@;
        assert(rest.skip(1) =~= bytes@.skip(i + 1));
        if b < 0x20 || b >= 0x7f || b == 0x20 || b == 0x22 || b == 0x3c || b == 0x3e || b == 0x23
            || b == 0x3f || b == 0x25 {
            out.append(escape_byte(b));
            assert(out@ + percent_encode(bytes@.skip(i + 1)) =~= before + percent_encode(rest));
        } else {
            out.push(b as char);
            assert(out@ + percent_encode(bytes@.skip(i + 1)) =~= before + percent_encode(rest));
        }
        i = i + 1;
    }
    assert(bytes@.skip(i as int) =~= Seq::<u8>::empty());
    assert(out@ =~= percent_encode(bytes@));
    out
}

/// UTF-8 encodes a concatenation piece by piece.
pub proof fn lemma_encode_utf8_concat(a: Seq<char>, b: Seq<char>)
    ensures
        utf8::encode_utf8(a + b) == utf8::encode_utf8(a) + utf8::encode_utf8(b),
    decreases a.len(),
{
    if a.len() == 0 {
        assert(a + b =~= b);
        assert(utf8::encode_utf8(a) + utf8::encode_utf8(b) =~= utf8::encode_utf8(b));
    } else {
        lemma_encode_utf8_concat(a.drop_first(), b);
        assert((a + b).drop_first() =~= a.drop_first() + b);
        assert((a + b)[0] == a[0]);
        assert(utf8::encode_utf8(a + b) =~= utf8::encode_utf8(a) + utf8::encode_utf8(b));
    }
}

/// What stands in a link decodes to what was put there, whatever follows that
/// does not need decoding.
pub proof fn lemma_decode_encode(b: Seq<u8>, tail: Seq<u8>)
    ensures
        percent_decode(utf8::encode_utf8(percent_encode(b)) + tail) == b + percent_decode(tail),
    decreases b.len(),
{
    if b.len() == 0 {
        assert(utf8::encode_utf8(percent_encode(b)) + tail =~= tail);
        assert(b + percent_decode(tail) =~= percent_decode(tail));
    } else {
        let rest = b.skip(1);
        lemma_decode_encode(rest, tail);
        let head = if escapes(b[0]) {
            escaped(b[0])
        } else {
            seq![b[0] as char]
        };
        assert(percent_encode(b) == head + percent_encode(rest));
        lemma_encode_utf8_concat(head, percent_encode(rest));
        assert(utf8::is_ascii_chars(head));
        utf8::is_ascii_chars_encode_utf8(head);
        let raw = utf8::encode_utf8(head);
        let all = utf8::encode_utf8(percent_encode(b)) + tail;
        let later = utf8::encode_utf8(percent_encode(rest)) + tail;
        assert(all =~= raw + later);
        if escapes(b[0]) {
            assert(raw[0] == head[0] as u8);
            assert(raw[1] == head[1] as u8);
            assert(raw[2] == head[2] as u8);
            assert(all[0] == raw[0] && all[1] == raw[1] && all[2] == raw[2]);
            assert(hex_value(raw[1]) == Some((b[0] / 16) as u8));
            assert(hex_value(raw[2]) == Some((b[0] % 16) as u8));
            assert(begins_escaped(all));
            assert(all.skip(3) =~= later);
            assert((b[0] / 16) * 16 + b[0] % 16 == b[0]);
        } else {
            assert(raw[0] == head[0] as u8);
            assert(all[0] == b[0]);
            assert(all.skip(1) =~= later);
        }
        assert(b + percent_decode(tail) =~= seq![b[0]] + (rest + percent_decode(tail)));
    }
}

/// A slash is never part of an escape, so what stands before it and what
/// begins with it decode on their own.
pub proof fn lemma_decode_at_slash(a: Seq<u8>, b: Seq<u8>)
    requires
        b.len() > 0,
        b[0] == 0x2f,
    ensures
        percent_decode(a + b) == percent_decode(a) + percent_decode(b),
    decreases a.len(),
{
    if a.len() == 0 {
        assert(a + b =~= b);
        assert(percent_decode(a) + percent_decode(b) =~= percent_decode(b));
    } else {
        let all = a + b;
        assert(all[0] == a[0]);
        if begins_escaped(a) {
            assert(all[1] == a[1] && all[2] == a[2]);
            lemma_decode_at_slash(a.skip(3), b);
            assert(all.skip(3) =~= a.skip(3) + b);
            assert(percent_decode(all) =~= percent_decode(a) + percent_decode(b));
        } else {
            if a.len() == 1 {
                assert(all[1] == b[0]);
            } else if a.len() == 2 {
                assert(all[1] == a[1] && all[2] == b[0]);
            } else {
                assert(all[1] == a[1] && all[2] == a[2]);
            }
            assert(!begins_escaped(all));
            lemma_decode_at_slash(a.skip(1), b);
            assert(all.skip(1) =~= a.skip(1) + b);
            assert(percent_decode(all) =~= percent_decode(a) + percent_decode(b));
        }
    }
}

/// A name that is put in a link is the name that the link decodes to.
pub proof fn links_decode_to_names(name: Seq<char>)
    ensures
        ({
            let link = percent_encode(utf8::encode_utf8(name));
            let decoded = percent_decode(utf8::encode_utf8(link));
            utf8::valid_utf8(decoded) && utf8::decode_utf8(decoded) == name
        }),
{
    let b = utf8::encode_utf8(name);
    let raw = utf8::encode_utf8(percent_encode(b));
    lemma_decode_encode(b, Seq::<u8>::empty());
    assert(raw + Seq::<u8>::empty() =~= raw);
    assert(b + percent_decode(Seq::<u8>::empty()) =~= b);
    utf8::encode_utf8_valid_utf8(name);
    utf8::encode_utf8_decode_utf8(name);
}

/// A link holds no white space, control, quote, angle bracket, `#` or `?`, and
/// nothing that is not ASCII, whatever bytes it is made of: it cannot end early,
/// in the page or in the URL.
pub proof fn links_hold_only_safe_characters(b: Seq<u8>)
    ensures
        forall|i: int|
            0 <= i < percent_encode(b).len() ==> 0x21 <= (#[trigger] percent_encode(b)[i]) as u32
                && percent_encode(b)[i] as u32 <= 0x7e && !seq!['"', '#', '<', '>', '?'].contains(
                percent_encode(b)[i],
            ),
    decreases b.len(),
{
    if b.len() > 0 {
        links_hold_only_safe_characters(b.skip(1));
        let head = if escapes(b[0]) {
            escaped(b[0])
        } else {
            seq![b[0] as char]
        };
        let tail = percent_encode(b.skip(1));
        let all = percent_encode(b);
        assert forall|i: int| 0 <= i < all.len() implies 0x21 <= (#[trigger] all[i]) as u32
            && all[i] as u32 <= 0x7e && !seq!['"', '#', '<', '>', '?'].contains(all[i]) by {
            if i < head.len() {
                assert(all[i] == head[i]);
            } else {
                assert(all[i] == tail[i - head.len()]);
            }
        }
    }
}

/// In a link every byte stands for itself or as `%` and its two hexadecimal
/// digits, and those that may stand for themselves do.
pub proof fn links_spell_each_byte(b: Seq<u8>, next: u8)
    ensures
        percent_encode(Seq::<u8>::empty()) == Seq::<char>::empty(),
        percent_encode(seq![next] + b) == (if 0x21 <= next <= 0x7e && !seq![
            0x22u8,
            0x23,
            0x25,
            0x3c,
            0x3e,
            0x3f,
        ].contains(next) {
            seq![next as char]
        } else {
            seq![
                '%',
                "0123456789ABCDEF"@[(next / 16) as int],
                "0123456789ABCDEF"@[(next % 16) as int],
            ]
        }) + percent_encode(b),
{
    reveal_strlit("0123456789ABCDEF");
    let special = seq![0x22u8, 0x23, 0x25, 0x3c, 0x3e, 0x3f];
    assert(special[0] == 0x22 && special[1] == 0x23 && special[2] == 0x25 && special[3] == 0x3c
        && special[4] == 0x3e && special[5] == 0x3f);
    assert((seq![next] + b).skip(1) =~= b);
    assert(escapes(next) <==> !(0x21 <= next <= 0x7e && !special.contains(next)));
    assert(escaped(next) =~= seq![
        '%',
        "0123456789ABCDEF"@[(next / 16) as int],
        "0123456789ABCDEF"@[(next % 16) as int],
    ]);
}

} // verus!
