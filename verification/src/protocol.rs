//! Wire protocol for lclhst streams.
//!
//! Invariant: there is no port field anywhere in this protocol. The serving
//! side dials only the port given on its own command line.

use vstd::prelude::*;

use crate::text;

verus! {

/// ALPN for lclhst connections.
pub const ALPN: &'static str = "lclhst/0";

/// Protocol version sent in every hello frame.
pub const VERSION: u8 = 0;

/// Status byte: the target reached the local app; raw bytes follow.
pub const STATUS_OK: u8 = 0;

/// Status byte: the target could not connect to the local app.
pub const STATUS_CONNECT_FAILED: u8 = 1;

/// Hello frame sent by the connecting (edge) side: version, then the tunnel
/// name as a length-prefixed DNS label. Informational only.
#[derive(Debug, PartialEq, Eq)]
pub struct Hello {
    pub name: String,
}

/// Why a hello frame could not be written or read.
#[derive(Debug)]
pub enum HelloError {
    /// The stream ended inside the two header bytes.
    Header,
    /// The peer speaks another protocol version.
    Version(u8),
    /// The stream ended inside the name.
    Name,
    /// The name is not UTF-8.
    NotUtf8,
    /// The name that was read is not a valid tunnel name.
    InvalidPeerName(String),
    /// The name to be written is not a valid tunnel name.
    InvalidName(String),
}

/// What is said of a name that is not a valid tunnel name.
pub open spec fn invalid_name_text(name: Seq<char>) -> Seq<char> {
    "invalid tunnel name: "@ + text::debug_text(name)
}

/// What is said of a name that is not a valid tunnel name.
pub fn invalid_name_message(name: &str) -> (r: String)
    ensures
        r@ == invalid_name_text(name@),
{
    let mut out: String = "invalid tunnel name: ".to_owned();
    out.append(text::quoted(name).as_str());
    out
}

impl HelloError {
    /// What the error says.
    pub open spec fn text(&self) -> Seq<char> {
        match self {
            HelloError::Header => "reading hello header"@,
            HelloError::Version(v) => "peer speaks protocol version "@ + text::decimal(*v as nat)
                + ", we speak "@ + text::decimal(VERSION as nat),
            HelloError::Name => "reading hello name"@,
            HelloError::NotUtf8 => "hello name is not UTF-8"@,
            HelloError::InvalidPeerName(name) => "invalid tunnel name in hello: "@
                + text::debug_text(name@),
            HelloError::InvalidName(name) => invalid_name_text(name@),
        }
    }

    /// What the error says.
    pub fn message(&self) -> (r: String)
        ensures
            r@ == self.text(),
    {
        match self {
            HelloError::Header => "reading hello header".to_owned(),
            HelloError::Version(v) => {
                let mut out: String = "peer speaks protocol version ".to_owned();
                out.append(text::decimal_of(*v as u64).as_str());
                out.append(", we speak ");
                out.append(text::decimal_of(VERSION as u64).as_str());
                out
            },
            HelloError::Name => "reading hello name".to_owned(),
            HelloError::NotUtf8 => "hello name is not UTF-8".to_owned(),
            HelloError::InvalidPeerName(name) => {
                let mut out: String = "invalid tunnel name in hello: ".to_owned();
                out.append(text::quoted(name.as_str()).as_str());
                out
            },
            HelloError::InvalidName(name) => invalid_name_message(name.as_str()),
        }
    }
}

/// A character of a tunnel name.
pub open spec fn label_char(c: char) -> bool {
    'a' <= c <= 'z' || '0' <= c <= '9' || c == '-'
}

/// A lowercase DNS label: `[a-z0-9-]{1,63}`, no leading or trailing hyphen.
pub open spec fn valid_label(s: Seq<char>) -> bool {
    &&& 1 <= s.len() <= 63
    &&& s[0] != '-'
    &&& s.last() != '-'
    &&& forall|i: int| 0 <= i < s.len() ==> label_char(#[trigger] s[i])
}

/// A valid tunnel name is a lowercase DNS label: `[a-z0-9-]{1,63}`,
/// no leading or trailing hyphen. It becomes `<name>.localhost`.
pub fn valid_name(name: &str) -> (r: bool)
    ensures
        r == valid_label(name@),
{
    let cs = text::chars_of(name);
    let n: usize = cs.len();
    if n == 0 || n > 63 || cs[0] == '-' || cs[n - 1] == '-' {
        return false;
    }
    let mut i: usize = 0;
    while i < n
        invariant
            n == cs@.len(),
            cs@ == name@,
            i <= n,
            forall|j: int| 0 <= j < i ==> label_char(#[trigger] name@[j]),
        decreases n - i,
    {
        let c = cs[i];
        if !(('a' <= c && c <= 'z') || ('0' <= c && c <= '9') || c == '-') {
            assert(!label_char(name@[i as int]));
            return false;
        }
        i = i + 1;
    }
    true
}

/// A valid name is ASCII, so it is as many bytes long as it has characters.
pub proof fn lemma_label_bytes(name: Seq<char>)
    requires
        valid_label(name),
    ensures
        vstd::utf8::is_ascii_chars(name),
        vstd::utf8::encode_utf8(name).len() == name.len(),
        vstd::utf8::valid_utf8(vstd::utf8::encode_utf8(name)),
        vstd::utf8::decode_utf8(vstd::utf8::encode_utf8(name)) == name,
{
    assert forall|i: int| 0 <= i < name.len() implies '\0' <= #[trigger] name[i] <= '\u{7f}' by {
        assert(label_char(name[i]));
    }
    vstd::utf8::is_ascii_chars_encode_utf8(name);
    vstd::utf8::encode_utf8_valid_utf8(name);
    vstd::utf8::encode_utf8_decode_utf8(name);
}

/// The hello frame for a name: version, length, name.
pub open spec fn hello_frame(name: Seq<char>) -> Seq<u8> {
    seq![VERSION, name.len() as u8] + vstd::utf8::encode_utf8(name)
}

/// The hello frame to send for `name`.
pub fn write_hello(name: &str) -> (r: Result<Vec<u8>, HelloError>)
    ensures
        match r {
            Ok(frame) => valid_label(name@) && frame@ == hello_frame(name@),
            Err(HelloError::InvalidName(n)) => !valid_label(name@) && n@ == name@,
            Err(_) => false,
        },
{
    if !valid_name(name) {
        return Err(HelloError::InvalidName(name.to_owned()));
    }
    let bytes = name.as_bytes();
    proof {
        lemma_label_bytes(name@);
    }
    let mut frame: Vec<u8> = Vec::new();
    frame.push(VERSION);
    frame.push(bytes.len() as u8);
    frame.extend_from_slice(bytes);
    assert(frame@ =~= hello_frame(name@));
    Ok(frame)
}

/// What reading a hello frame off a stream that holds `b` gives: the hello
/// with the number of bytes it took, or the first thing that is wrong.
pub open spec fn hello_outcome(b: Seq<u8>, r: Result<(Hello, usize), HelloError>) -> bool {
    if b.len() < 2 {
        r == Err::<(Hello, usize), HelloError>(HelloError::Header)
    } else if b[0] != VERSION {
        r == Err::<(Hello, usize), HelloError>(HelloError::Version(b[0]))
    } else if b.len() < 2 + b[1] {
        r == Err::<(Hello, usize), HelloError>(HelloError::Name)
    } else {
        match r {
            Ok((hello, used)) => used == 2 + b[1] && name_outcome(
                b.subrange(2, 2 + b[1]),
                Ok::<Hello, HelloError>(hello),
            ),
            Err(e) => name_outcome(b.subrange(2, 2 + b[1]), Err::<Hello, HelloError>(e)),
        }
    }
}

/// What the name bytes of a hello frame give.
pub open spec fn name_outcome(raw: Seq<u8>, r: Result<Hello, HelloError>) -> bool {
    if !vstd::utf8::valid_utf8(raw) {
        r == Err::<Hello, HelloError>(HelloError::NotUtf8)
    } else {
        let name = vstd::utf8::decode_utf8(raw);
        match r {
            Ok(hello) => valid_label(name) && hello.name@ == name,
            Err(HelloError::InvalidPeerName(n)) => !valid_label(name) && n@ == name,
            Err(_) => false,
        }
    }
}

/// The length of the name that follows a hello header.
pub fn read_hello_header(version: u8, len: u8) -> (r: Result<usize, HelloError>)
    ensures
        r == if version == VERSION {
            Ok::<usize, HelloError>(len as usize)
        } else {
            Err(HelloError::Version(version))
        },
{
    if version != VERSION {
        return Err(HelloError::Version(version));
    }
    Ok(len as usize)
}

/// The hello whose name bytes these are.
pub fn read_hello_name(raw: Vec<u8>) -> (r: Result<Hello, HelloError>)
    ensures
        name_outcome(raw@, r),
{
    match text::utf8_text(raw) {
        None => Err(HelloError::NotUtf8),
        Some(name) => {
            if valid_name(name.as_str()) {
                Ok(Hello { name })
            } else {
                Err(HelloError::InvalidPeerName(name))
            }
        },
    }
}

/// Read a hello frame off the front of a stream that holds `stream`.
pub fn read_hello(stream: &[u8]) -> (r: Result<(Hello, usize), HelloError>)
    ensures
        hello_outcome(stream@, r),
{
    if stream.len() < 2 {
        return Err(HelloError::Header);
    }
    let len: usize = match read_hello_header(stream[0], stream[1]) {
        Ok(n) => n,
        Err(e) => {
            return Err(e);
        },
    };
    if stream.len() < 2 + len {
        return Err(HelloError::Name);
    }
    let raw: Vec<u8> = vstd::slice::slice_to_vec(vstd::slice::slice_subrange(stream, 2, 2 + len));
    match read_hello_name(raw) {
        Ok(hello) => Ok((hello, 2 + len)),
        Err(e) => Err(e),
    }
}

/// What is written is what is read: whatever follows it on the stream, the
/// frame of a valid name is read back as that name, and takes exactly its own
/// bytes.
pub proof fn hello_round_trips(
    name: Seq<char>,
    rest: Seq<u8>,
    r: Result<(Hello, usize), HelloError>,
)
    requires
        valid_label(name),
        hello_outcome(hello_frame(name) + rest, r),
    ensures
        r matches Ok((hello, used)) && hello.name@ == name && used == hello_frame(name).len(),
{
    lemma_label_bytes(name);
    let b = hello_frame(name) + rest;
    assert(b.subrange(2, 2 + b[1]) =~= vstd::utf8::encode_utf8(name));
}

/// No stream whatsoever yields a hello with an invalid name.
pub proof fn hello_names_are_valid(stream: Seq<u8>, r: Result<(Hello, usize), HelloError>)
    requires
        hello_outcome(stream, r),
    ensures
        r matches Ok((hello, _)) ==> valid_label(hello.name@),
{
}

/// A tunnel name is one to 63 lowercase letters, digits and hyphens, with a letter
/// or a digit at both ends.
pub proof fn tunnel_names_are_dns_labels(s: Seq<char>)
    ensures
        valid_label(s) <==> {
            &&& 1 <= s.len() <= 63
            &&& forall|i: int|
                0 <= i < s.len() ==> {
                    ||| 'a' <= #[trigger] s[i] && s[i] <= 'z'
                    ||| '0' <= s[i] && s[i] <= '9'
                    ||| s[i] == '-' && 0 < i && i < s.len() - 1
                }
        },
{
    if 1 <= s.len() <= 63 && (forall|i: int|
        0 <= i < s.len() ==> {
            ||| 'a' <= #[trigger] s[i] && s[i] <= 'z'
            ||| '0' <= s[i] && s[i] <= '9'
            ||| s[i] == '-' && 0 < i && i < s.len() - 1
        }) {
        assert(s[0] != '-');
        assert(s[s.len() - 1] != '-');
        assert forall|i: int| 0 <= i < s.len() implies label_char(#[trigger] s[i]) by {}
    }
    if valid_label(s) {
        assert forall|i: int| 0 <= i < s.len() implies {
            ||| 'a' <= #[trigger] s[i] && s[i] <= 'z'
            ||| '0' <= s[i] && s[i] <= '9'
            ||| s[i] == '-' && 0 < i && i < s.len() - 1
        } by {
            assert(label_char(s[i]));
        }
    }
}

/// On the wire a hello is a zero byte, the length of the name, and the name, one
/// byte to a character.
pub proof fn hello_is_version_length_and_name(name: Seq<char>)
    requires
        valid_label(name),
    ensures
        hello_frame(name).len() == 2 + name.len(),
        hello_frame(name)[0] == 0,
        hello_frame(name)[1] == name.len(),
        forall|i: int|
            0 <= i < name.len() ==> hello_frame(name)[2 + i] as u32 == (#[trigger] name[i]) as u32,
{
    lemma_label_bytes(name);
    vstd::utf8::is_ascii_chars_encode_utf8(name);
    let raw = vstd::utf8::encode_utf8(name);
    assert forall|i: int| 0 <= i < name.len() implies hello_frame(name)[2 + i] as u32 == (
    #[trigger] name[i]) as u32 by {
        assert(hello_frame(name)[2 + i] == raw[i]);
        assert(raw[i] == name[i] as u8);
        assert('\0' <= name[i] <= '\u{7f}');
    }
}

/// A stream is read by its first two bytes: the version, which has to be zero,
/// and how many bytes of name follow. What is wrong first is what is said.
pub proof fn hellos_are_read_from_the_front(
    version: u8,
    length: u8,
    raw: Seq<u8>,
    rest: Seq<u8>,
    r: Result<(Hello, usize), HelloError>,
)
    requires
        raw.len() == length,
        hello_outcome(seq![version, length] + raw + rest, r),
    ensures
        version != 0 ==> r == Err::<(Hello, usize), HelloError>(HelloError::Version(version)),
        version == 0 && !vstd::utf8::valid_utf8(raw) ==> r == Err::<(Hello, usize), HelloError>(
            HelloError::NotUtf8,
        ),
        version == 0 && vstd::utf8::valid_utf8(raw) && !valid_label(vstd::utf8::decode_utf8(raw))
            ==> (r matches Err(HelloError::InvalidPeerName(n)) && n@ == vstd::utf8::decode_utf8(
            raw,
        )),
        version == 0 && vstd::utf8::valid_utf8(raw) && valid_label(vstd::utf8::decode_utf8(raw))
            ==> (r matches Ok((hello, used)) && hello.name@ == vstd::utf8::decode_utf8(raw) && used
            == 2 + length),
{
    let b = seq![version, length] + raw + rest;
    assert(b[0] == version && b[1] == length);
    assert(b.subrange(2, 2 + b[1]) =~= raw);
}

/// A stream that ends early is told from one that is wrong.
pub proof fn short_hellos_are_told(b: Seq<u8>, r: Result<(Hello, usize), HelloError>)
    requires
        hello_outcome(b, r),
    ensures
        b.len() < 2 ==> r == Err::<(Hello, usize), HelloError>(HelloError::Header),
        b.len() >= 2 && b[0] == 0 && b.len() < 2 + b[1] ==> r == Err::<(Hello, usize), HelloError>(
            HelloError::Name,
        ),
{
}

/// What the errors say.
pub proof fn hello_errors_say_what_is_wrong(e: HelloError)
    ensures
        e.text() == match e {
            HelloError::Header => "reading hello header"@,
            HelloError::Version(v) => "peer speaks protocol version "@ + text::decimal(v as nat)
                + ", we speak "@ + text::decimal(0),
            HelloError::Name => "reading hello name"@,
            HelloError::NotUtf8 => "hello name is not UTF-8"@,
            HelloError::InvalidPeerName(name) => "invalid tunnel name in hello: "@
                + text::debug_text(name@),
            HelloError::InvalidName(name) => "invalid tunnel name: "@ + text::debug_text(name@),
        },
{
}

} // verus!
