//! The subject of a certificate, read from its DER bytes.
//!
//! A certificate that signs others has its subject written into each of them.
//! Not every subject that can be read can also be written: the attribute types
//! and the printable strings in it are read more freely than they are written.
//! Elements are read here as `x509-parser` reads them, which goes by tag
//! numbers alone and takes lengths in any definite form.

use vstd::prelude::*;

verus! {

/// The tag number of the version of a certificate.
pub const VERSION: u64 = 0;

/// The tag number of a sequence.
pub const SEQUENCE: u64 = 16;

/// The tag number of a set.
pub const SET: u64 = 17;

/// The tag number of a printable string.
pub const PRINTABLE_STRING: u64 = 19;

/// A question mark.
pub const QUESTION_MARK: u8 = 0x3f;

/// How many bytes a long tag number can take.
pub const LONG_TAG_BYTES: usize = 5;

/// How many tag numbers there are.
pub const TAG_NUMBERS: u64 = 0x1_0000_0000;

/// An element, and the bytes that follow it.
#[verifier::ext_equal]
pub struct Element {
    pub tag: u64,
    /// Whether it is not made up of other elements.
    pub primitive: bool,
    pub content: Seq<u8>,
    pub rest: Seq<u8>,
}

/// The tag number that the bytes go on with, seven bits to a byte, and the
/// bytes that follow it: `left` bytes at most, the last of them below 128.
/// Numbers wrap around.
pub open spec fn long_tag(bytes: Seq<u8>, number: u64, left: nat) -> Option<(u64, Seq<u8>)>
    decreases left,
{
    if left == 0 || bytes.len() == 0 {
        None
    } else {
        let next = ((number * 128 + bytes[0] % 128) % (TAG_NUMBERS as int)) as u64;
        if bytes[0] < 128 {
            Some((next, bytes.skip(1)))
        } else {
            long_tag(bytes.skip(1), next, (left - 1) as nat)
        }
    }
}

/// The tag number at the start of an element, and the bytes that follow it.
pub open spec fn tag_at(bytes: Seq<u8>) -> Option<(u64, Seq<u8>)> {
    if bytes.len() == 0 {
        None
    } else if bytes[0] % 32 != 31 {
        Some(((bytes[0] % 32) as u64, bytes.skip(1)))
    } else {
        long_tag(bytes.skip(1), 0, LONG_TAG_BYTES as nat)
    }
}

/// The number that bytes stand for behind the digits `high`, the most
/// significant byte first.
pub open spec fn number(bytes: Seq<u8>, high: nat) -> nat
    decreases bytes.len(),
{
    if bytes.len() == 0 {
        high
    } else {
        number(bytes.skip(1), high * 256 + bytes[0] as nat)
    }
}

/// The length of an element's content, and the bytes that follow it: a byte
/// below 128, or a byte that says how many bytes the length takes.
pub open spec fn length_at(bytes: Seq<u8>) -> Option<(nat, Seq<u8>)> {
    if bytes.len() == 0 {
        None
    } else if bytes[0] < 128 {
        Some((bytes[0] as nat, bytes.skip(1)))
    } else if bytes[0] == 128 || bytes[0] == 255 || bytes.len() <= bytes[0] - 128 {
        None
    } else {
        Some((number(bytes.subrange(1, bytes[0] - 127), 0), bytes.skip(bytes[0] - 127)))
    }
}

/// The element that the bytes begin with.
pub open spec fn element(bytes: Seq<u8>) -> Option<Element> {
    match tag_at(bytes) {
        None => None,
        Some((tag, after)) => match length_at(after) {
            None => None,
            Some((length, body)) => if length > body.len() {
                None
            } else {
                Some(
                    Element {
                        tag,
                        primitive: bytes[0] / 32 % 2 == 0,
                        content: body.take(length as int),
                        rest: body.skip(length as int),
                    },
                )
            },
        },
    }
}

/// What follows `count` elements.
pub open spec fn behind(bytes: Seq<u8>, count: nat) -> Option<Seq<u8>>
    decreases count,
{
    if count == 0 {
        Some(bytes)
    } else {
        match element(bytes) {
            None => None,
            Some(e) => behind(e.rest, (count - 1) as nat),
        }
    }
}

/// The content of the subject of a certificate. Before it stand the serial
/// number, the signature's algorithm, the issuer and the validity, and before
/// these, maybe, the version.
pub open spec fn subject(der: Seq<u8>) -> Option<Seq<u8>> {
    match element(der) {
        None => None,
        Some(certificate) => match element(certificate.content) {
            None => None,
            Some(signed) => match element(signed.content) {
                None => None,
                Some(first) => match behind(
                    signed.content,
                    if first.tag == VERSION {
                        5
                    } else {
                        4
                    },
                ) {
                    None => None,
                    Some(rest) => match element(rest) {
                        None => None,
                        Some(name) => Some(name.content),
                    },
                },
            },
        },
    }
}

/// The type and the value of the attribute that the bytes begin with.
pub open spec fn attribute(bytes: Seq<u8>) -> Option<(Seq<u8>, Element)> {
    match element(bytes) {
        None => None,
        Some(pair) => if pair.tag != SEQUENCE {
            None
        } else {
            match element(pair.content) {
                None => None,
                Some(kind) => if !kind.primitive {
                    None
                } else {
                    match element(kind.rest) {
                        None => None,
                        Some(value) => Some((kind.content, value)),
                    }
                },
            }
        },
    }
}

/// Whether an attribute type can be written: it has two numbers at least, and
/// the first two, which share the first byte, are 0 to 2 and 0 to 39.
pub open spec fn type_can_be_written(kind: Seq<u8>) -> bool {
    kind.len() > 0 && kind[0] < 120 && kind != seq![0u8]
}

/// Whether the value of an attribute can be written: printable strings with a
/// question mark cannot.
pub open spec fn value_can_be_written(value: Element) -> bool {
    value.tag == PRINTABLE_STRING ==> !value.content.contains(QUESTION_MARK)
}

/// Whether the attributes of a name can be written: the first of each set, as
/// far as sets can be read. (A set with a second attribute is not read as part
/// of an issuer's subject. Of an attribute that stands in a name more than once
/// only the last is written, but all have to be such that they could be.)
pub open spec fn name_can_be_written(name: Seq<u8>) -> bool
    decreases name.len(),
{
    match element(name) {
        None => true,
        Some(set) => if set.tag != SET {
            true
        } else {
            match attribute(set.content) {
                None => true,
                Some((kind, value)) => {
                    proof {
                        lemma_element_shrinks(name);
                    }
                    &&& type_can_be_written(kind)
                    &&& value_can_be_written(value)
                    &&& name_can_be_written(set.rest)
                },
            }
        },
    }
}

/// Whether the subject of a certificate can be written into others. A
/// certificate that cannot be read has none that can, and one with a serial
/// number of indefinite length, which DER rules out, counts as such.
pub open spec fn subject_can_be_written(der: Seq<u8>) -> bool {
    match subject(der) {
        None => false,
        Some(name) => name_can_be_written(name),
    }
}

/// What follows a long tag number is shorter than what begins with it.
proof fn lemma_long_tag_shrinks(bytes: Seq<u8>, number: u64, left: nat)
    ensures
        long_tag(bytes, number, left) matches Some((_, rest)) ==> rest.len() < bytes.len(),
    decreases left,
{
    if left > 0 && bytes.len() > 0 && bytes[0] >= 128 {
        let next = ((number * 128 + bytes[0] % 128) % (TAG_NUMBERS as int)) as u64;
        lemma_long_tag_shrinks(bytes.skip(1), next, (left - 1) as nat);
    }
}

/// What follows an element is shorter than what begins with it.
pub proof fn lemma_element_shrinks(bytes: Seq<u8>)
    ensures
        element(bytes) matches Some(e) ==> e.rest.len() < bytes.len(),
{
    if bytes.len() > 0 {
        lemma_long_tag_shrinks(bytes.skip(1), 0, LONG_TAG_BYTES as nat);
    }
}

/// A number only grows with its digits.
proof fn lemma_number_grows(bytes: Seq<u8>, high: nat)
    ensures
        number(bytes, high) >= high,
    decreases bytes.len(),
{
    if bytes.len() > 0 {
        lemma_number_grows(bytes.skip(1), high * 256 + bytes[0] as nat);
    }
}

/// An element in a slice, and the bytes that follow it.
struct Found<'a> {
    tag: u64,
    primitive: bool,
    content: &'a [u8],
    rest: &'a [u8],
}

impl<'a> Found<'a> {
    spec fn element(self) -> Element {
        Element {
            tag: self.tag,
            primitive: self.primitive,
            content: self.content@,
            rest: self.rest@,
        }
    }
}

/// What `read` gives, as an element.
spec fn found(r: Option<Found<'_>>) -> Option<Element> {
    match r {
        None => None,
        Some(f) => Some(f.element()),
    }
}

/// The bytes from `start` on.
fn rest_from<'a>(bytes: &'a [u8], start: usize) -> (r: &'a [u8])
    requires
        start <= bytes@.len(),
    ensures
        r@ == bytes@.skip(start as int),
{
    let r = vstd::slice::slice_subrange(bytes, start, bytes.len());
    assert(r@ =~= bytes@.skip(start as int));
    r
}

/// The tag number at the start of an element, and where the bytes that follow
/// it begin.
fn read_tag(bytes: &[u8]) -> (r: Option<(u64, usize)>)
    ensures
        match r {
            None => tag_at(bytes@) is None,
            Some((tag, end)) => end <= bytes@.len() && tag_at(bytes@) == Some(
                (tag, bytes@.skip(end as int)),
            ),
        },
{
    if bytes.len() == 0 {
        return None;
    }
    if bytes[0] % 32 != 31 {
        return Some(((bytes[0] % 32) as u64, 1));
    }
    let mut tag: u64 = 0;
    let mut i: usize = 1;
    while i < bytes.len() && i <= LONG_TAG_BYTES
        invariant
            1 <= i <= bytes@.len(),
            i <= LONG_TAG_BYTES + 1,
            tag < TAG_NUMBERS,
            tag_at(bytes@) == long_tag(
                bytes@.skip(i as int),
                tag,
                (LONG_TAG_BYTES + 1 - i) as nat,
            ),
        decreases bytes@.len() - i,
    {
        let byte: u8 = bytes[i];
        tag = (tag * 128 + (byte % 128) as u64) % TAG_NUMBERS;
        assert(bytes@.skip(i as int).skip(1) =~= bytes@.skip(i + 1));
        i = i + 1;
        if byte < 128 {
            return Some((tag, i));
        }
    }
    None
}

/// The length of an element's content, and where it begins; `None` also where
/// the content is longer than what is there.
fn read_length(bytes: &[u8]) -> (r: Option<(usize, usize)>)
    ensures
        match r {
            None => length_at(bytes@) matches Some((length, body)) ==> length > body.len(),
            Some((length, start)) => start + length <= bytes@.len() && length_at(bytes@) == Some(
                (length as nat, bytes@.skip(start as int)),
            ),
        },
{
    if bytes.len() == 0 {
        return None;
    }
    if bytes[0] < 128 {
        let length: usize = bytes[0] as usize;
        if length > bytes.len() - 1 {
            return None;
        }
        return Some((length, 1));
    }
    if bytes[0] == 128 || bytes[0] == 255 || bytes.len() <= (bytes[0] - 128) as usize {
        return None;
    }
    let start: usize = (bytes[0] - 127) as usize;
    let ghost digits = bytes@.subrange(1, start as int);
    let mut length: u128 = 0;
    let mut i: usize = 1;
    assert(digits.skip(0) =~= digits);
    while i < start
        invariant
            1 <= i <= start <= bytes@.len(),
            digits == bytes@.subrange(1, start as int),
            length <= bytes@.len() <= usize::MAX,
            number(digits, 0) == number(digits.skip(i - 1), length as nat),
            length_at(bytes@) == Some((number(digits, 0), bytes@.skip(start as int))),
        decreases start - i,
    {
        length = length * 256 + bytes[i] as u128;
        assert(digits.skip(i - 1)[0] == bytes@[i as int]);
        assert(digits.skip(i - 1).skip(1) =~= digits.skip(i as int));
        if length > bytes.len() as u128 {
            proof {
                lemma_number_grows(digits.skip(i as int), length as nat);
            }
            return None;
        }
        i = i + 1;
    }
    let length: usize = length as usize;
    if length > bytes.len() - start {
        return None;
    }
    Some((length, start))
}

/// The element that the bytes begin with.
fn read<'a>(bytes: &'a [u8]) -> (r: Option<Found<'a>>)
    ensures
        found(r) == element(bytes@),
{
    let (tag, end) = match read_tag(bytes) {
        None => {
            return None;
        },
        Some(at) => at,
    };
    let after = rest_from(bytes, end);
    let (length, start) = match read_length(after) {
        None => {
            return None;
        },
        Some(at) => at,
    };
    let body = rest_from(after, start);
    let content = vstd::slice::slice_subrange(body, 0, length);
    assert(content@ =~= body@.take(length as int));
    Some(Found { tag, primitive: bytes[0] / 32 % 2 == 0, content, rest: rest_from(body, length) })
}

/// Whether an attribute type can be written.
fn type_writes_back(kind: &[u8]) -> (r: bool)
    ensures
        r == type_can_be_written(kind@),
{
    if kind.len() == 0 || kind[0] >= 120 {
        return false;
    }
    if kind.len() == 1 && kind[0] == 0 {
        assert(kind@ =~= seq![0u8]);
        return false;
    }
    assert(kind@ != seq![0u8]) by {
        assert(seq![0u8].len() == 1 && seq![0u8][0] == 0);
    }
    true
}

/// Whether the value of an attribute can be written.
fn value_writes_back(value: &Found<'_>) -> (r: bool)
    ensures
        r == value_can_be_written(value.element()),
{
    if value.tag != PRINTABLE_STRING {
        return true;
    }
    let content = value.content;
    let mut i: usize = 0;
    while i < content.len()
        invariant
            i <= content@.len(),
            forall|j: int| 0 <= j < i ==> content@[j] != QUESTION_MARK,
            content == value.content,
            value.tag == PRINTABLE_STRING,
        decreases content@.len() - i,
    {
        if content[i] == QUESTION_MARK {
            assert(value.element().content[i as int] == QUESTION_MARK);
            return false;
        }
        i = i + 1;
    }
    true
}

/// Whether the attributes of a name can be written.
fn name_writes_back(name: &[u8]) -> (r: bool)
    ensures
        r == name_can_be_written(name@),
{
    let mut left = name;
    loop
        invariant
            name_can_be_written(name@) == name_can_be_written(left@),
        decreases left@.len(),
    {
        proof {
            lemma_element_shrinks(left@);
        }
        let set = match read(left) {
            None => {
                return true;
            },
            Some(set) => set,
        };
        if set.tag != SET {
            return true;
        }
        let pair = match read(set.content) {
            None => {
                return true;
            },
            Some(pair) => pair,
        };
        if pair.tag != SEQUENCE {
            return true;
        }
        let kind = match read(pair.content) {
            None => {
                return true;
            },
            Some(kind) => kind,
        };
        if !kind.primitive {
            return true;
        }
        let value = match read(kind.rest) {
            None => {
                return true;
            },
            Some(value) => value,
        };
        if !type_writes_back(kind.content) || !value_writes_back(&value) {
            return false;
        }
        left = set.rest;
    }
}

/// What follows `count` elements.
fn read_behind<'a>(bytes: &'a [u8], count: usize) -> (r: Option<&'a [u8]>)
    ensures
        match r {
            None => behind(bytes@, count as nat) is None,
            Some(rest) => behind(bytes@, count as nat) == Some(rest@),
        },
{
    let mut left = bytes;
    let mut i: usize = 0;
    while i < count
        invariant
            i <= count,
            behind(bytes@, count as nat) == behind(left@, (count - i) as nat),
        decreases count - i,
    {
        match read(left) {
            None => {
                return None;
            },
            Some(e) => {
                left = e.rest;
            },
        }
        i = i + 1;
    }
    Some(left)
}

/// Whether the subject of a certificate can be written into others.
pub fn subject_writes_back(der: &[u8]) -> (r: bool)
    ensures
        r == subject_can_be_written(der@),
{
    let certificate = match read(der) {
        None => {
            return false;
        },
        Some(e) => e,
    };
    let signed = match read(certificate.content) {
        None => {
            return false;
        },
        Some(e) => e,
    };
    let first = match read(signed.content) {
        None => {
            return false;
        },
        Some(e) => e,
    };
    let count: usize = if first.tag == VERSION {
        5
    } else {
        4
    };
    let rest = match read_behind(signed.content, count) {
        None => {
            return false;
        },
        Some(rest) => rest,
    };
    match read(rest) {
        None => false,
        Some(name) => name_writes_back(name.content),
    }
}

/// An element is a tag, a length and as many bytes of content; what follows is left.
/// The length is a byte below 128, or a byte that says how many bytes it takes, with
/// 128 added, and these bytes.
pub proof fn elements_are_tag_length_and_content(
    tag: u8,
    digits: Seq<u8>,
    content: Seq<u8>,
    rest: Seq<u8>,
)
    requires
        tag % 32 != 31,
    ensures
        content.len() < 128 ==> element(seq![tag, content.len() as u8] + content + rest) == Some(
            Element {
                tag: (tag % 32) as u64,
                primitive: tag / 32 % 2 == 0,
                content,
                rest,
            },
        ),
        1 <= digits.len() <= 126 && number(digits, 0) == content.len() ==> element(
            seq![tag, (128 + digits.len()) as u8] + digits + content + rest,
        ) == Some(
            Element { tag: (tag % 32) as u64, primitive: tag / 32 % 2 == 0, content, rest },
        ),
{
    if content.len() < 128 {
        let all = seq![tag, content.len() as u8] + content + rest;
        let after = all.skip(1);
        assert(after[0] == content.len());
        let body = after.skip(1);
        assert(body =~= content + rest);
        assert(body.take(content.len() as int) =~= content);
        assert(body.skip(content.len() as int) =~= rest);
    }
    if 1 <= digits.len() <= 126 && number(digits, 0) == content.len() {
        let n = digits.len() as int;
        let all = seq![tag, (128 + digits.len()) as u8] + digits + content + rest;
        let after = all.skip(1);
        assert(after[0] == 128 + n);
        assert(after.subrange(1, n + 1) =~= digits);
        let body = after.skip(n + 1);
        assert(body =~= content + rest);
        assert(body.take(content.len() as int) =~= content);
        assert(body.skip(content.len() as int) =~= rest);
    }
}

/// The bytes of a length are digits to the base 256, the highest first.
pub proof fn lengths_are_big_endian(digits: Seq<u8>, last: u8)
    ensures
        number(Seq::<u8>::empty(), 0) == 0,
        number(digits.push(last), 0) == 256 * number(digits, 0) + last,
{
    lemma_number_push(digits, 0, last);
}

/// A further digit is worth the least.
proof fn lemma_number_push(digits: Seq<u8>, high: nat, last: u8)
    ensures
        number(digits.push(last), high) == 256 * number(digits, high) + last,
    decreases digits.len(),
{
    reveal_with_fuel(number, 2);
    let all = digits.push(last);
    if digits.len() > 0 {
        assert(all.skip(1) =~= digits.skip(1).push(last));
        lemma_number_push(digits.skip(1), high * 256 + digits[0] as nat, last);
    } else {
        assert(all.skip(1) =~= Seq::<u8>::empty());
    }
}

/// An attribute cannot be written where its type has fewer than two numbers, or a
/// first that is not 0, 1 or 2, or where its value is a printable string with a
/// question mark; all others can.
pub proof fn what_cannot_be_written(kind: Seq<u8>, value: Element)
    ensures
        type_can_be_written(kind) <==> {
            ||| kind.len() == 1 && 1 <= kind[0] && kind[0] / 40 <= 2
            ||| kind.len() > 1 && kind[0] / 40 <= 2
        },
        value_can_be_written(value) <==> value.tag != 19 || forall|i: int|
            0 <= i < value.content.len() ==> #[trigger] value.content[i] != 0x3f,
{
    if kind.len() == 1 && kind[0] == 0 {
        assert(kind =~= seq![0u8]);
    }
    if type_can_be_written(kind) && kind.len() == 1 {
        assert(kind[0] != 0) by {
            if kind[0] == 0 {
                assert(kind =~= seq![0u8]);
            }
        }
    }
    if kind.len() > 1 || (kind.len() == 1 && kind[0] >= 1) {
        assert(kind != seq![0u8]) by {
            assert(seq![0u8].len() == 1 && seq![0u8][0] == 0);
        }
    }
}

/// A name can be written where each of its attributes can: an attribute of a name is
/// a set that holds a sequence of a type and a value.
pub proof fn names_can_be_written_attribute_by_attribute(
    kind: Seq<u8>,
    tag: u8,
    value: Seq<u8>,
    rest: Seq<u8>,
)
    requires
        tag % 32 != 31,
        kind.len() + value.len() < 120,
    ensures
        ({
            let pair = seq![6u8, kind.len() as u8] + kind + (seq![tag, value.len() as u8] + value);
            let held = seq![0x30u8, pair.len() as u8] + pair;
            let set = seq![0x31u8, held.len() as u8] + held;
            name_can_be_written(set + rest) <==> {
                &&& type_can_be_written(kind)
                &&& tag % 32 == 19 ==> !value.contains(0x3f)
                &&& name_can_be_written(rest)
            }
        }),
        name_can_be_written(Seq::<u8>::empty()),
{
    let none = Seq::<u8>::empty();
    let valued = seq![tag, value.len() as u8] + value;
    let pair = seq![6u8, kind.len() as u8] + kind + valued;
    let held = seq![0x30u8, pair.len() as u8] + pair;
    let set = seq![0x31u8, held.len() as u8] + held;
    elements_are_tag_length_and_content(tag, none, value, none);
    assert(valued + none =~= valued);
    elements_are_tag_length_and_content(6, none, kind, valued);
    elements_are_tag_length_and_content(0x30, none, pair, none);
    assert(held + none =~= held);
    elements_are_tag_length_and_content(0x31, none, held, rest);
    assert(seq![0x31u8, held.len() as u8] + held + rest =~= set + rest);
}

} // verus!
