//! Text primitives: strings seen as sequences of characters.
//!
//! Contracts speak of `Seq<char>`; executable code walks a `Vec<char>` made
//! once per string.

use vstd::prelude::*;

verus! {

/// `String::push` appends the character to the end of the string.
pub assume_specification[ String::push ](s: &mut String, c: char)
    ensures
        final(s)@ == old(s)@.push(c),
;

/// What `{:?}` writes for a string.
pub uninterp spec fn debug_text(s: Seq<char>) -> Seq<char>;

/// `format!("{:?}", s)`: the string in double quotes, with what is not
/// printable escaped. The text is a function of the string alone.
#[verifier::external_body]
pub(crate) fn quoted(s: &str) -> (r: String)
    ensures
        r@ == debug_text(s@),
{
    format!("{:?}", s)
}

/// `String::from_utf8`: succeeds exactly on well-formed UTF-8, with the text
/// that the bytes encode.
#[verifier::external_body]
pub(crate) fn utf8_text(bytes: Vec<u8>) -> (r: Option<String>)
    ensures
        r is Some <==> vstd::utf8::valid_utf8(bytes@),
        r matches Some(s) ==> s@ == vstd::utf8::decode_utf8(bytes@),
{
    String::from_utf8(bytes).ok()
}

/// The text of bytes that may not be UTF-8.
pub uninterp spec fn utf8_lossy(bytes: Seq<u8>) -> Seq<char>;

/// `String::from_utf8_lossy`: the text that the bytes encode, with what is not
/// well-formed replaced; well-formed UTF-8 comes out unchanged.
#[verifier::external_body]
pub(crate) fn lossy_text(bytes: &[u8]) -> (r: String)
    ensures
        r@ == utf8_lossy(bytes@),
        vstd::utf8::valid_utf8(bytes@) ==> r@ == vstd::utf8::decode_utf8(bytes@),
{
    String::from_utf8_lossy(bytes).into_owned()
}

/// The texts of a list of strings.
pub open spec fn texts(v: Seq<String>) -> Seq<Seq<char>> {
    Seq::new(v.len(), |i: int| v[i]@)
}

/// The characters of a string.
pub fn chars_of(s: &str) -> (r: Vec<char>)
    ensures
        r@ == s@,
{
    let mut out: Vec<char> = Vec::new();
    for c in it: s.chars()
        invariant
            out@ == s@.take(it.index()),
            it.seq() == s@,
            it.index() <= s@.len(),
    {
        out.push(c);
        assert(s@.take(it.index() + 1) =~= s@.take(it.index()).push(s@[it.index()]));
    }
    assert(s@.take(s@.len() as int) =~= s@);
    out
}

/// The string made of the characters `cs[from..to]`.
pub fn text_between(cs: &Vec<char>, from: usize, to: usize) -> (r: String)
    requires
        from <= to <= cs@.len(),
    ensures
        r@ == cs@.subrange(from as int, to as int),
{
    let mut out: String = String::new();
    let mut i: usize = from;
    while i < to
        invariant
            from <= i <= to <= cs@.len(),
            out@ == cs@.subrange(from as int, i as int),
        decreases to - i,
    {
        out.push(cs[i]);
        assert(cs@.subrange(from as int, i + 1) =~= cs@.subrange(from as int, i as int).push(
            cs@[i as int],
        ));
        i = i + 1;
    }
    out
}

/// Whether two strings hold the same characters.
pub fn same(a: &str, b: &str) -> (r: bool)
    ensures
        r == (a@ == b@),
{
    let x = chars_of(a);
    let y = chars_of(b);
    if x.len() != y.len() {
        return false;
    }
    let mut i: usize = 0;
    while i < x.len()
        invariant
            x@ == a@,
            y@ == b@,
            x@.len() == y@.len(),
            i <= x@.len(),
            forall|j: int| 0 <= j < i ==> x@[j] == y@[j],
        decreases x@.len() - i,
    {
        if x[i] != y[i] {
            assert(a@[i as int] != b@[i as int]);
            return false;
        }
        i = i + 1;
    }
    assert(a@ =~= b@);
    true
}

/// Whether `s` begins with `prefix`.
pub open spec fn begins(s: Seq<char>, prefix: Seq<char>) -> bool {
    prefix.len() <= s.len() && s.take(prefix.len() as int) == prefix
}

/// Whether the characters begin with `prefix`.
pub fn begins_with(cs: &Vec<char>, prefix: &str) -> (r: bool)
    ensures
        r == begins(cs@, prefix@),
{
    let p = chars_of(prefix);
    if p.len() > cs.len() {
        return false;
    }
    let mut i: usize = 0;
    while i < p.len()
        invariant
            p@ == prefix@,
            p@.len() <= cs@.len(),
            i <= p@.len(),
            forall|j: int| 0 <= j < i ==> cs@[j] == p@[j],
        decreases p@.len() - i,
    {
        if cs[i] != p[i] {
            assert(cs@.take(p@.len() as int)[i as int] != prefix@[i as int]);
            return false;
        }
        i = i + 1;
    }
    assert(cs@.take(p@.len() as int) =~= prefix@);
    true
}

/// A character in lowercase if it is an ASCII letter, else unchanged.
pub open spec fn ascii_lower(c: char) -> char {
    if 'A' <= c <= 'Z' {
        (c as u32 + 32) as char
    } else {
        c
    }
}

/// A character in uppercase if it is an ASCII letter, else unchanged.
pub open spec fn ascii_upper(c: char) -> char {
    if 'a' <= c <= 'z' {
        (c as u32 - 32) as char
    } else {
        c
    }
}

/// ASCII letters in lowercase, every other character unchanged.
pub open spec fn ascii_lowercase(s: Seq<char>) -> Seq<char> {
    s.map_values(|c: char| ascii_lower(c))
}

/// ASCII letters in uppercase, every other character unchanged.
pub open spec fn ascii_uppercase(s: Seq<char>) -> Seq<char> {
    s.map_values(|c: char| ascii_upper(c))
}

/// Raising letters before lowering them makes no difference.
pub proof fn lemma_lower_upper(s: Seq<char>)
    ensures
        ascii_lowercase(ascii_uppercase(s)) == ascii_lowercase(s),
{
    assert(ascii_lowercase(ascii_uppercase(s)) =~= ascii_lowercase(s));
}

/// A character in lowercase if it is an ASCII letter, else unchanged.
fn lower(c: char) -> (r: char)
    ensures
        r == ascii_lower(c),
{
    if 'A' <= c && c <= 'Z' {
        (c as u8 + 32) as char
    } else {
        c
    }
}

/// Whether the first `to` characters spell `word`, whatever the case of their
/// ASCII letters.
pub fn spells(cs: &Vec<char>, to: usize, word: &str) -> (r: bool)
    requires
        to <= cs@.len(),
    ensures
        r == (ascii_lowercase(cs@.take(to as int)) == word@),
{
    let ws = chars_of(word);
    let ghost lowered = ascii_lowercase(cs@.take(to as int));
    if ws.len() != to {
        return false;
    }
    let mut i: usize = 0;
    while i < to
        invariant
            i <= to <= cs@.len(),
            ws@ == word@,
            ws@.len() == to,
            lowered == ascii_lowercase(cs@.take(to as int)),
            forall|j: int| 0 <= j < i ==> lowered[j] == ws@[j],
        decreases to - i,
    {
        assert(lowered[i as int] == ascii_lower(cs@[i as int]));
        if lower(cs[i]) != ws[i] {
            return false;
        }
        i = i + 1;
    }
    assert(lowered =~= word@);
    true
}

/// The index of the first `c` in `s`, or the length of `s` if there is none.
pub open spec fn find(s: Seq<char>, c: char) -> int
    decreases s.len(),
{
    if s.len() == 0 || s[0] == c {
        0
    } else {
        1 + find(s.drop_first(), c)
    }
}

/// What `find` means, without recursion.
pub proof fn lemma_find(s: Seq<char>, c: char)
    ensures
        0 <= find(s, c) <= s.len(),
        forall|i: int| 0 <= i < find(s, c) ==> s[i] != c,
        find(s, c) < s.len() ==> s[find(s, c)] == c,
    decreases s.len(),
{
    if s.len() > 0 && s[0] != c {
        lemma_find(s.drop_first(), c);
        assert forall|i: int| 0 <= i < find(s, c) implies s[i] != c by {
            if i > 0 {
                assert(s[i] == s.drop_first()[i - 1]);
            }
        }
    }
}

/// An index with the properties of `find` is `find`.
pub proof fn lemma_find_unique(s: Seq<char>, c: char, k: int)
    requires
        0 <= k <= s.len(),
        forall|i: int| 0 <= i < k ==> s[i] != c,
        k < s.len() ==> s[k] == c,
    ensures
        find(s, c) == k,
{
    lemma_find(s, c);
    let f = find(s, c);
    if f < k {
        assert(s[f] != c);
    } else if k < f {
        assert(s[k] != c);
    }
}

/// The index of the first `c` at or after `from`, or the length.
pub fn find_from(cs: &Vec<char>, from: usize, c: char) -> (r: usize)
    requires
        from <= cs@.len(),
    ensures
        from <= r <= cs@.len(),
        r - from == find(cs@.skip(from as int), c),
        forall|i: int| from <= i < r ==> cs@[i] != c,
        r < cs@.len() ==> cs@[r as int] == c,
{
    let mut i: usize = from;
    while i < cs.len() && cs[i] != c
        invariant
            from <= i <= cs@.len(),
            forall|j: int| from <= j < i ==> cs@[j] != c,
        decreases cs@.len() - i,
    {
        i = i + 1;
    }
    proof {
        lemma_find_unique(cs@.skip(from as int), c, i - from);
    }
    i
}

/// The pieces of `s` between the occurrences of `sep`; never empty.
pub open spec fn split(s: Seq<char>, sep: char) -> Seq<Seq<char>>
    decreases s.len(),
{
    let k = find(s, sep);
    if k < 0 || k >= s.len() {
        seq![s]
    } else {
        seq![s.take(k)] + split(s.skip(k + 1), sep)
    }
}

/// A piece holds no separator.
pub proof fn lemma_split_pieces(s: Seq<char>, sep: char)
    ensures
        forall|i: int| 0 <= i < split(s, sep).len() ==> !(#[trigger] split(s, sep)[i]).contains(sep),
    decreases s.len(),
{
    lemma_find(s, sep);
    let k = find(s, sep);
    let all = split(s, sep);
    if k < s.len() {
        lemma_split_pieces(s.skip(k + 1), sep);
        assert forall|i: int| 0 <= i < all.len() implies !(#[trigger] all[i]).contains(sep) by {
            if i > 0 {
                assert(all[i] == split(s.skip(k + 1), sep)[i - 1]);
            }
        }
    }
}

/// What has no separator is one piece.
pub proof fn lemma_split_one(s: Seq<char>, sep: char)
    requires
        !s.contains(sep),
    ensures
        split(s, sep) == seq![s],
{
    lemma_find(s, sep);
    let k = find(s, sep);
    if k < s.len() {
        assert(s.contains(s[k]));
    }
}

/// The pieces on both sides of a separator.
pub proof fn lemma_split_concat(a: Seq<char>, b: Seq<char>, sep: char)
    ensures
        split(a.push(sep) + b, sep) == split(a, sep) + split(b, sep),
    decreases a.len(),
{
    let s = a.push(sep) + b;
    lemma_find(a, sep);
    let k = find(a, sep);
    if k < a.len() {
        lemma_find_unique(s, sep, k);
        lemma_split_concat(a.skip(k + 1), b, sep);
        assert(s.skip(k + 1) =~= a.skip(k + 1).push(sep) + b);
        assert(s.take(k) =~= a.take(k));
        assert(split(s, sep) =~= split(a, sep) + split(b, sep));
    } else {
        lemma_find_unique(s, sep, a.len() as int);
        assert(s.take(a.len() as int) =~= a);
        assert(s.skip(a.len() as int + 1) =~= b);
    }
}

/// The pieces of a text between the occurrences of `sep`.
pub fn split_on(cs: &Vec<char>, sep: char) -> (r: Vec<String>)
    ensures
        texts(r@) == split(cs@, sep),
{
    let mut out: Vec<String> = Vec::new();
    let mut from: usize = 0;
    assert(cs@.skip(0) =~= cs@);
    assert(texts(out@) + split(cs@.skip(0), sep) =~= split(cs@, sep));
    loop
        invariant
            from <= cs@.len(),
            texts(out@) + split(cs@.skip(from as int), sep) == split(cs@, sep),
        decreases cs@.len() - from,
    {
        let to = find_from(cs, from, sep);
        let piece = text_between(cs, from, to);
        let ghost rest = cs@.skip(from as int);
        let ghost before = out@;
        assert(piece@ =~= rest.take(to - from));
        out.push(piece);
        assert(texts(out@) =~= texts(before).push(piece@));
        if to == cs.len() {
            assert(piece@ =~= rest);
            assert(texts(out@) =~= texts(before) + split(rest, sep));
            return out;
        }
        assert(rest.skip(to - from + 1) =~= cs@.skip(to + 1));
        assert(texts(before) + split(rest, sep) =~= texts(out@) + split(cs@.skip(to + 1), sep));
        from = to + 1;
    }
}

/// A line without the carriage return that stood before its line feed.
pub open spec fn without_cr(line: Seq<char>) -> Seq<char> {
    if line.len() > 0 && line.last() == '\r' {
        line.drop_last()
    } else {
        line
    }
}

/// The lines of `s`: each ends in a line feed, which may follow a carriage
/// return, or at the end of the text. Line endings are not part of a line.
pub open spec fn lines(s: Seq<char>) -> Seq<Seq<char>>
    decreases s.len(),
{
    let k = find(s, '\n');
    if s.len() == 0 {
        seq![]
    } else if k < 0 || k >= s.len() {
        seq![s]
    } else {
        seq![without_cr(s.take(k))] + lines(s.skip(k + 1))
    }
}

/// The lines of a text.
pub fn lines_of(cs: &Vec<char>) -> (r: Vec<String>)
    ensures
        texts(r@) == lines(cs@),
{
    let mut out: Vec<String> = Vec::new();
    let mut from: usize = 0;
    assert(cs@.skip(0) =~= cs@);
    assert(texts(out@) + lines(cs@.skip(0)) =~= lines(cs@));
    while from < cs.len()
        invariant
            from <= cs@.len(),
            texts(out@) + lines(cs@.skip(from as int)) == lines(cs@),
        decreases cs@.len() - from,
    {
        let to = find_from(cs, from, '\n');
        let ghost rest = cs@.skip(from as int);
        let ghost before = out@;
        if to == cs.len() {
            let piece = text_between(cs, from, to);
            assert(piece@ =~= rest);
            out.push(piece);
            assert(texts(out@) =~= texts(before) + lines(rest));
            return out;
        }
        assert(rest.take(to - from) =~= cs@.subrange(from as int, to as int));
        let end: usize = if from < to && cs[to - 1] == '\r' {
            to - 1
        } else {
            to
        };
        let piece = text_between(cs, from, end);
        assert(piece@ =~= without_cr(rest.take(to - from)));
        out.push(piece);
        assert(texts(out@) =~= texts(before).push(piece@));
        assert(rest.skip(to - from + 1) =~= cs@.skip(to + 1));
        assert(texts(before) + lines(rest) =~= texts(out@) + lines(cs@.skip(to + 1)));
        from = to + 1;
    }
    assert(cs@.skip(from as int) =~= Seq::<char>::empty());
    assert(texts(out@) =~= lines(cs@));
    out
}

/// A line that ends in a carriage return and a line feed comes first.
pub proof fn lemma_first_line(line: Seq<char>, rest: Seq<char>)
    requires
        forall|i: int| 0 <= i < line.len() ==> line[i] != '\n',
    ensures
        lines(line + "\r\n"@ + rest) == seq![line] + lines(rest),
{
    reveal_strlit("\r\n");
    let s = line + "\r\n"@ + rest;
    let k = line.len() as int + 1;
    assert(s[k] == '\n');
    assert(s[k - 1] == '\r');
    assert forall|i: int| 0 <= i < k implies s[i] != '\n' by {
        if i < line.len() {
            assert(s[i] == line[i]);
        }
    }
    lemma_find_unique(s, '\n', k);
    assert(s.take(k).drop_last() =~= line);
    assert(s.take(k).last() == '\r');
    assert(s.skip(k + 1) =~= rest);
}

/// The characters with the Unicode property White_Space.
pub open spec fn is_space(c: char) -> bool {
    ||| '\u{9}' <= c <= '\u{d}'
    ||| c == '\u{20}'
    ||| c == '\u{85}'
    ||| c == '\u{a0}'
    ||| c == '\u{1680}'
    ||| '\u{2000}' <= c <= '\u{200a}'
    ||| c == '\u{2028}'
    ||| c == '\u{2029}'
    ||| c == '\u{202f}'
    ||| c == '\u{205f}'
    ||| c == '\u{3000}'
}

/// Whether a character is white space.
pub fn is_white_space(c: char) -> (r: bool)
    ensures
        r == is_space(c),
{
    ('\u{9}' <= c && c <= '\u{d}') || c == '\u{20}' || c == '\u{85}' || c == '\u{a0}' || c
        == '\u{1680}' || ('\u{2000}' <= c && c <= '\u{200a}') || c == '\u{2028}' || c == '\u{2029}'
        || c == '\u{202f}' || c == '\u{205f}' || c == '\u{3000}'
}

/// `s` without its leading white space.
pub open spec fn trim_start(s: Seq<char>) -> Seq<char>
    decreases s.len(),
{
    if s.len() > 0 && is_space(s[0]) {
        trim_start(s.drop_first())
    } else {
        s
    }
}

/// `s` without its trailing white space.
pub open spec fn trim_end(s: Seq<char>) -> Seq<char>
    decreases s.len(),
{
    if s.len() > 0 && is_space(s.last()) {
        trim_end(s.drop_last())
    } else {
        s
    }
}

/// `s` without white space at either end.
pub open spec fn trim(s: Seq<char>) -> Seq<char> {
    trim_end(trim_start(s))
}

/// The first index at or after `from` that holds no white space, or `cs.len()`.
fn skip_space(cs: &Vec<char>, from: usize) -> (r: usize)
    requires
        from <= cs@.len(),
    ensures
        from <= r <= cs@.len(),
        cs@.skip(r as int) == trim_start(cs@.skip(from as int)),
        forall|j: int| from <= j < r ==> is_space(cs@[j]),
        r < cs@.len() ==> !is_space(cs@[r as int]),
{
    let mut i: usize = from;
    while i < cs.len() && is_white_space(cs[i])
        invariant
            from <= i <= cs@.len(),
            forall|j: int| from <= j < i ==> is_space(cs@[j]),
            trim_start(cs@.skip(i as int)) == trim_start(cs@.skip(from as int)),
        decreases cs@.len() - i,
    {
        assert(cs@.skip(i as int).drop_first() =~= cs@.skip(i + 1));
        i = i + 1;
    }
    i
}

/// A text without white space at either end.
pub fn trimmed(s: &str) -> (r: String)
    ensures
        r@ == trim(s@),
{
    let cs = chars_of(s);
    let from = skip_space(&cs, 0);
    assert(cs@.skip(0) =~= cs@);
    let ghost body = cs@.skip(from as int);
    let mut to: usize = cs.len();
    assert(body =~= cs@.subrange(from as int, to as int));
    while to > from && is_white_space(cs[to - 1])
        invariant
            from <= to <= cs@.len(),
            trim_end(cs@.subrange(from as int, to as int)) == trim_end(body),
        decreases to,
    {
        assert(cs@.subrange(from as int, to as int).drop_last() =~= cs@.subrange(
            from as int,
            to - 1,
        ));
        to = to - 1;
    }
    text_between(&cs, from, to)
}

/// The length of the leading run of characters that are not white space.
pub open spec fn word_len(s: Seq<char>) -> int
    decreases s.len(),
{
    if s.len() == 0 || is_space(s[0]) {
        0
    } else {
        1 + word_len(s.drop_first())
    }
}

/// What `word_len` means, without recursion.
pub proof fn lemma_word_len(s: Seq<char>)
    ensures
        0 <= word_len(s) <= s.len(),
        forall|i: int| 0 <= i < word_len(s) ==> !is_space(s[i]),
        word_len(s) < s.len() ==> is_space(s[word_len(s)]),
    decreases s.len(),
{
    if s.len() > 0 && !is_space(s[0]) {
        lemma_word_len(s.drop_first());
        assert forall|i: int| 0 <= i < word_len(s) implies !is_space(s[i]) by {
            if i > 0 {
                assert(s[i] == s.drop_first()[i - 1]);
            }
        }
    }
}

/// A length with the properties of `word_len` is `word_len`.
pub proof fn lemma_word_len_unique(s: Seq<char>, k: int)
    requires
        0 <= k <= s.len(),
        forall|i: int| 0 <= i < k ==> !is_space(s[i]),
        k < s.len() ==> is_space(s[k]),
    ensures
        word_len(s) == k,
{
    lemma_word_len(s);
    let f = word_len(s);
    if f < k {
        assert(!is_space(s[f]));
    } else if k < f {
        assert(!is_space(s[k]));
    }
}

/// `trim_start` drops a prefix.
pub proof fn lemma_trim_start_len(s: Seq<char>)
    ensures
        trim_start(s).len() <= s.len(),
        trim_start(s).len() > 0 ==> !is_space(trim_start(s)[0]),
    decreases s.len(),
{
    if s.len() > 0 && is_space(s[0]) {
        lemma_trim_start_len(s.drop_first());
    }
}

/// Trimming a text that begins with white space shortens it.
pub proof fn lemma_trim_len(s: Seq<char>)
    requires
        s.len() > 0,
        is_space(s[0]),
    ensures
        trim(s).len() < s.len(),
{
    lemma_trim_start_len(s.drop_first());
    lemma_trim_end_len(trim_start(s));
}

/// `trim_end` drops a suffix.
proof fn lemma_trim_end_len(s: Seq<char>)
    ensures
        trim_end(s).len() <= s.len(),
    decreases s.len(),
{
    if s.len() > 0 && is_space(s.last()) {
        lemma_trim_end_len(s.drop_last());
    }
}

/// White space in front is dropped.
proof fn lemma_trim_start_padding(a: Seq<char>, t: Seq<char>)
    requires
        forall|i: int| 0 <= i < a.len() ==> is_space(#[trigger] a[i]),
    ensures
        trim_start(a + t) == trim_start(t),
    decreases a.len(),
{
    if a.len() == 0 {
        assert(a + t =~= t);
    } else {
        assert(is_space(a[0]));
        assert((a + t)[0] == a[0]);
        lemma_trim_start_padding(a.drop_first(), t);
        assert((a + t).drop_first() =~= a.drop_first() + t);
    }
}

/// White space at the end is dropped.
proof fn lemma_trim_end_padding(t: Seq<char>, b: Seq<char>)
    requires
        forall|i: int| 0 <= i < b.len() ==> is_space(#[trigger] b[i]),
    ensures
        trim_end(t + b) == trim_end(t),
    decreases b.len(),
{
    if b.len() == 0 {
        assert(t + b =~= t);
    } else {
        assert(is_space(b[b.len() - 1]));
        assert((t + b).last() == b.last());
        lemma_trim_end_padding(t, b.drop_last());
        assert((t + b).drop_last() =~= t + b.drop_last());
    }
}

/// What stands between white space is left when that is trimmed.
pub proof fn lemma_trim_padded(a: Seq<char>, t: Seq<char>, b: Seq<char>)
    requires
        forall|i: int| 0 <= i < a.len() ==> is_space(#[trigger] a[i]),
        forall|i: int| 0 <= i < b.len() ==> is_space(#[trigger] b[i]),
        t.len() > 0,
        !is_space(t[0]),
    ensures
        trim(a + t + b) == trim(t),
{
    assert(a + t + b =~= a + (t + b));
    lemma_trim_start_padding(a, t + b);
    assert((t + b)[0] == t[0]);
    lemma_trim_end_padding(t, b);
}

/// The words of `s`: its maximal runs of characters that are not white space.
pub open spec fn words(s: Seq<char>) -> Seq<Seq<char>>
    decreases s.len(),
{
    let t = trim_start(s);
    let k = word_len(t);
    if t.len() == 0 || t.len() > s.len() || k <= 0 || k > t.len() {
        seq![]
    } else {
        seq![t.take(k)] + words(t.skip(k))
    }
}

/// A word that is followed by white space, or by nothing, comes first.
pub proof fn lemma_first_word(word: Seq<char>, rest: Seq<char>)
    requires
        word.len() > 0,
        forall|i: int| 0 <= i < word.len() ==> !is_space(#[trigger] word[i]),
        rest.len() > 0 ==> is_space(rest[0]),
    ensures
        words(word + rest) == seq![word] + words(rest),
{
    let s = word + rest;
    assert(s[0] == word[0]);
    assert(trim_start(s) == s);
    assert forall|i: int| 0 <= i < word.len() implies !is_space(s[i]) by {
        assert(s[i] == word[i]);
    }
    assert(rest.len() > 0 ==> s[word.len() as int] == rest[0]);
    lemma_word_len_unique(s, word.len() as int);
    assert(s.take(word.len() as int) =~= word);
    assert(s.skip(word.len() as int) =~= rest);
}

/// A space before a text does not change its words.
pub proof fn lemma_words_skip_space(s: Seq<char>)
    ensures
        words(" "@ + s) == words(s),
{
    reveal_strlit(" ");
    let t = " "@ + s;
    assert(t[0] == ' ');
    assert(t.drop_first() =~= s);
    assert(trim_start(t) == trim_start(s));
    lemma_trim_start_len(s);
    lemma_word_len(trim_start(s));
}

/// The words of a text.
pub fn words_of(s: &str) -> (r: Vec<String>)
    ensures
        texts(r@) == words(s@),
{
    let cs = chars_of(s);
    let mut out: Vec<String> = Vec::new();
    let mut at: usize = 0;
    assert(cs@.skip(0) =~= cs@);
    assert(texts(out@) + words(cs@.skip(0)) =~= words(cs@));
    loop
        invariant
            at <= cs@.len(),
            cs@ == s@,
            texts(out@) + words(cs@.skip(at as int)) == words(cs@),
        decreases cs@.len() - at,
    {
        let ghost rest = cs@.skip(at as int);
        let ghost before = out@;
        let from = skip_space(&cs, at);
        let ghost t = cs@.skip(from as int);
        if from == cs.len() {
            assert(words(rest) =~= Seq::<Seq<char>>::empty());
            assert(texts(out@) =~= words(cs@));
            return out;
        }
        let mut to: usize = from + 1;
        while to < cs.len() && !is_white_space(cs[to])
            invariant
                from < to <= cs@.len(),
                forall|j: int| from <= j < to ==> !is_space(cs@[j]),
            decreases cs@.len() - to,
        {
            to = to + 1;
        }
        proof {
            lemma_word_len_unique(t, to - from);
        }
        let word = text_between(&cs, from, to);
        assert(word@ =~= t.take(to - from));
        out.push(word);
        assert(texts(out@) =~= texts(before).push(word@));
        assert(t.skip(to - from) =~= cs@.skip(to as int));
        assert(texts(before) + words(rest) =~= texts(out@) + words(cs@.skip(to as int)));
        at = to;
    }
}

/// The decimal digits of `n`, without leading zeros.
pub open spec fn decimal(n: nat) -> Seq<char>
    decreases n,
{
    if n < 10 {
        seq![(48 + n) as char]
    } else {
        decimal(n / 10).push((48 + n % 10) as char)
    }
}

/// The decimal digits of a number.
pub fn decimal_of(n: u64) -> (r: String)
    ensures
        r@ == decimal(n as nat),
    decreases n,
{
    let digit: char = (48 + (n % 10) as u8) as char;
    if n < 10 {
        let mut out: String = String::new();
        out.push(digit);
        assert(out@ =~= decimal(n as nat));
        out
    } else {
        let mut out: String = decimal_of(n / 10);
        out.push(digit);
        out
    }
}

/// Whether `c` is a decimal digit.
pub open spec fn is_digit(c: char) -> bool {
    '0' <= c <= '9'
}

/// The number that a run of decimal digits denotes.
pub open spec fn number(digits: Seq<char>) -> nat
    decreases digits.len(),
{
    if digits.len() == 0 {
        0
    } else {
        10 * number(digits.drop_last()) + (digits.last() as nat - 48) as nat
    }
}

/// The value of a text of decimal digits, if it is one and at most 65535.
pub open spec fn digits_value(digits: Seq<char>) -> Option<u16> {
    if digits.len() > 0 && (forall|i: int| 0 <= i < digits.len() ==> is_digit(#[trigger] digits[i]))
        && number(digits) <= 65535 {
        Some(number(digits) as u16)
    } else {
        None
    }
}

/// A port number: decimal digits, at most 65535, after an optional `+`.
pub open spec fn port_number(s: Seq<char>) -> Option<u16> {
    if s.len() > 0 && s[0] == '+' {
        digits_value(s.drop_first())
    } else {
        digits_value(s)
    }
}

/// More digits never denote a smaller number.
proof fn lemma_number_grows(s: Seq<char>, k: int)
    requires
        0 <= k <= s.len(),
    ensures
        number(s.take(k)) <= number(s),
    decreases s.len() - k,
{
    if k < s.len() {
        lemma_number_grows(s, k + 1);
        assert(s.take(k + 1).drop_last() =~= s.take(k));
    } else {
        assert(s.take(k) =~= s);
    }
}

/// The port number that a text denotes, if it denotes one.
pub fn parse_port(s: &str) -> (r: Option<u16>)
    ensures
        r == port_number(s@),
{
    let cs = chars_of(s);
    let from: usize = if cs.len() > 0 && cs[0] == '+' {
        1
    } else {
        0
    };
    let ghost digits = cs@.skip(from as int);
    assert(from == 0 ==> digits =~= cs@);
    assert(from == 1 ==> digits =~= cs@.drop_first());
    if from == cs.len() {
        return None;
    }
    let mut value: u32 = 0;
    let mut i: usize = from;
    assert(digits.take(0) =~= Seq::<char>::empty());
    while i < cs.len()
        invariant
            from <= i <= cs@.len(),
            cs@ == s@,
            digits == cs@.skip(from as int),
            digits.len() > 0,
            port_number(s@) == digits_value(digits),
            value <= 65535,
            value as nat == number(digits.take(i - from)),
            forall|j: int| 0 <= j < i - from ==> is_digit(#[trigger] digits[j]),
        decreases cs@.len() - i,
    {
        let c = cs[i];
        assert(digits[i - from] == c);
        if !('0' <= c && c <= '9') {
            return None;
        }
        value = value * 10 + (c as u32 - 48);
        assert(digits.take(i - from + 1).drop_last() =~= digits.take(i - from));
        if value > 65535 {
            proof {
                lemma_number_grows(digits, i - from + 1);
            }
            return None;
        }
        i = i + 1;
    }
    assert(digits.take(digits.len() as int) =~= digits);
    Some(value as u16)
}

/// The texts of a list are those of its strings, one for one.
pub proof fn texts_are_those_of_the_strings(v: Seq<String>)
    ensures
        texts(v).len() == v.len(),
        forall|i: int| 0 <= i < v.len() ==> texts(v)[i] == #[trigger] v[i]@,
{
}

/// A text begins with another exactly where something can be put behind that to
/// give it.
pub proof fn beginnings_can_be_completed(s: Seq<char>, prefix: Seq<char>)
    ensures
        begins(s, prefix) <==> exists|rest: Seq<char>| s == #[trigger] (prefix + rest),
{
    if begins(s, prefix) {
        assert(s =~= prefix + s.skip(prefix.len() as int));
    }
    if exists|rest: Seq<char>| s == #[trigger] (prefix + rest) {
        let rest = choose|rest: Seq<char>| s == #[trigger] (prefix + rest);
        assert(s.take(prefix.len() as int) =~= prefix);
    }
}

/// In ASCII lowercase, the capital letters are the small ones, 32 code points
/// further on, and nothing else changes.
pub proof fn lowercase_lowers_capital_letters(s: Seq<char>)
    ensures
        ascii_lowercase(s).len() == s.len(),
        forall|i: int|
            0 <= i < s.len() ==> #[trigger] ascii_lowercase(s)[i] as u32 == (if 65 <= s[i] as u32
                && s[i] as u32 <= 90 {
                s[i] as u32 + 32
            } else {
                s[i] as int
            }),
        ascii_uppercase(s).len() == s.len(),
        forall|i: int|
            0 <= i < s.len() ==> #[trigger] ascii_uppercase(s)[i] as u32 == (if 97 <= s[i] as u32
                && s[i] as u32 <= 122 {
                s[i] as u32 - 32
            } else {
                s[i] as int
            }),
{
}

/// A text is a list of lines, each ended by a line feed, with or without a
/// carriage return before it, and a last one that need not be ended.
pub proof fn lines_end_at_line_feeds(line: Seq<char>, rest: Seq<char>)
    requires
        !line.contains('\n'),
    ensures
        lines(Seq::<char>::empty()).len() == 0,
        line.len() > 0 ==> lines(line) == seq![line],
        line.len() == 0 || line.last() != '\r' ==> lines(line + seq!['\n'] + rest) == seq![line]
            + lines(rest),
        lines(line + seq!['\r', '\n'] + rest) == seq![line] + lines(rest),
{
    lemma_find(line, '\n');
    let k = find(line, '\n');
    if k < line.len() {
        assert(line.contains(line[k]));
    }
    assert forall|i: int| 0 <= i < line.len() implies line[i] != '\n' by {
        assert(line.contains(line[i]));
    }
    reveal_strlit("\r\n");
    assert("\r\n"@ =~= seq!['\r', '\n']);
    lemma_first_line(line, rest);
    if line.len() == 0 || line.last() != '\r' {
        let s = line + seq!['\n'] + rest;
        assert forall|i: int| 0 <= i < line.len() implies s[i] != '\n' by {
            assert(s[i] == line[i]);
        }
        assert(s[line.len() as int] == '\n');
        lemma_find_unique(s, '\n', line.len() as int);
        assert(s.take(line.len() as int) =~= line);
        assert(s.skip(line.len() as int + 1) =~= rest);
    }
}

/// The white space characters: tab, line feed, vertical tab, form feed, carriage
/// return, next line, and the separators of Unicode.
pub proof fn white_space_is_known(c: char)
    ensures
        is_space(c) <==> seq![
            0x9u32,
            0xa,
            0xb,
            0xc,
            0xd,
            0x20,
            0x85,
            0xa0,
            0x1680,
            0x2000,
            0x2001,
            0x2002,
            0x2003,
            0x2004,
            0x2005,
            0x2006,
            0x2007,
            0x2008,
            0x2009,
            0x200a,
            0x2028,
            0x2029,
            0x202f,
            0x205f,
            0x3000,
        ].contains(c as u32),
{
    let all = seq![
        0x9u32,
        0xa,
        0xb,
        0xc,
        0xd,
        0x20,
        0x85,
        0xa0,
        0x1680,
        0x2000,
        0x2001,
        0x2002,
        0x2003,
        0x2004,
        0x2005,
        0x2006,
        0x2007,
        0x2008,
        0x2009,
        0x200a,
        0x2028,
        0x2029,
        0x202f,
        0x205f,
        0x3000,
    ];
    if is_space(c) {
        let n = c as u32;
        let i: int = if n <= 0xd {
            n - 0x9
        } else if n == 0x20 {
            5
        } else if n == 0x85 {
            6
        } else if n == 0xa0 {
            7
        } else if n == 0x1680 {
            8
        } else if n <= 0x200a {
            n - 0x2000 + 9
        } else if n == 0x2028 {
            20
        } else if n == 0x2029 {
            21
        } else if n == 0x202f {
            22
        } else if n == 0x205f {
            23
        } else {
            24
        };
        assert(all[i] == n);
    }
}

/// Trimming takes all the white space off both ends of a text, and nothing else.
pub proof fn trimming_takes_white_space_off(a: Seq<char>, t: Seq<char>, b: Seq<char>)
    requires
        forall|i: int| 0 <= i < a.len() ==> is_space(#[trigger] a[i]),
        forall|i: int| 0 <= i < b.len() ==> is_space(#[trigger] b[i]),
        t.len() > 0 ==> !is_space(t[0]) && !is_space(t.last()),
    ensures
        trim(a + t + b) == t,
{
    if t.len() > 0 {
        lemma_trim_padded(a, t, b);
    } else {
        let s = a + t + b;
        assert forall|i: int| 0 <= i < s.len() implies is_space(#[trigger] s[i]) by {
            if i < a.len() {
                assert(s[i] == a[i]);
            } else {
                assert(s[i] == b[i - a.len()]);
            }
        }
        assert(s + Seq::<char>::empty() =~= s);
        lemma_trim_start_padding(s, Seq::<char>::empty());
    }
}

/// The words of a text are its runs of other characters than white space, in
/// order: white space in front of them does not matter, and a text of white
/// space alone has none.
pub proof fn words_are_runs(a: Seq<char>, word: Seq<char>, rest: Seq<char>)
    requires
        forall|i: int| 0 <= i < a.len() ==> is_space(#[trigger] a[i]),
        word.len() > 0,
        forall|i: int| 0 <= i < word.len() ==> !is_space(#[trigger] word[i]),
        rest.len() > 0 ==> is_space(rest[0]),
    ensures
        words(a).len() == 0,
        words(a + word + rest) == seq![word] + words(rest),
{
    lemma_trim_start_padding(a, Seq::<char>::empty());
    assert(a + Seq::<char>::empty() =~= a);
    let s = word + rest;
    assert(s[0] == word[0]);
    assert(a + word + rest =~= a + s);
    lemma_trim_start_padding(a, s);
    assert(trim_start(s) == s);
    lemma_first_word(word, rest);
    assert(words(a + s) =~= words(s)) by {
        lemma_word_len(s);
    }
}

/// Decimal digits denote the number they were made of: they are digits, do not
/// begin with a needless zero, and are read back as the number.
pub proof fn decimal_digits_denote_the_number(n: nat)
    ensures
        decimal(n).len() > 0,
        forall|i: int| 0 <= i < decimal(n).len() ==> '0' <= #[trigger] decimal(n)[i] <= '9',
        n > 0 ==> decimal(n)[0] != '0',
        number(decimal(n)) == n,
    decreases n,
{
    reveal_with_fuel(number, 2);
    assert(decimal(n).last() as nat - 48 == n % 10);
    if n >= 10 {
        decimal_digits_denote_the_number(n / 10);
        assert(decimal(n).drop_last() =~= decimal(n / 10));
        assert(decimal(n)[0] == decimal(n / 10)[0]);
        assert forall|i: int| 0 <= i < decimal(n).len() implies '0' <= #[trigger] decimal(n)[i]
            <= '9' by {
            if i < decimal(n / 10).len() {
                assert(decimal(n)[i] == decimal(n / 10)[i]);
            }
        }
    } else {
        assert(decimal(n).drop_last() =~= Seq::<char>::empty());
    }
}

/// Each digit behind a number adds its value to ten times the number.
pub proof fn digits_are_worth_ten_times_the_next(digits: Seq<char>, d: nat)
    requires
        d < 10,
    ensures
        number(Seq::<char>::empty()) == 0,
        number(digits.push((48 + d) as char)) == 10 * number(digits) + d,
{
    assert(digits.push((48 + d) as char).drop_last() =~= digits);
}

/// A text is a port exactly where it is made of digits, after a plus or not, that
/// denote a number up to 65535, and then it is that number.
pub proof fn ports_are_numbers_up_to_65535(s: Seq<char>, digits: Seq<char>)
    requires
        digits.len() > 0,
        (s == digits && digits[0] != '+') || s == seq!['+'] + digits,
    ensures
        port_number(s) is Some <==> number(digits) <= 65535 && forall|i: int|
            0 <= i < digits.len() ==> '0' <= #[trigger] digits[i] <= '9',
        port_number(s) matches Some(p) ==> p == number(digits),
        port_number(Seq::<char>::empty()) is None,
        port_number(seq!['+']) is None,
{
    if s == seq!['+'] + digits {
        assert(s[0] == '+');
        assert(s.drop_first() =~= digits);
    }
    assert(seq!['+'].drop_first() =~= Seq::<char>::empty());
    if forall|i: int| 0 <= i < digits.len() ==> '0' <= #[trigger] digits[i] <= '9' {
        assert forall|i: int| 0 <= i < digits.len() implies is_digit(#[trigger] digits[i]) by {}
    } else {
        let i = choose|i: int|
            0 <= i < digits.len() && !('0' <= #[trigger] digits[i] && digits[i] <= '9');
        assert(!is_digit(digits[i]));
    }
}

/// Every port number is read from its own digits.
pub proof fn ports_are_read_back(p: u16)
    ensures
        port_number(decimal(p as nat)) == Some(p),
        port_number(seq!['+'] + decimal(p as nat)) == Some(p),
{
    decimal_digits_denote_the_number(p as nat);
    ports_are_numbers_up_to_65535(decimal(p as nat), decimal(p as nat));
    ports_are_numbers_up_to_65535(seq!['+'] + decimal(p as nat), decimal(p as nat));
}

} // verus!
