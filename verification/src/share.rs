//! What is shared, and under which name.

use vstd::prelude::*;

use crate::protocol;
use crate::text;

verus! {

/// What `serve` shares: a port something is listening on, or a path the
/// built-in file server will serve.
#[derive(Debug, Clone)]
pub enum Target {
    Port(u16),
    Path(String),
}

/// A target that is neither a port number nor an existing path.
#[derive(Debug)]
pub struct NoSuchTarget {
    pub given: String,
}

impl NoSuchTarget {
    /// What the user is told.
    pub fn message(&self) -> (r: String)
        ensures
            r@ == text::debug_text(self.given@)
                + " is neither a port number nor an existing path"@,
    {
        let mut out: String = text::quoted(self.given.as_str());
        out.append(" is neither a port number nor an existing path");
        out
    }
}

/// `std::path::Path::exists`: whether the path leads to something on disk now.
/// Nothing is promised of the answer, which can change between two calls.
#[verifier::external_body]
fn path_exists(path: &str) -> bool {
    std::path::Path::new(path).exists()
}

/// The outside type of a path.
#[verifier::external_type_specification]
#[verifier::external_body]
pub struct ExPathBuf(std::path::PathBuf);

/// `std::path::Path::canonicalize`: the absolute form of the path with all
/// links resolved, `None` on any error. It depends on what is on disk, so
/// nothing is promised of it.
#[verifier::external_body]
fn canonical_path(path: &str) -> Option<std::path::PathBuf> {
    std::path::Path::new(path).canonicalize().ok()
}

/// `std::path::Path::file_name`, as text: the last component of the path, with
/// what is not Unicode replaced; `None` where the path ends in `..` or is a
/// root. Nothing more is promised of it.
#[verifier::external_body]
fn last_component(path: &std::path::PathBuf) -> Option<String> {
    path.file_name().map(|n| n.to_string_lossy().into_owned())
}

/// Whether `path_exists` was asked for this path, and this is what it said.
pub closed spec fn looked_up(path: Seq<char>, exists: bool) -> bool {
    exists|s: &str| s@ == path && #[trigger] call_ensures(path_exists, (s,), exists)
}

/// The text of an optional string.
pub open spec fn optional_text(s: Option<String>) -> Option<Seq<char>> {
    match s {
        Some(s) => Some(s@),
        None => None,
    }
}

/// Whether this path was made canonical, and this is what it gave, or not.
pub closed spec fn made_canonical(path: Seq<char>, canonical: Option<std::path::PathBuf>) -> bool {
    exists|s: &str| s@ == path && #[trigger] call_ensures(canonical_path, (s,), canonical)
}

/// Whether the last component of this path was asked for, and this is its text,
/// if there is one.
pub closed spec fn ends_in(path: std::path::PathBuf, name: Option<Seq<char>>) -> bool {
    exists|r: Option<String>|
        #[trigger] call_ensures(last_component, (&path,), r) && optional_text(r) == name
}

/// Whether this is the name of the file or folder that a path was found to lead
/// to: the last component of its canonical form; none where it has no such form
/// or that has no such component.
pub open spec fn file_name_of(path: Seq<char>, name: Option<Seq<char>>) -> bool {
    exists|canonical: Option<std::path::PathBuf>|
        #[trigger] made_canonical(path, canonical) && match canonical {
            Some(p) => ends_in(p, name),
            None => name is None,
        }
}

/// What is said of a path on disk is said of what the calls gave, and of
/// nothing else.
proof fn outcomes_are_those_of_the_calls(
    path: Seq<char>,
    exists: bool,
    canonical: Option<std::path::PathBuf>,
    p: std::path::PathBuf,
    name: Option<Seq<char>>,
)
    ensures
        looked_up(path, exists) ==> exists|s: &str|
            s@ == path && #[trigger] call_ensures(path_exists, (s,), exists),
        made_canonical(path, canonical) ==> exists|s: &str|
            s@ == path && #[trigger] call_ensures(canonical_path, (s,), canonical),
        ends_in(p, name) ==> exists|r: Option<String>|
            #[trigger] call_ensures(last_component, (&p,), r) && match r {
                Some(t) => name == Some(t@),
                None => name is None,
            },
        file_name_of(path, name) && name is Some ==> exists|c: std::path::PathBuf|
            #[trigger] made_canonical(path, Some(c)) && ends_in(c, name),
        file_name_of(path, name) && name is None ==> made_canonical(path, None) || exists|
            c: std::path::PathBuf,
        | #[trigger] made_canonical(path, Some(c)) && ends_in(c, None),
{
    if file_name_of(path, name) {
        let c = choose|canonical: Option<std::path::PathBuf>|
            #[trigger] made_canonical(path, canonical) && match canonical {
                Some(p) => ends_in(p, name),
                None => name is None,
            };
        if c is Some {
            assert(made_canonical(path, Some(c->0)) && ends_in(c->0, name));
        }
    }
}

/// The text in Unicode lowercase.
pub uninterp spec fn lowercase(s: Seq<char>) -> Seq<char>;

/// `str::to_lowercase`: the lowercase equivalent in the sense of Unicode, a
/// function of the text alone. On ASCII text it lowers the letters and keeps
/// everything else. On any text, lowering the ASCII letters first makes no
/// difference.
#[verifier::external_body]
pub(crate) fn lowercase_of(s: &str) -> (r: String)
    ensures
        r@ == lowercase(s@),
        r@ == lowercase(text::ascii_lowercase(s@)),
        vstd::utf8::is_ascii_chars(s@) ==> r@ == text::ascii_lowercase(s@),
{
    s.to_lowercase()
}

/// Lowercase letters and digits stay, anything else becomes a hyphen.
pub open spec fn hyphenate(c: char) -> char {
    if 'a' <= c <= 'z' || '0' <= c <= '9' {
        c
    } else {
        '-'
    }
}

/// `s` without its leading hyphens.
pub open spec fn trim_hyphens_start(s: Seq<char>) -> Seq<char>
    decreases s.len(),
{
    if s.len() > 0 && s[0] == '-' {
        trim_hyphens_start(s.drop_first())
    } else {
        s
    }
}

/// `s` without its trailing hyphens.
pub open spec fn trim_hyphens_end(s: Seq<char>) -> Seq<char>
    decreases s.len(),
{
    if s.len() > 0 && s.last() == '-' {
        trim_hyphens_end(s.drop_last())
    } else {
        s
    }
}

/// The DNS label made of a lowercase text: at most 63 characters, each a
/// letter, a digit or a hyphen, with no hyphen at either end.
pub open spec fn label_of(lower: Seq<char>) -> Seq<char> {
    let mapped = lower.map_values(|c: char| hyphenate(c));
    let cut = if mapped.len() > 63 {
        mapped.take(63)
    } else {
        mapped
    };
    trim_hyphens_end(trim_hyphens_start(cut))
}

/// Trimming keeps a run of the characters, with no hyphen where it was trimmed.
proof fn lemma_trim_hyphens(s: Seq<char>)
    ensures
        ({
            let t = trim_hyphens_start(s);
            &&& t.len() <= s.len()
            &&& t == s.skip(s.len() - t.len())
            &&& t.len() > 0 ==> t[0] != '-'
        }),
        ({
            let t = trim_hyphens_end(s);
            &&& t.len() <= s.len()
            &&& t == s.take(t.len() as int)
            &&& t.len() > 0 ==> t.last() != '-'
        }),
    decreases s.len(),
{
    if s.len() > 0 {
        if s[0] == '-' {
            let rest = s.drop_first();
            lemma_trim_hyphens(rest);
            let t = trim_hyphens_start(rest);
            assert(t =~= s.skip(s.len() - t.len()));
        } else {
            assert(s.skip(0) =~= s);
        }
        if s.last() == '-' {
            let rest = s.drop_last();
            lemma_trim_hyphens(rest);
            let t = trim_hyphens_end(rest);
            assert(t =~= s.take(t.len() as int));
        } else {
            assert(s.take(s.len() as int) =~= s);
        }
    } else {
        assert(s.skip(0) =~= s);
        assert(s.take(0) =~= s);
    }
}

/// Whatever the text, the label made of it is a valid name unless nothing is
/// left of it.
pub proof fn label_is_valid_or_empty(lower: Seq<char>)
    ensures
        label_of(lower).len() == 0 || protocol::valid_label(label_of(lower)),
{
    let mapped = lower.map_values(|c: char| hyphenate(c));
    let cut = if mapped.len() > 63 {
        mapped.take(63)
    } else {
        mapped
    };
    let front = trim_hyphens_start(cut);
    lemma_trim_hyphens(cut);
    lemma_trim_hyphens(front);
    let r = label_of(lower);
    if r.len() > 0 {
        assert(r[0] == front[0]);
        assert forall|i: int| 0 <= i < r.len() implies protocol::label_char(#[trigger] r[i]) by {
            assert(r[i] == front[i]);
            assert(front[i] == cut[cut.len() - front.len() + i]);
            assert(cut[cut.len() - front.len() + i] == hyphenate(
                lower[cut.len() - front.len() + i],
            ));
        }
    }
}

/// A label is made of a run of the first 63 characters of a text, without those
/// around it that are no lowercase letters or digits; in it such characters
/// become hyphens, and all others stay. It begins and ends with a letter or a
/// digit, and is empty only where there is none.
pub proof fn labels_keep_letters_and_digits(lower: Seq<char>) -> (from: int)
    ensures
        ({
            let r = label_of(lower);
            let cut: int = if lower.len() < 63 {
                lower.len() as int
            } else {
                63
            };
            let keeps = |c: char| ('a' <= c && c <= 'z') || ('0' <= c && c <= '9');
            &&& 0 <= from && from + r.len() <= cut
            &&& forall|i: int|
                0 <= i < r.len() ==> #[trigger] r[i] == (if keeps(lower[from + i]) {
                    lower[from + i]
                } else {
                    '-'
                })
            &&& forall|i: int| 0 <= i < from ==> !keeps(#[trigger] lower[i])
            &&& forall|i: int| from + r.len() <= i < cut ==> !keeps(#[trigger] lower[i])
            &&& r.len() > 0 ==> keeps(r[0]) && keeps(r.last())
        }),
{
    let mapped = lower.map_values(|c: char| hyphenate(c));
    let cut = if mapped.len() > 63 {
        mapped.take(63)
    } else {
        mapped
    };
    let front = trim_hyphens_start(cut);
    let r = label_of(lower);
    lemma_trim_hyphens(cut);
    lemma_trim_hyphens(front);
    lemma_trimmed_hyphens(cut);
    lemma_trimmed_hyphens(front);
    let from = cut.len() - front.len();
    assert forall|i: int| 0 <= i < r.len() implies #[trigger] r[i] == hyphenate(lower[from + i]) by {
        assert(r[i] == front[i]);
        assert(front[i] == cut[from + i]);
    }
    assert forall|i: int| 0 <= i < from implies hyphenate(#[trigger] lower[i]) == '-' by {
        assert(cut[i] == '-');
    }
    assert forall|i: int| from + r.len() <= i < cut.len() implies hyphenate(#[trigger] lower[i])
        == '-' by {
        assert(front[i - from] == cut[i]);
    }
    if r.len() > 0 {
        assert(r[0] == front[0]);
    }
    from
}

/// Only hyphens are trimmed.
proof fn lemma_trimmed_hyphens(s: Seq<char>)
    ensures
        forall|i: int| 0 <= i < s.len() - trim_hyphens_start(s).len() ==> #[trigger] s[i] == '-',
        forall|i: int| trim_hyphens_end(s).len() <= i < s.len() ==> #[trigger] s[i] == '-',
    decreases s.len(),
{
    if s.len() > 0 {
        if s[0] == '-' {
            let rest = s.drop_first();
            lemma_trimmed_hyphens(rest);
            assert forall|i: int| 0 <= i < s.len() - trim_hyphens_start(s).len() implies #[trigger] s[i]
                == '-' by {
                if i > 0 {
                    assert(s[i] == rest[i - 1]);
                }
            }
        }
        if s.last() == '-' {
            let rest = s.drop_last();
            lemma_trimmed_hyphens(rest);
            assert forall|i: int| trim_hyphens_end(s).len() <= i < s.len() implies #[trigger] s[i]
                == '-' by {
                if i < s.len() - 1 {
                    assert(s[i] == rest[i]);
                }
            }
        }
    }
}

/// A valid name is its own label.
pub proof fn label_keeps_valid_names(name: Seq<char>)
    requires
        protocol::valid_label(name),
    ensures
        text::ascii_lowercase(name) == name,
        label_of(name) == name,
{
    assert forall|i: int| 0 <= i < name.len() implies text::ascii_lowercase(name)[i] == name[i]
        && hyphenate(name[i]) == name[i] by {
        assert(protocol::label_char(name[i]));
    }
    assert(text::ascii_lowercase(name) =~= name);
    assert(name.map_values(|c: char| hyphenate(c)) =~= name);
}

/// The DNS label made of a text that is already in lowercase.
pub fn label_from(lower: &str) -> (r: String)
    ensures
        r@ == label_of(lower@),
        r@.len() == 0 || protocol::valid_label(r@),
{
    let cs = text::chars_of(lower);
    let ghost mapped = lower@.map_values(|c: char| hyphenate(c));
    let mut out: Vec<char> = Vec::new();
    let mut i: usize = 0;
    while i < cs.len() && i < 63
        invariant
            cs@ == lower@,
            mapped == lower@.map_values(|c: char| hyphenate(c)),
            i <= cs@.len(),
            i <= 63,
            out@ == mapped.take(i as int),
        decreases cs@.len() - i,
    {
        let c = cs[i];
        let kept: char = if ('a' <= c && c <= 'z') || ('0' <= c && c <= '9') {
            c
        } else {
            '-'
        };
        out.push(kept);
        assert(mapped.take(i + 1) =~= mapped.take(i as int).push(mapped[i as int]));
        i = i + 1;
    }
    assert(mapped.len() <= 63 ==> mapped.take(mapped.len() as int) =~= mapped);
    let ghost cut = out@;
    let mut from: usize = 0;
    assert(cut.skip(0) =~= cut);
    while from < out.len() && out[from] == '-'
        invariant
            out@ == cut,
            from <= out@.len(),
            trim_hyphens_start(cut.skip(from as int)) == trim_hyphens_start(cut),
        decreases out@.len() - from,
    {
        assert(cut.skip(from as int).drop_first() =~= cut.skip(from + 1));
        from = from + 1;
    }
    let ghost front = cut.skip(from as int);
    let mut to: usize = out.len();
    assert(cut.subrange(from as int, to as int) =~= front);
    while to > from && out[to - 1] == '-'
        invariant
            out@ == cut,
            from <= to <= out@.len(),
            trim_hyphens_end(cut.subrange(from as int, to as int)) == trim_hyphens_end(front),
        decreases to,
    {
        assert(cut.subrange(from as int, to as int).drop_last() =~= cut.subrange(
            from as int,
            to - 1,
        ));
        to = to - 1;
    }
    proof {
        label_is_valid_or_empty(lower@);
    }
    text::text_between(&out, from, to)
}

/// What a text is sanitized to: the label of its lowercase, which for ASCII
/// texts can be told without Unicode.
pub open spec fn sanitized(s: Seq<char>, label: Seq<char>) -> bool {
    &&& label == label_of(lowercase(s))
    &&& label == label_of(lowercase(text::ascii_lowercase(s)))
    &&& vstd::utf8::is_ascii_chars(s) ==> label == label_of(text::ascii_lowercase(s))
}

/// Sanitizing keeps valid names, changes nothing when done twice, and does not
/// depend on the case of ASCII letters. Here `once` comes of `s`, `twice` of
/// `once`, and `raised` of `s` with its ASCII letters in uppercase.
pub proof fn sanitizing_settles(
    s: Seq<char>,
    once: Seq<char>,
    twice: Seq<char>,
    raised: Seq<char>,
)
    requires
        sanitized(s, once),
        sanitized(once, twice),
        sanitized(text::ascii_uppercase(s), raised),
    ensures
        protocol::valid_label(s) ==> once == s,
        once.len() == 0 || protocol::valid_label(once),
        twice == once,
        raised == once,
{
    if protocol::valid_label(s) {
        protocol::lemma_label_bytes(s);
        label_keeps_valid_names(s);
    }
    label_is_valid_or_empty(lowercase(s));
    if once.len() > 0 {
        protocol::lemma_label_bytes(once);
        label_keeps_valid_names(once);
    } else {
        assert(vstd::utf8::is_ascii_chars(once));
        assert(text::ascii_lowercase(once) =~= once);
        assert(once.map_values(|c: char| hyphenate(c)) =~= once);
    }
    text::lemma_lower_upper(s);
}

/// Lowercase a filesystem name into a DNS label (best effort).
pub fn sanitize_name(s: &str) -> (r: String)
    ensures
        sanitized(s@, r@),
        r@.len() == 0 || protocol::valid_label(r@),
        protocol::valid_label(s@) ==> r@ == s@,
{
    let lower = lowercase_of(s);
    proof {
        if protocol::valid_label(s@) {
            protocol::lemma_label_bytes(s@);
            label_keeps_valid_names(s@);
        }
    }
    label_from(lower.as_str())
}

/// The default name of what has this file name: its label; `files` where it has
/// no name or nothing is left of it.
pub open spec fn named_after(file_name: Option<Seq<char>>, r: Seq<char>) -> bool {
    match file_name {
        None => r == "files"@,
        Some(n) => {
            &&& r == if label_of(lowercase(n)).len() > 0 {
                label_of(lowercase(n))
            } else {
                "files"@
            }
            &&& protocol::valid_label(n) ==> r == n
        },
    }
}

/// Whether this is the default name of a path.
pub open spec fn is_default_name(path: Seq<char>, r: Seq<char>) -> bool {
    exists|name: Option<Seq<char>>| #[trigger] file_name_of(path, name) && named_after(name, r)
}

/// A share of a path is named after the file or folder that the path leads to:
/// the label of its lowercase name, which is the name itself where that is a
/// valid label; `files` only where there is no such name or nothing is left of
/// it.
pub proof fn paths_are_named_after_what_they_lead_to(path: Seq<char>, r: Seq<char>)
    requires
        is_default_name(path, r),
    ensures
        exists|name: Option<Seq<char>>| #[trigger]
            file_name_of(path, name) && {
                &&& name matches Some(n) ==> protocol::valid_label(n) ==> r == n
                &&& name matches Some(n) ==> label_of(lowercase(n)).len() > 0 ==> r == label_of(
                    lowercase(n),
                )
                &&& r != "files"@ ==> (name matches Some(n) && r == label_of(lowercase(n)))
                &&& name is None ==> r == "files"@
            },
{
    let name = choose|name: Option<Seq<char>>| #[trigger]
        file_name_of(path, name) && named_after(name, r);
    assert(file_name_of(path, name) && named_after(name, r));
}

impl Target {
    /// Decide on a target, given whether it names an existing path.
    pub fn parse_with(s: &str, exists: bool) -> (r: Result<Target, NoSuchTarget>)
        ensures
            match text::port_number(s@) {
                Some(p) => r == Ok::<Target, NoSuchTarget>(Target::Port(p)),
                None => if exists {
                    r matches Ok(Target::Path(p)) && p@ == s@
                } else {
                    r matches Err(e) && e.given@ == s@
                },
            },
    {
        match text::parse_port(s) {
            Some(port) => Ok(Target::Port(port)),
            None => {
                if !exists {
                    return Err(NoSuchTarget { given: s.to_owned() });
                }
                Ok(Target::Path(s.to_owned()))
            },
        }
    }

    /// A bare number is a port; anything else must be an existing path.
    pub fn parse(s: &str) -> (r: Result<Target, NoSuchTarget>)
        ensures
            match text::port_number(s@) {
                Some(p) => r == Ok::<Target, NoSuchTarget>(Target::Port(p)),
                None => match r {
                    Ok(Target::Path(p)) => p@ == s@ && looked_up(s@, true),
                    Ok(Target::Port(_)) => false,
                    Err(e) => e.given@ == s@ && looked_up(s@, false),
                },
            },
    {
        let exists = path_exists(s);
        assert(looked_up(s@, exists));
        Target::parse_with(s, exists)
    }

    /// The default name of a path whose last component is `file_name`.
    pub fn path_name(file_name: Option<String>) -> (r: String)
        ensures
            protocol::valid_label(r@),
            match file_name {
                None => r@ == "files"@,
                Some(n) => r@ == if label_of(lowercase(n@)).len() > 0 {
                    label_of(lowercase(n@))
                } else {
                    "files"@
                },
            },
            file_name matches Some(n) ==> protocol::valid_label(n@) ==> r@ == n@,
    {
        proof {
            reveal_strlit("files");
        }
        match file_name {
            None => "files".to_owned(),
            Some(n) => {
                let name = sanitize_name(n.as_str());
                if protocol::valid_name(name.as_str()) {
                    name
                } else {
                    "files".to_owned()
                }
            },
        }
    }

    /// Default share name: the file/directory name for paths, "app" for ports.
    pub fn default_name(&self) -> (r: String)
        ensures
            protocol::valid_label(r@),
            self is Port ==> r@ == "app"@,
            self matches Target::Path(p) ==> is_default_name(p@, r@),
    {
        match self {
            Target::Port(_) => {
                proof {
                    reveal_strlit("app");
                }
                "app".to_owned()
            },
            Target::Path(p) => {
                let canonical = canonical_path(p.as_str());
                assert(made_canonical(p@, canonical));
                let file_name = match canonical {
                    Some(path) => {
                        let last = last_component(&path);
                        assert(ends_in(path, optional_text(last)));
                        last
                    },
                    None => None,
                };
                assert(file_name_of(p@, optional_text(file_name)));
                Target::path_name(file_name)
            },
        }
    }
}

/// A text is sanitized to the label of its lowercase.
pub proof fn texts_are_sanitized_to_labels(s: Seq<char>, label: Seq<char>, name: Option<String>)
    requires
        sanitized(s, label),
    ensures
        label == label_of(lowercase(s)),
        vstd::utf8::is_ascii_chars(s) ==> label == label_of(text::ascii_lowercase(s)),
        name is None <==> optional_text(name) is None,
        name matches Some(n) ==> optional_text(name) == Some(n@),
{
}

} // verus!
