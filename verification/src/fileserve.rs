//! The built-in file server: which requests it answers, with what, and how a
//! request path becomes a path under the shared root.
//!
//! A path is a list of component names. Both the root and what a request
//! leads to are canonical when they are compared, so links that point outside
//! the root are not followed.

use vstd::prelude::*;
use vstd::utf8;

use crate::listing;
use crate::percent;
use crate::reply;
use crate::text;

verus! {

/// The content type of a plain text answer.
pub const TEXT_TYPE: &'static str = "text/plain; charset=utf-8";

/// The content type of an HTML answer.
pub const HTML_TYPE: &'static str = "text/html; charset=utf-8";

/// What to do with a request.
#[derive(Debug)]
pub enum Step {
    /// Send this answer.
    Answer(reply::Reply),
    /// Serve the root, which is a single file.
    Root,
    /// Look at the path that these components lead to from the root.
    Lookup(Vec<String>),
}

/// What a lookup came to.
#[derive(Debug)]
pub enum Found {
    /// Send this answer.
    Answer(reply::Reply),
    /// A directory under the root: list it.
    Directory,
    /// Something else under the root: send it.
    File,
}

/// How a file is answered.
#[derive(Debug)]
pub enum FileAnswer {
    /// Send this answer.
    Answer(reply::Reply),
    /// Status 200, these headers, and the contents of the file.
    Contents(Vec<(String, String)>),
}

/// Whether a piece of a request path is dropped.
pub open spec fn is_skipped(piece: Seq<char>) -> bool {
    piece == ""@ || piece == "."@
}

/// The pieces that are not dropped.
pub open spec fn kept(pieces: Seq<Seq<char>>) -> Seq<Seq<char>>
    decreases pieces.len(),
{
    if pieces.len() == 0 {
        seq![]
    } else if is_skipped(pieces.last()) {
        kept(pieces.drop_last())
    } else {
        kept(pieces.drop_last()).push(pieces.last())
    }
}

/// The components that a decoded request path leads through; none if one of
/// them would lead up.
pub open spec fn components(path: Seq<char>) -> Option<Seq<Seq<char>>> {
    let pieces = text::split(path, '/');
    if pieces.contains(".."@) {
        None
    } else {
        Some(kept(pieces))
    }
}

/// The text of a percent-coded request path.
pub open spec fn path_text(uri_path: Seq<char>) -> Option<Seq<char>> {
    let bytes = percent::percent_decode(utf8::encode_utf8(uri_path));
    if utf8::valid_utf8(bytes) {
        Some(utf8::decode_utf8(bytes))
    } else {
        None
    }
}

/// The components that a request path leads through, if it leads anywhere
/// under a directory.
pub open spec fn resolved(uri_path: Seq<char>) -> Option<Seq<Seq<char>>> {
    match path_text(uri_path) {
        Some(path) => components(path),
        None => None,
    }
}

/// A plain text answer.
pub fn text_response(status: u16, msg: &str) -> (r: reply::Reply)
    ensures
        r.says(status, seq![("content-type"@, TEXT_TYPE@)], msg@),
{
    reply::Reply::typed(status, TEXT_TYPE, msg.to_owned())
}

/// An HTML answer.
pub fn html_response(status: u16, html: String) -> (r: reply::Reply)
    ensures
        r.says(status, seq![("content-type"@, HTML_TYPE@)], html@),
{
    reply::Reply::typed(status, HTML_TYPE, html)
}

/// The answer where there is nothing to serve.
pub open spec fn is_not_found(r: reply::Reply) -> bool {
    r.says(404, seq![("content-type"@, TEXT_TYPE@)], "not found"@)
}

/// The components of a decoded request path below a directory.
fn components_of(path: &str) -> (r: Option<Vec<String>>)
    ensures
        match r {
            Some(v) => components(path@) == Some(text::texts(v@)),
            None => components(path@) is None,
        },
{
    let cs = text::chars_of(path);
    let pieces = text::split_on(&cs, '/');
    let ghost all = text::split(path@, '/');
    let mut out: Vec<String> = Vec::new();
    let mut i: usize = 0;
    assert(all.take(0) =~= Seq::<Seq<char>>::empty());
    assert(text::texts(out@) =~= Seq::<Seq<char>>::empty());
    while i < pieces.len()
        invariant
            i <= pieces@.len(),
            all == text::split(path@, '/'),
            text::texts(pieces@) == all,
            text::texts(out@) == kept(all.take(i as int)),
            !all.take(i as int).contains(".."@),
        decreases pieces@.len() - i,
    {
        let piece = &pieces[i];
        assert(all[i as int] == piece@);
        if text::same(piece.as_str(), "..") {
            assert(all.contains(".."@));
            return None;
        }
        assert(all.take(i + 1).drop_last() =~= all.take(i as int));
        assert(all.take(i + 1).last() == piece@);
        let ghost next = all.take(i + 1);
        assert forall|j: int| 0 <= j < next.len() implies #[trigger] next[j] != ".."@ by {
            if j < i {
                assert(all.take(i as int)[j] == next[j]);
            }
        }
        if !text::same(piece.as_str(), "") && !text::same(piece.as_str(), ".") {
            let ghost before = out@;
            out.push(piece.clone());
            assert(text::texts(out@) =~= text::texts(before).push(piece@));
        }
        i = i + 1;
    }
    assert(all.take(i as int) =~= all);
    Some(out)
}

/// Decide on a request for `uri_path`, given whether the root is a single
/// file. Such a root is served at every path.
pub fn handle(method: &str, uri_path: &str, root_is_file: bool) -> (r: Step)
    ensures
        match r {
            Step::Answer(a) => {
                ||| {
                    &&& method@ != "GET"@ && method@ != "HEAD"@
                    &&& a.says(405, seq![("content-type"@, TEXT_TYPE@)], "GET and HEAD only"@)
                }
                ||| {
                    &&& method@ == "GET"@ || method@ == "HEAD"@
                    &&& is_not_found(a)
                    &&& if root_is_file {
                        path_text(uri_path@) is None
                    } else {
                        resolved(uri_path@) is None
                    }
                }
            },
            Step::Root => {
                &&& method@ == "GET"@ || method@ == "HEAD"@
                &&& root_is_file
                &&& path_text(uri_path@) is Some
            },
            Step::Lookup(v) => {
                &&& method@ == "GET"@ || method@ == "HEAD"@
                &&& !root_is_file
                &&& resolved(uri_path@) == Some(text::texts(v@))
            },
        },
{
    if !text::same(method, "GET") && !text::same(method, "HEAD") {
        return Step::Answer(text_response(405, "GET and HEAD only"));
    }
    match percent::decoded(uri_path) {
        None => Step::Answer(text_response(404, "not found")),
        Some(path) => {
            if root_is_file {
                return Step::Root;
            }
            match components_of(path.as_str()) {
                None => Step::Answer(text_response(404, "not found")),
                Some(v) => Step::Lookup(v),
            }
        },
    }
}

/// A path by its components.
pub open spec fn names(path: Seq<Vec<u8>>) -> Seq<Seq<u8>> {
    Seq::new(path.len(), |i: int| path[i]@)
}

/// Whether a path is the root or lies under it.
pub open spec fn under(root: Seq<Seq<u8>>, path: Seq<Seq<u8>>) -> bool {
    root.len() <= path.len() && path.take(root.len() as int) == root
}

/// Whether two components have the same name.
fn same_name(a: &Vec<u8>, b: &Vec<u8>) -> (r: bool)
    ensures
        r == (a@ == b@),
{
    if a.len() != b.len() {
        return false;
    }
    let mut i: usize = 0;
    while i < a.len()
        invariant
            i <= a@.len(),
            a@.len() == b@.len(),
            forall|j: int| 0 <= j < i ==> a@[j] == b@[j],
        decreases a@.len() - i,
    {
        if a[i] != b[i] {
            return false;
        }
        i = i + 1;
    }
    assert(a@ =~= b@);
    true
}

/// Whether a path is the root or lies under it: whole components count.
pub fn starts_with(path: &Vec<Vec<u8>>, root: &Vec<Vec<u8>>) -> (r: bool)
    ensures
        r == under(names(root@), names(path@)),
{
    if root.len() > path.len() {
        return false;
    }
    let mut i: usize = 0;
    while i < root.len()
        invariant
            i <= root@.len() <= path@.len(),
            forall|j: int| 0 <= j < i ==> names(root@)[j] == names(path@)[j],
        decreases root@.len() - i,
    {
        if !same_name(&path[i], &root[i]) {
            assert(names(path@).take(root@.len() as int)[i as int] == path@[i as int]@);
            assert(names(root@)[i as int] == root@[i as int]@);
            return false;
        }
        assert(names(root@)[i as int] == names(path@)[i as int]);
        i = i + 1;
    }
    assert(names(path@).take(root@.len() as int) =~= names(root@));
    true
}

/// Decide on what a lookup led to: its canonical path, if it has one, and
/// whether that is a directory. Nothing outside the root is served.
pub fn found(root: &Vec<Vec<u8>>, canonical: &Option<Vec<Vec<u8>>>, is_dir: bool) -> (r: Found)
    ensures
        match r {
            Found::Answer(a) => {
                &&& is_not_found(a)
                &&& canonical matches Some(path) ==> !under(names(root@), names(path@))
            },
            Found::Directory => {
                &&& is_dir
                &&& canonical matches Some(path) && under(names(root@), names(path@))
            },
            Found::File => {
                &&& !is_dir
                &&& canonical matches Some(path) && under(names(root@), names(path@))
            },
        },
{
    match canonical {
        Some(path) => {
            if !starts_with(path, root) {
                Found::Answer(text_response(404, "not found"))
            } else if is_dir {
                Found::Directory
            } else {
                Found::File
            }
        },
        None => Found::Answer(text_response(404, "not found")),
    }
}

/// Components as the bytes of one relative path.
pub open spec fn joined(path: Seq<Seq<u8>>) -> Seq<u8>
    decreases path.len(),
{
    if path.len() == 0 {
        seq![]
    } else if path.len() == 1 {
        path[0]
    } else {
        joined(path.drop_last()) + seq![0x2fu8] + path.last()
    }
}

/// The components as the bytes of one relative path, from the component `from`.
fn join_from(path: &Vec<Vec<u8>>, from: usize) -> (r: Vec<u8>)
    requires
        from <= path@.len(),
    ensures
        r@ == joined(names(path@).skip(from as int)),
{
    let ghost rel = names(path@).skip(from as int);
    let mut out: Vec<u8> = Vec::new();
    let mut i: usize = from;
    assert(rel.take(0) =~= Seq::<Seq<u8>>::empty());
    while i < path.len()
        invariant
            from <= i <= path@.len(),
            rel == names(path@).skip(from as int),
            out@ == joined(rel.take(i - from)),
        decreases path@.len() - i,
    {
        let ghost next = rel.take(i + 1 - from);
        assert(next.drop_last() =~= rel.take(i - from));
        assert(next.last() == path@[i as int]@);
        if i > from {
            out.push(0x2f);
        }
        out.extend_from_slice(path[i].as_slice());
        assert(out@ =~= joined(next));
        i = i + 1;
    }
    assert(rel.take(i - from) =~= rel);
    out
}

/// The listing page of a directory under the root, titled with its path from
/// there.
pub fn directory_page(root: &Vec<Vec<u8>>, dir: &Vec<Vec<u8>>, entries: &Vec<listing::Entry>) -> (r:
    String)
    requires
        under(names(root@), names(dir@)),
    ensures
        r@ == listing::page(
            text::utf8_lossy(joined(names(dir@).skip(root@.len() as int))),
            dir@.len() > root@.len(),
            listing::entry_views(entries@),
        ),
{
    let rel = join_from(dir, root.len());
    listing::listing(text::lossy_text(rel.as_slice()).as_str(), dir.len() > root.len(), entries)
}

/// The answer for a directory: its page, if it could be read.
pub fn directory_answer(page: Option<String>) -> (r: reply::Reply)
    ensures
        match page {
            Some(html) => r.says(200, seq![("content-type"@, HTML_TYPE@)], html@),
            None => r.says(500, seq![("content-type"@, TEXT_TYPE@)], "listing failed"@),
        },
{
    match page {
        Some(html) => html_response(200, html),
        None => text_response(500, "listing failed"),
    }
}

/// The index of the last dot in a file name, or -1 if there is none.
pub open spec fn last_dot(name: Seq<char>) -> int
    decreases name.len(),
{
    if name.len() == 0 {
        -1
    } else if name.last() == '.' {
        name.len() - 1
    } else {
        last_dot(name.drop_last())
    }
}

/// What follows the last dot of a file name; nothing if there is no dot, or
/// none but at the front.
pub open spec fn extension(name: Seq<char>) -> Seq<char> {
    if last_dot(name) <= 0 {
        ""@
    } else {
        name.skip(last_dot(name) + 1)
    }
}

/// The extension of a file name.
pub fn extension_of(name: &str) -> (r: String)
    ensures
        r@ == extension(name@),
{
    let cs = text::chars_of(name);
    let mut i: usize = cs.len();
    assert(cs@.take(i as int) =~= cs@);
    while i > 0 && cs[i - 1] != '.'
        invariant
            i <= cs@.len(),
            last_dot(cs@.take(i as int)) == last_dot(cs@),
        decreases i,
    {
        assert(cs@.take(i as int).drop_last() =~= cs@.take(i - 1));
        i = i - 1;
    }
    if i <= 1 {
        return "".to_owned();
    }
    assert(last_dot(cs@) == i - 1);
    text::text_between(&cs, i, cs.len())
}

/// The media type that goes with a file name extension.
pub uninterp spec fn media_type(extension: Seq<char>) -> Seq<char>;

/// `mime_guess::from_ext`, then `first_or_octet_stream`: the first media type
/// in the crate's table for the extension, which is a function of the
/// extension alone; without an extension, `application/octet-stream`.
#[verifier::external_body]
fn media_type_of(extension: &str) -> (r: String)
    ensures
        r@ == media_type(extension@),
        extension@.len() == 0 ==> r@ == "application/octet-stream"@,
{
    mime_guess::from_ext(extension).first_or_octet_stream().as_ref().to_owned()
}

/// The headers of a file of the given media type, and length where known.
pub open spec fn file_headers(media_type: Seq<char>, len: Option<u64>) -> Seq<
    (Seq<char>, Seq<char>),
> {
    match len {
        Some(n) => seq![
            ("content-type"@, media_type),
            ("content-length"@, text::decimal(n as nat)),
        ],
        None => seq![("content-type"@, media_type)],
    }
}

/// The answer for a file of the given media type, if it could be opened, and
/// its length where known.
pub fn answer_with(media_type: String, opened: bool, len: Option<u64>) -> (r: FileAnswer)
    ensures
        match r {
            FileAnswer::Answer(a) => !opened && is_not_found(a),
            FileAnswer::Contents(headers) => opened && reply::header_texts(headers@)
                == file_headers(media_type@, len),
        },
{
    if !opened {
        return FileAnswer::Answer(text_response(404, "not found"));
    }
    let ghost kind = media_type@;
    let mut headers: Vec<(String, String)> = Vec::new();
    headers.push(("content-type".to_owned(), media_type));
    if let Some(n) = len {
        headers.push(("content-length".to_owned(), text::decimal_of(n)));
    }
    assert(reply::header_texts(headers@) =~= file_headers(kind, len));
    FileAnswer::Contents(headers)
}

/// The answer for the file of the given name, if it could be opened, and its
/// length where known. The media type goes by the extension of the name.
pub fn file_answer(name: &str, opened: bool, len: Option<u64>) -> (r: FileAnswer)
    ensures
        match r {
            FileAnswer::Answer(a) => !opened && is_not_found(a),
            FileAnswer::Contents(headers) => {
                &&& opened
                &&& reply::header_texts(headers@) == file_headers(
                    media_type(extension(name@)),
                    len,
                )
                &&& extension(name@).len() == 0 ==> reply::header_texts(headers@)
                    == file_headers("application/octet-stream"@, len)
            },
        },
{
    let extension = extension_of(name);
    answer_with(media_type_of(extension.as_str()), opened, len)
}

/// Dropping pieces works list by list.
proof fn lemma_kept_concat(a: Seq<Seq<char>>, b: Seq<Seq<char>>)
    ensures
        kept(a + b) == kept(a) + kept(b),
    decreases b.len(),
{
    if b.len() == 0 {
        assert(a + b =~= a);
        assert(kept(a) + kept(b) =~= kept(a));
    } else {
        lemma_kept_concat(a, b.drop_last());
        assert((a + b).drop_last() =~= a + b.drop_last());
        assert((a + b).last() == b.last());
        assert(kept(a + b) =~= kept(a) + kept(b));
    }
}

/// What is kept is a piece, and not one that is dropped.
proof fn lemma_kept(pieces: Seq<Seq<char>>, i: int)
    requires
        0 <= i < kept(pieces).len(),
    ensures
        pieces.contains(kept(pieces)[i]),
        !is_skipped(kept(pieces)[i]),
    decreases pieces.len(),
{
    let front = pieces.drop_last();
    if is_skipped(pieces.last()) || i < kept(front).len() {
        lemma_kept(front, i);
        let k = choose|k: int| 0 <= k < front.len() && front[k] == kept(front)[i];
        assert(pieces[k] == front[k]);
    } else {
        assert(pieces[pieces.len() - 1] == kept(pieces)[i]);
    }
}

/// A component of a path below a directory: a name, and nothing that leads
/// elsewhere.
pub open spec fn is_component(name: Seq<char>) -> bool {
    &&& name != ""@
    &&& name != "."@
    &&& name != ".."@
    &&& !name.contains('/')
}

/// Whatever a request asks for, the components it leads through are names:
/// no escape sequence, separator or dot in it leads out of the directory.
pub proof fn requests_never_lead_up(uri_path: Seq<char>)
    ensures
        resolved(uri_path) matches Some(parts) ==> forall|i: int|
            0 <= i < parts.len() ==> is_component(#[trigger] parts[i]),
{
    if resolved(uri_path) is Some {
        let path = path_text(uri_path)->0;
        let pieces = text::split(path, '/');
        let parts = kept(pieces);
        text::lemma_split_pieces(path, '/');
        assert forall|i: int| 0 <= i < parts.len() implies is_component(#[trigger] parts[i]) by {
            lemma_kept(pieces, i);
        }
    }
}

/// The link of an entry, followed from the page of the directory it is in,
/// leads to the entry: it adds the name of the entry, and only that, to the
/// components of the directory. The page of a directory is requested with a
/// slash at the end.
pub proof fn links_lead_to_entries(dir: Seq<char>, parts: Seq<Seq<char>>, e: listing::EntryView)
    requires
        dir.len() > 0,
        dir.last() == '/',
        resolved(dir) == Some(parts),
        is_component(e.name),
    ensures
        resolved(dir + listing::link(e)) == Some(parts.push(e.name)),
{
    let slash = seq![0x2fu8];
    let front = dir.drop_last();
    let a = utf8::encode_utf8(front);
    let raw_name = utf8::encode_utf8(e.name);
    let link = listing::link(e);
    let end = listing::slash(e.is_dir);
    reveal_strlit("/");
    reveal_strlit("");
    reveal_with_fuel(percent::percent_decode, 2);
    reveal_with_fuel(kept, 2);
    assert("/"@ =~= seq!['/']);
    assert(""@ =~= Seq::<char>::empty());
    // The bytes of the directory's path and of the entry's.
    assert(utf8::encode_utf8("/"@) == slash) by {
        utf8::is_ascii_chars_encode_utf8("/"@);
        assert(utf8::encode_utf8("/"@) =~= slash);
    }
    assert(dir =~= front + "/"@);
    percent::lemma_encode_utf8_concat(front, "/"@);
    percent::lemma_encode_utf8_concat(dir, link);
    percent::lemma_encode_utf8_concat(percent::percent_encode(raw_name), end);
    let b = utf8::encode_utf8(link);
    assert(utf8::encode_utf8(dir + link) =~= a + (slash + b));
    // They decode on both sides of the slash.
    percent::lemma_decode_at_slash(a, slash);
    percent::lemma_decode_at_slash(a, slash + b);
    percent::lemma_decode_encode(raw_name, utf8::encode_utf8(end));
    let p = percent::percent_decode(a);
    assert(slash.skip(1) =~= Seq::<u8>::empty());
    assert(percent::percent_decode(slash) =~= slash);
    assert((slash + b).skip(1) =~= b);
    assert(percent::percent_decode(slash + b) =~= slash + percent::percent_decode(b));
    assert(percent::percent_decode(utf8::encode_utf8(end)) =~= utf8::encode_utf8(end))
        by {
        if e.is_dir {
            assert(percent::percent_decode(slash) =~= slash);
        }
    }
    percent::lemma_encode_utf8_concat(e.name, end);
    assert(percent::percent_decode(b) == utf8::encode_utf8(e.name + end));
    // So do their texts.
    let d = p + slash;
    assert(d[p.len() as int] == 0x2f);
    utf8::is_char_boundary_iff_not_is_continuation_byte(d, p.len() as int);
    utf8::valid_utf8_split(d, p.len() as int);
    utf8::decode_utf8_split(d, p.len() as int);
    assert(d.subrange(0, p.len() as int) =~= p);
    assert(d.subrange(p.len() as int, d.len() as int) =~= slash);
    utf8::encode_utf8_decode_utf8("/"@);
    let head = utf8::decode_utf8(p);
    assert(path_text(dir) == Some(head + "/"@));
    utf8::decode_utf8_encode_utf8(p);
    percent::lemma_encode_utf8_concat(head, "/"@);
    percent::lemma_encode_utf8_concat(head + "/"@, e.name + end);
    let whole = head + "/"@ + (e.name + end);
    assert(percent::percent_decode(utf8::encode_utf8(dir + link))
        =~= utf8::encode_utf8(whole));
    utf8::encode_utf8_valid_utf8(whole);
    utf8::encode_utf8_decode_utf8(whole);
    assert(path_text(dir + link) == Some(whole));
    // And so do their components.
    let dir_pieces = text::split(head, '/');
    let none = Seq::<char>::empty();
    assert(head + "/"@ =~= head.push('/') + none);
    assert(whole =~= head.push('/') + (e.name + end));
    text::lemma_split_concat(head, none, '/');
    text::lemma_split_concat(head, e.name + end, '/');
    text::lemma_split_one(none, '/');
    text::lemma_split_one(e.name, '/');
    lemma_kept_concat(dir_pieces, seq![none]);
    assert(seq![none].drop_last() =~= Seq::<Seq<char>>::empty());
    assert(kept(seq![none]) =~= Seq::<Seq<char>>::empty());
    assert(kept(dir_pieces) =~= parts);
    let name_pieces = text::split(e.name + end, '/');
    assert(kept(seq![e.name]) =~= seq![e.name]) by {
        assert(seq![e.name].drop_last() =~= Seq::<Seq<char>>::empty());
    }
    if e.is_dir {
        assert(e.name + end =~= e.name.push('/') + none);
        text::lemma_split_concat(e.name, none, '/');
        lemma_kept_concat(seq![e.name], seq![none]);
        assert(name_pieces =~= seq![e.name] + seq![none]);
    } else {
        assert(e.name + end =~= e.name);
        assert(name_pieces =~= seq![e.name]);
    }
    assert(kept(name_pieces) =~= seq![e.name]);
    lemma_kept_concat(dir_pieces, name_pieces);
    assert(kept(dir_pieces + name_pieces) =~= parts.push(e.name));
    let up = ".."@;
    assert(none != up) by {
        reveal_strlit("..");
    }
    assert(!(dir_pieces + name_pieces).contains(up)) by {
        if (dir_pieces + name_pieces).contains(up) {
            let k = choose|k: int|
                0 <= k < (dir_pieces + name_pieces).len() && (dir_pieces + name_pieces)[k] == up;
            if k < dir_pieces.len() {
                assert((dir_pieces + seq![none])[k] == up);
            }
        }
    }
}

/// What `last_dot` means, without recursion.
proof fn lemma_last_dot(name: Seq<char>)
    ensures
        -1 <= last_dot(name) < name.len(),
        last_dot(name) >= 0 ==> name[last_dot(name)] == '.',
        forall|i: int| last_dot(name) < i < name.len() ==> name[i] != '.',
    decreases name.len(),
{
    if name.len() > 0 && name.last() != '.' {
        lemma_last_dot(name.drop_last());
        assert forall|i: int| last_dot(name) < i < name.len() implies name[i] != '.' by {
            if i < name.len() - 1 {
                assert(name[i] == name.drop_last()[i]);
            }
        }
    }
}

/// What stands behind the last dot of a file name is its extension, whatever
/// characters it is made of, as long as something stands before the dot.
pub proof fn extensions_follow_the_last_dot(stem: Seq<char>, ext: Seq<char>)
    requires
        stem.len() > 0,
        !ext.contains('.'),
    ensures
        extension(stem + seq!['.'] + ext) == ext,
{
    let name = stem + seq!['.'] + ext;
    let k = stem.len() as int;
    lemma_last_dot(name);
    let d = last_dot(name);
    assert(name[k] == '.');
    if d > k {
        assert(name[d] == ext[d - k - 1]);
        assert(ext.contains(ext[d - k - 1]));
    }
    assert(d == k);
    assert(name.skip(k + 1) =~= ext);
}

/// A file name goes without an extension exactly where it ends in a dot or has
/// none but at its front.
pub proof fn names_without_extension(name: Seq<char>)
    ensures
        extension(name).len() == 0 <==> {
            ||| name.len() > 0 && name[name.len() - 1] == '.'
            ||| forall|i: int| 1 <= i < name.len() ==> #[trigger] name[i] != '.'
        },
{
    reveal_strlit("");
    lemma_last_dot(name);
    let d = last_dot(name);
    if d > 0 {
        assert(name[d] == '.');
    }
}

/// A file is answered with its media type, and with its length where that is
/// known, and with no other headers.
pub proof fn files_are_sent_with_type_and_length(media_type: Seq<char>, len: Option<u64>)
    ensures
        file_headers(media_type, None) == seq![("content-type"@, media_type)],
        len matches Some(n) ==> file_headers(media_type, len) == seq![
            ("content-type"@, media_type),
            ("content-length"@, text::decimal(n as nat)),
        ],
{
}

/// Where there is nothing to serve, the answer has the status 404 and says so in
/// plain text.
pub proof fn not_found_is_404(r: reply::Reply)
    requires
        is_not_found(r),
    ensures
        r.status == 404,
        r.body@ == "not found"@,
        r.headers@.len() == 1,
        r.headers@[0].0@ == "content-type"@,
        r.headers@[0].1@ == "text/plain; charset=utf-8"@,
{
    let all = reply::header_texts(r.headers@);
    assert(all.len() == r.headers@.len());
    assert(all[0] == (r.headers@[0].0@, r.headers@[0].1@));
}

/// The components of a path are its pieces between slashes, in order, without
/// the empty ones and the single dots; a path with a piece of two dots has none.
pub proof fn components_are_the_pieces_between_slashes(path: Seq<char>)
    ensures
        components(path) is None <==> text::split(path, '/').contains(seq!['.', '.']),
        components(path) matches Some(parts) ==> parts == text::split(path, '/').filter(
            |p: Seq<char>| p.len() > 0 && p != seq!['.'],
        ),
{
    reveal_strlit("..");
    assert(".."@ =~= seq!['.', '.']);
    lemma_kept_filters(text::split(path, '/'));
}

/// What is kept are the pieces that are neither empty nor a single dot.
proof fn lemma_kept_filters(pieces: Seq<Seq<char>>)
    ensures
        kept(pieces) == pieces.filter(|p: Seq<char>| p.len() > 0 && p != seq!['.']),
    decreases pieces.len(),
{
    reveal(Seq::filter);
    reveal_strlit("");
    reveal_strlit(".");
    assert("."@ =~= seq!['.']);
    if pieces.len() > 0 {
        lemma_kept_filters(pieces.drop_last());
        if pieces.last().len() == 0 {
            assert(pieces.last() =~= ""@);
        }
    }
}

/// A request path is percent-decoded, as UTF-8, before anything else.
pub proof fn request_paths_are_decoded(uri_path: Seq<char>)
    ensures
        ({
            let bytes = percent::percent_decode(utf8::encode_utf8(uri_path));
            &&& !utf8::valid_utf8(bytes) ==> path_text(uri_path) is None && resolved(uri_path) is None
            &&& utf8::valid_utf8(bytes) ==> path_text(uri_path) == Some(utf8::decode_utf8(bytes))
                && resolved(uri_path) == components(utf8::decode_utf8(bytes))
        }),
{
}

/// A path lies under the root exactly where it is the root with components
/// behind it, or without.
pub proof fn what_is_under_the_root_begins_with_it(root: Seq<Seq<u8>>, path: Seq<Seq<u8>>)
    ensures
        under(root, path) <==> exists|rest: Seq<Seq<u8>>| path == #[trigger] (root + rest),
{
    if under(root, path) {
        assert(path =~= root + path.skip(root.len() as int));
    }
    if exists|rest: Seq<Seq<u8>>| path == #[trigger] (root + rest) {
        assert(path.take(root.len() as int) =~= root);
    }
}

/// A path is named component by component.
pub proof fn names_are_those_of_the_components(path: Seq<Vec<u8>>)
    ensures
        names(path).len() == path.len(),
        forall|i: int| 0 <= i < path.len() ==> names(path)[i] == #[trigger] path[i]@,
{
}

/// The components of a path are joined with one slash between each two.
pub proof fn joined_paths_have_slashes_between(path: Seq<Seq<u8>>, last: Seq<u8>)
    ensures
        joined(Seq::<Seq<u8>>::empty()) == Seq::<u8>::empty(),
        joined(seq![last]) == last,
        path.len() > 0 ==> joined(path.push(last)) == joined(path) + seq![0x2fu8] + last,
{
    assert(path.push(last).drop_last() =~= path);
}

/// The root directory is requested with a slash.
proof fn lemma_root()
    ensures
        resolved(seq!['/']) == Some(Seq::<Seq<char>>::empty()),
{
    reveal_strlit("/");
    reveal_strlit("");
    reveal_strlit("..");
    reveal_with_fuel(percent::percent_decode, 2);
    reveal_with_fuel(kept, 3);
    let root = seq!['/'];
    let none = Seq::<char>::empty();
    assert("/"@ =~= root);
    assert(""@ =~= none);
    let slash = seq![0x2fu8];
    utf8::is_ascii_chars_encode_utf8(root);
    assert(utf8::encode_utf8(root) =~= slash);
    assert(slash.skip(1) =~= Seq::<u8>::empty());
    assert(percent::percent_decode(slash) =~= slash);
    utf8::encode_utf8_valid_utf8(root);
    utf8::encode_utf8_decode_utf8(root);
    assert(none.push('/') + none =~= root);
    text::lemma_split_concat(none, none, '/');
    text::lemma_split_one(none, '/');
    let pieces = text::split(root, '/');
    assert(pieces =~= seq![none, none]);
    assert(pieces.drop_last() =~= seq![none]);
    assert(seq![none].drop_last() =~= Seq::<Seq<char>>::empty());
    assert(kept(pieces) =~= Seq::<Seq<char>>::empty());
}

/// Every path under the root can be requested: the names of its components,
/// percent-encoded, each behind a slash, lead to exactly these components, with a
/// slash at the end or without.
pub proof fn every_path_can_be_requested(parts: Seq<Seq<char>>, last: Seq<char>)
    requires
        forall|i: int| 0 <= i < parts.len() ==> is_component(#[trigger] parts[i]),
        is_component(last),
    ensures
        ({
            let encode = |p: Seq<char>| percent::percent_encode(utf8::encode_utf8(p));
            let dir = seq!['/'] + parts.map_values(
                |p: Seq<char>| percent::percent_encode(utf8::encode_utf8(p)) + seq!['/'],
            ).flatten();
            &&& resolved(dir) == Some(parts)
            &&& resolved(dir + encode(last)) == Some(parts.push(last))
        }),
    decreases parts.len(),
{
    let f = |p: Seq<char>| percent::percent_encode(utf8::encode_utf8(p)) + seq!['/'];
    let all = parts.map_values(f);
    let dir = seq!['/'] + all.flatten();
    reveal_strlit("/");
    reveal_strlit("");
    assert("/"@ =~= seq!['/']);
    assert(""@ =~= Seq::<char>::empty());
    if parts.len() == 0 {
        lemma_root();
        assert(dir =~= seq!['/']);
        assert(parts =~= Seq::<Seq<char>>::empty());
    } else {
        let front = parts.drop_last();
        let name = parts.last();
        assert forall|i: int| 0 <= i < front.len() implies is_component(#[trigger] front[i]) by {
            assert(front[i] == parts[i]);
        }
        assert(is_component(parts[parts.len() - 1]));
        every_path_can_be_requested(front, name);
        let before = seq!['/'] + front.map_values(f).flatten();
        let e = listing::EntryView { is_dir: true, name, size: None };
        lemma_ends_in_slash(front);
        links_lead_to_entries(before, front, e);
        assert(all =~= front.map_values(f).push(f(name)));
        front.map_values(f).lemma_flatten_push(f(name));
        assert(dir =~= before + listing::link(e));
        assert(front.push(name) =~= parts);
    }
    lemma_ends_in_slash(parts);
    let e = listing::EntryView { is_dir: false, name: last, size: None };
    links_lead_to_entries(dir, parts, e);
    assert(listing::link(e) =~= percent::percent_encode(utf8::encode_utf8(last)));
}

/// The request path of a directory ends in a slash.
proof fn lemma_ends_in_slash(parts: Seq<Seq<char>>)
    ensures
        ({
            let dir = seq!['/'] + parts.map_values(
                |p: Seq<char>| percent::percent_encode(utf8::encode_utf8(p)) + seq!['/'],
            ).flatten();
            dir.len() > 0 && dir.last() == '/'
        }),
{
    let f = |p: Seq<char>| percent::percent_encode(utf8::encode_utf8(p)) + seq!['/'];
    let all = parts.map_values(f);
    if parts.len() > 0 {
        assert(all =~= all.drop_last().push(all.last()));
        all.drop_last().lemma_flatten_push(all.last());
        assert(all.last() == f(parts.last()));
        assert(all.flatten().last() == '/');
    }
}

} // verus!
