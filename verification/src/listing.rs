//! Directory listings.

use vstd::prelude::*;

use crate::percent;
use crate::share;
use crate::size;
use crate::text;

verus! {

/// The listing page up to its title.
pub const LISTING_TITLE: &'static str = "<!doctype html><html><head><title>";

/// The listing page between its title and its heading.
pub const LISTING_STYLE: &'static str = " — lclhst</title>\
    <meta name=\"viewport\" content=\"width=device-width, initial-scale=1\">\
    <style>body{font-family:system-ui;max-width:42rem;margin:2rem auto;padding:0 1rem;color:#333}\
    table{width:100%;border-collapse:collapse}td{padding:.35rem .5rem;border-bottom:1px solid #eee}\
    td:last-child{text-align:right;color:#888;white-space:nowrap}a{text-decoration:none}</style>\
    </head><body><h2>";

/// The listing page between its heading and its rows.
pub const LISTING_TABLE: &'static str = "</h2><table>";

/// The listing page after its rows.
pub const LISTING_END: &'static str = "</table></body></html>";

/// The row that leads to the directory above.
pub const UP_ROW: &'static str = "<tr><td><a href=\"../\">../</a></td><td></td></tr>";

/// An entry of a directory. The size is `None` where it could not be read.
#[derive(Debug)]
pub struct Entry {
    pub is_dir: bool,
    pub name: String,
    pub size: Option<u64>,
}

/// The replacement for a character in HTML text.
pub open spec fn html_char(c: char) -> Seq<char> {
    if c == '&' {
        "&amp;"@
    } else if c == '<' {
        "&lt;"@
    } else if c == '>' {
        "&gt;"@
    } else {
        seq![c]
    }
}

/// A text as HTML.
pub open spec fn html_text(s: Seq<char>) -> Seq<char>
    decreases s.len(),
{
    if s.len() == 0 {
        seq![]
    } else {
        html_text(s.drop_last()) + html_char(s.last())
    }
}

/// A text as HTML: `&`, `<` and `>` are escaped.
pub fn html_escape(s: &str) -> (r: String)
    ensures
        r@ == html_text(s@),
{
    let cs = text::chars_of(s);
    let mut out: String = String::new();
    let mut i: usize = 0;
    assert(cs@.take(0) =~= Seq::<char>::empty());
    while i < cs.len()
        invariant
            i <= cs@.len(),
            cs@ == s@,
            out@ == html_text(cs@.take(i as int)),
        decreases cs@.len() - i,
    {
        let c = cs[i];
        let ghost next = cs@.take(i + 1);
        assert(next.drop_last() =~= cs@.take(i as int));
        if c == '&' {
            out.append("&amp;");
        } else if c == '<' {
            out.append("&lt;");
        } else if c == '>' {
            out.append("&gt;");
        } else {
            let ghost before = out@;
            out.push(c);
            assert(out@ =~= before + seq![c]);
        }
        i = i + 1;
    }
    assert(cs@.take(i as int) =~= cs@);
    out
}

/// No markup survives escaping: the result holds no angle bracket.
pub proof fn escaped_text_has_no_tags(s: Seq<char>)
    ensures
        !html_text(s).contains('<'),
        !html_text(s).contains('>'),
    decreases s.len(),
{
    reveal_strlit("&amp;");
    reveal_strlit("&lt;");
    reveal_strlit("&gt;");
    if s.len() > 0 {
        escaped_text_has_no_tags(s.drop_last());
        let front = html_text(s.drop_last());
        let back = html_char(s.last());
        let all = html_text(s);
        assert forall|i: int| 0 <= i < all.len() implies all[i] != '<' && all[i] != '>' by {
            if i < front.len() {
                assert(all[i] == front[i]);
                assert(front.contains(front[i]));
            } else {
                assert(all[i] == back[i - front.len()]);
            }
        }
    }
}

/// Whether `a` comes before or with `b` in the order of code points.
pub open spec fn text_le(a: Seq<char>, b: Seq<char>) -> bool
    decreases a.len(),
{
    if a.len() == 0 {
        true
    } else if b.len() == 0 {
        false
    } else if a[0] != b[0] {
        a[0] < b[0]
    } else {
        text_le(a.drop_first(), b.drop_first())
    }
}

/// Whether `a` comes before or with `b` in the order of code points.
fn text_before(a: &Vec<char>, b: &Vec<char>) -> (r: bool)
    ensures
        r == text_le(a@, b@),
{
    let mut i: usize = 0;
    assert(a@.skip(0) =~= a@);
    assert(b@.skip(0) =~= b@);
    while i < a.len() && i < b.len() && a[i] == b[i]
        invariant
            i <= a@.len(),
            i <= b@.len(),
            text_le(a@.skip(i as int), b@.skip(i as int)) == text_le(a@, b@),
        decreases a@.len() - i,
    {
        assert(a@.skip(i as int).drop_first() =~= a@.skip(i + 1));
        assert(b@.skip(i as int).drop_first() =~= b@.skip(i + 1));
        i = i + 1;
    }
    if i == a.len() {
        return true;
    }
    if i == b.len() {
        return false;
    }
    a[i] < b[i]
}

/// The order of texts is total and transitive.
pub proof fn lemma_text_le(a: Seq<char>, b: Seq<char>, c: Seq<char>)
    ensures
        text_le(a, a),
        text_le(a, b) || text_le(b, a),
        text_le(a, b) && text_le(b, c) ==> text_le(a, c),
    decreases a.len() + b.len() + c.len(),
{
    if a.len() > 0 && b.len() > 0 && c.len() > 0 {
        lemma_text_le(a.drop_first(), b.drop_first(), c.drop_first());
    } else if a.len() > 0 && b.len() > 0 {
        lemma_text_le(a.drop_first(), b.drop_first(), c);
    } else if a.len() > 0 {
        lemma_text_le(a.drop_first(), b, c);
    }
}

/// An entry of a directory, by its texts.
#[verifier::ext_equal]
pub struct EntryView {
    pub is_dir: bool,
    pub name: Seq<char>,
    pub size: Option<u64>,
}

impl View for Entry {
    type V = EntryView;

    open spec fn view(&self) -> EntryView {
        EntryView { is_dir: self.is_dir, name: self.name@, size: self.size }
    }
}

/// The entries of a list, by their texts.
pub open spec fn entry_views(v: Seq<Entry>) -> Seq<EntryView> {
    Seq::new(v.len(), |i: int| v[i]@)
}

/// The order of a listing: directories first, then by lowercase name.
pub open spec fn entry_le(a: EntryView, b: EntryView) -> bool {
    if a.is_dir != b.is_dir {
        a.is_dir
    } else {
        text_le(share::lowercase(a.name), share::lowercase(b.name))
    }
}

/// `e` put into the ordered list `s`, after everything that may stand before it.
pub open spec fn insert_entry(s: Seq<EntryView>, e: EntryView) -> Seq<EntryView>
    decreases s.len(),
{
    if s.len() == 0 || entry_le(s.last(), e) {
        s.push(e)
    } else {
        insert_entry(s.drop_last(), e).push(s.last())
    }
}

/// The entries in the order of a listing; equal ones keep their order.
pub open spec fn in_order(s: Seq<EntryView>) -> Seq<EntryView>
    decreases s.len(),
{
    if s.len() == 0 {
        s
    } else {
        insert_entry(in_order(s.drop_last()), s.last())
    }
}

/// Whether no entry stands before one that belongs before it.
pub open spec fn ordered(s: Seq<EntryView>) -> bool {
    forall|i: int, j: int| 0 <= i < j < s.len() ==> entry_le(#[trigger] s[i], #[trigger] s[j])
}

/// Inserting keeps the order and adds exactly the entry.
proof fn lemma_insert_entry(s: Seq<EntryView>, e: EntryView)
    requires
        ordered(s),
    ensures
        ordered(insert_entry(s, e)),
        insert_entry(s, e).len() == s.len() + 1,
        insert_entry(s, e).to_multiset() == s.to_multiset().insert(e),
    decreases s.len(),
{
    broadcast use vstd::seq_lib::group_to_multiset_ensures;

    if s.len() == 0 || entry_le(s.last(), e) {
        let r = s.push(e);
        assert forall|i: int, j: int| 0 <= i < j < r.len() implies entry_le(
            #[trigger] r[i],
            #[trigger] r[j],
        ) by {
            if j == s.len() {
                lemma_text_le(
                    share::lowercase(s[i].name),
                    share::lowercase(s.last().name),
                    share::lowercase(e.name),
                );
                if i < s.len() - 1 {
                    assert(entry_le(s[i], s[s.len() - 1]));
                }
            }
        }
    } else {
        let front = s.drop_last();
        let last = s.last();
        assert(ordered(front));
        lemma_insert_entry(front, e);
        let mid = insert_entry(front, e);
        let r = mid.push(last);
        assert forall|i: int, j: int| 0 <= i < j < r.len() implies entry_le(
            #[trigger] r[i],
            #[trigger] r[j],
        ) by {
            if j == mid.len() {
                lemma_text_le(
                    share::lowercase(last.name),
                    share::lowercase(e.name),
                    share::lowercase(last.name),
                );
                assert(mid.to_multiset().count(mid[i]) > 0) by {
                    assert(mid.contains(mid[i]));
                }
                if mid[i] != e {
                    assert(front.to_multiset().count(mid[i]) > 0);
                    assert(front.contains(mid[i]));
                    let k = choose|k: int| 0 <= k < front.len() && front[k] == mid[i];
                    assert(s[k] == mid[i]);
                    assert(entry_le(s[k], s[s.len() - 1]));
                }
            }
        }
        assert(s =~= front.push(last));
        assert(r.to_multiset() =~= s.to_multiset().insert(e));
    }
}

/// A listing shows directories first and then files, each by lowercase name,
/// and shows exactly the entries of the directory.
pub proof fn listing_is_complete_and_ordered(s: Seq<EntryView>)
    ensures
        ordered(in_order(s)),
        in_order(s).len() == s.len(),
        in_order(s).to_multiset() == s.to_multiset(),
    decreases s.len(),
{
    broadcast use vstd::seq_lib::group_to_multiset_ensures;

    if s.len() > 0 {
        listing_is_complete_and_ordered(s.drop_last());
        lemma_insert_entry(in_order(s.drop_last()), s.last());
        assert(s =~= s.drop_last().push(s.last()));
    }
}

/// Whether an entry may stand before another, by kind and lowercase name.
fn stands_before(a_is_dir: bool, a: &Vec<char>, b_is_dir: bool, b: &Vec<char>) -> (r: bool)
    ensures
        r == if a_is_dir != b_is_dir {
            a_is_dir
        } else {
            text_le(a@, b@)
        },
{
    if a_is_dir != b_is_dir {
        a_is_dir
    } else {
        text_before(a, b)
    }
}

/// The entries in the order of a listing.
pub fn sorted(entries: &Vec<Entry>) -> (r: Vec<Entry>)
    ensures
        entry_views(r@) == in_order(entry_views(entries@)),
{
    let ghost all = entry_views(entries@);
    let mut out: Vec<Entry> = Vec::new();
    let mut keys: Vec<Vec<char>> = Vec::new();
    let mut i: usize = 0;
    assert(all.take(0) =~= Seq::<EntryView>::empty());
    assert(entry_views(out@) =~= Seq::<EntryView>::empty());
    while i < entries.len()
        invariant
            i <= entries@.len(),
            all == entry_views(entries@),
            entry_views(out@) == in_order(all.take(i as int)),
            keys@.len() == out@.len(),
            forall|j: int|
                0 <= j < out@.len() ==> #[trigger] keys@[j]@ == share::lowercase(out@[j].name@),
        decreases entries@.len() - i,
    {
        let is_dir = entries[i].is_dir;
        let name = entries[i].name.clone();
        let size = entries[i].size;
        let key = text::chars_of(share::lowercase_of(name.as_str()).as_str());
        let ghost e = EntryView { is_dir, name: name@, size };
        let ghost s = entry_views(out@);
        let mut p: usize = out.len();
        assert(s.take(p as int) =~= s);
        assert(insert_entry(s.take(p as int), e) + s.skip(p as int) =~= insert_entry(s, e));
        while p > 0 && !stands_before(out[p - 1].is_dir, &keys[p - 1], is_dir, &key)
            invariant
                p <= out@.len(),
                s == entry_views(out@),
                e == (EntryView { is_dir, name: name@, size }),
                key@ == share::lowercase(name@),
                keys@.len() == out@.len(),
                forall|j: int|
                    0 <= j < out@.len() ==> #[trigger] keys@[j]@ == share::lowercase(
                        out@[j].name@,
                    ),
                insert_entry(s.take(p as int), e) + s.skip(p as int) == insert_entry(s, e),
            decreases p,
        {
            let ghost front = s.take(p as int);
            assert(front.last() == out@[p - 1]@);
            assert(!entry_le(front.last(), e));
            assert(front.drop_last() =~= s.take(p - 1));
            assert(insert_entry(front, e) + s.skip(p as int) =~= insert_entry(s.take(p - 1), e)
                + s.skip(p - 1));
            p = p - 1;
        }
        proof {
            let front = s.take(p as int);
            if p > 0 {
                assert(front.last() == out@[p - 1]@);
                assert(entry_le(front.last(), e));
            }
            assert(insert_entry(front, e) == front.push(e));
            assert(front.push(e) + s.skip(p as int) =~= s.insert(p as int, e));
        }
        let ghost before = out@;
        let ghost before_keys = keys@;
        out.insert(p, Entry { is_dir, name, size });
        keys.insert(p, key);
        assert(entry_views(out@) =~= s.insert(p as int, e));
        assert forall|j: int| 0 <= j < out@.len() implies #[trigger] keys@[j]@ == share::lowercase(
            out@[j].name@,
        ) by {
            if j < p {
                assert(keys@[j] == before_keys[j]);
                assert(out@[j] == before[j]);
            } else if j > p {
                assert(keys@[j] == before_keys[j - 1]);
                assert(out@[j] == before[j - 1]);
            }
        }
        assert(all.take(i + 1).drop_last() =~= all.take(i as int));
        assert(all.take(i + 1).last() == e);
        i = i + 1;
    }
    assert(all.take(i as int) =~= all);
    out
}

/// The slash that follows the name of a directory.
pub open spec fn slash(is_dir: bool) -> Seq<char> {
    if is_dir {
        "/"@
    } else {
        ""@
    }
}

/// Where the link of an entry leads, relative to its directory.
pub open spec fn link(e: EntryView) -> Seq<char> {
    percent::percent_encode(vstd::utf8::encode_utf8(e.name)) + slash(e.is_dir)
}

/// The size shown for an entry: none for a directory or where it is unknown.
pub open spec fn shown_size(e: EntryView) -> Seq<char> {
    if e.is_dir {
        ""@
    } else {
        match e.size {
            Some(bytes) => size::size_text(bytes),
            None => ""@,
        }
    }
}

/// The row of an entry.
pub open spec fn row(e: EntryView) -> Seq<char> {
    "<tr><td><a href=\""@ + link(e) + "\">"@ + html_text(e.name) + slash(e.is_dir)
        + "</a></td><td>"@ + shown_size(e) + "</td></tr>"@
}

/// The rows of the entries, one after the other.
pub open spec fn rows(s: Seq<EntryView>) -> Seq<char>
    decreases s.len(),
{
    if s.len() == 0 {
        seq![]
    } else {
        rows(s.drop_last()) + row(s.last())
    }
}

/// The listing page of the directory at `rel` under the root. Below the root
/// it begins with a link to the directory above.
pub open spec fn page(rel: Seq<char>, nested: bool, entries: Seq<EntryView>) -> Seq<char> {
    LISTING_TITLE@ + ("/"@ + rel) + LISTING_STYLE@ + ("/"@ + rel) + LISTING_TABLE@ + (if nested {
        UP_ROW@
    } else {
        ""@
    }) + rows(in_order(entries)) + LISTING_END@
}

/// The row of an entry.
fn row_of(e: &Entry) -> (r: String)
    ensures
        r@ == row(e@),
{
    let end = if e.is_dir {
        "/"
    } else {
        ""
    };
    let mut out: String = "<tr><td><a href=\"".to_owned();
    out.append(percent::encoded(e.name.as_str()).as_str());
    out.append(end);
    assert(out@ =~= "<tr><td><a href=\""@ + link(e@));
    out.append("\">");
    out.append(html_escape(e.name.as_str()).as_str());
    out.append(end);
    out.append("</a></td><td>");
    if e.is_dir {
        out.append("");
    } else {
        match e.size {
            Some(bytes) => {
                out.append(size::human_size(bytes).as_str());
            },
            None => {
                out.append("");
            },
        }
    }
    out.append("</td></tr>");
    out
}

/// The listing page of the directory at `rel` under the root: directories
/// first, then files, each by lowercase name. `nested` says whether `rel`
/// names a directory below the root.
pub fn listing(rel: &str, nested: bool, entries: &Vec<Entry>) -> (r: String)
    ensures
        r@ == page(rel@, nested, entry_views(entries@)),
{
    let mut title: String = "/".to_owned();
    title.append(rel);
    let order = sorted(entries);
    let mut out: String = LISTING_TITLE.to_owned();
    out.append(title.as_str());
    out.append(LISTING_STYLE);
    out.append(title.as_str());
    out.append(LISTING_TABLE);
    if nested {
        out.append(UP_ROW);
    } else {
        out.append("");
    }
    let ghost head = out@;
    let ghost all = entry_views(order@);
    let mut i: usize = 0;
    assert(all.take(0) =~= Seq::<EntryView>::empty());
    assert(head + rows(all.take(0)) =~= head);
    while i < order.len()
        invariant
            i <= order@.len(),
            all == entry_views(order@),
            out@ == head + rows(all.take(i as int)),
        decreases order@.len() - i,
    {
        out.append(row_of(&order[i]).as_str());
        assert(all.take(i + 1).drop_last() =~= all.take(i as int));
        assert(all.take(i + 1).last() == order@[i as int]@);
        assert(out@ =~= head + rows(all.take(i + 1)));
        i = i + 1;
    }
    assert(all.take(i as int) =~= all);
    out.append(LISTING_END);
    out
}

/// Escaping works character by character: an ampersand and angle brackets become
/// their entities, every other character stays.
pub proof fn escaping_keeps_all_but_three_characters(a: Seq<char>, c: char)
    ensures
        html_text(Seq::<char>::empty()) == Seq::<char>::empty(),
        html_text(a.push(c)) == html_text(a) + (if c == '&' {
            seq!['&', 'a', 'm', 'p', ';']
        } else if c == '<' {
            seq!['&', 'l', 't', ';']
        } else if c == '>' {
            seq!['&', 'g', 't', ';']
        } else {
            seq![c]
        }),
{
    reveal_strlit("&amp;");
    reveal_strlit("&lt;");
    reveal_strlit("&gt;");
    assert("&amp;"@ =~= seq!['&', 'a', 'm', 'p', ';']);
    assert("&lt;"@ =~= seq!['&', 'l', 't', ';']);
    assert("&gt;"@ =~= seq!['&', 'g', 't', ';']);
    assert(a.push(c).drop_last() =~= a);
}

/// Texts are in the order of code points: one comes before or with another where
/// it is a beginning of it, or has the smaller character where they first
/// differ.
pub proof fn texts_are_ordered_by_code_points(a: Seq<char>, b: Seq<char>)
    ensures
        text_le(a, b) <==> {
            ||| a.len() <= b.len() && b.take(a.len() as int) == a
            ||| exists|k: int|
                {
                    &&& 0 <= k < a.len() && k < b.len()
                    &&& a.take(k) == b.take(k)
                    &&& #[trigger] a[k] < b[k]
                }
        },
    decreases a.len(),
{
    if a.len() == 0 {
        assert(b.take(0) =~= a);
    } else if b.len() > 0 {
        if a[0] != b[0] {
            if a[0] < b[0] {
                assert(a.take(0) =~= b.take(0));
            }
            if a.len() <= b.len() && b.take(a.len() as int) == a {
                assert(b.take(a.len() as int)[0] == a[0]);
            }
            assert forall|k: int|
                0 <= k < a.len() && k < b.len() && a.take(k) == b.take(k) && #[trigger] a[k]
                    < b[k] implies k == 0 by {
                if k > 0 {
                    assert(a.take(k)[0] == b.take(k)[0]);
                }
            }
        } else {
            let x = a.drop_first();
            let y = b.drop_first();
            texts_are_ordered_by_code_points(x, y);
            if x.len() <= y.len() && y.take(x.len() as int) == x {
                assert forall|i: int| 0 <= i < a.len() implies b[i] == a[i] by {
                    if i > 0 {
                        assert(y.take(x.len() as int)[i - 1] == x[i - 1]);
                    }
                }
                assert(b.take(a.len() as int) =~= a);
            }
            if a.len() <= b.len() && b.take(a.len() as int) == a {
                assert forall|i: int| 0 <= i < x.len() implies y[i] == x[i] by {
                    assert(b.take(a.len() as int)[i + 1] == a[i + 1]);
                }
                assert(y.take(x.len() as int) =~= x);
            }
            assert forall|k: int|
                0 <= k < x.len() && k < y.len() && x.take(k) == y.take(k) && #[trigger] x[k]
                    < y[k] implies a.take(k + 1) == b.take(k + 1) && a[k + 1] < b[k + 1] by {
                assert forall|i: int| 0 <= i < k + 1 implies a[i] == b[i] by {
                    if i > 0 {
                        assert(x.take(k)[i - 1] == y.take(k)[i - 1]);
                    }
                }
                assert(a.take(k + 1) =~= b.take(k + 1));
            }
            assert forall|k: int|
                0 <= k < a.len() && k < b.len() && a.take(k) == b.take(k) && #[trigger] a[k]
                    < b[k] implies k > 0 && x.take(k - 1) == y.take(k - 1) && x[k - 1] < y[k
                - 1] by {
                assert forall|i: int| 0 <= i < k - 1 implies x[i] == y[i] by {
                    assert(a.take(k)[i + 1] == b.take(k)[i + 1]);
                }
                assert(x.take(k - 1) =~= y.take(k - 1));
            }
        }
    } else {
        if b.take(a.len() as int) == a && a.len() <= b.len() {
            assert(false);
        }
    }
}

/// In a listing no file stands before a directory, and among directories, and
/// among files, no entry before one whose lowercase name comes first.
pub proof fn listings_show_directories_first(s: Seq<EntryView>, i: int, j: int)
    requires
        0 <= i < j < s.len(),
    ensures
        in_order(s)[j].is_dir ==> in_order(s)[i].is_dir,
        in_order(s)[i].is_dir == in_order(s)[j].is_dir ==> text_le(
            share::lowercase(in_order(s)[i].name),
            share::lowercase(in_order(s)[j].name),
        ),
{
    listing_is_complete_and_ordered(s);
    assert(entry_le(in_order(s)[i], in_order(s)[j]));
}

/// The row of an entry shows its name as a link, with a slash behind the name of
/// a directory, both in the link and in what is shown, and the size of a file
/// where it is known.
pub proof fn rows_show_link_name_and_size(e: EntryView)
    ensures
        row(e) == "<tr><td><a href=\""@ + (percent::percent_encode(vstd::utf8::encode_utf8(e.name))
            + (if e.is_dir {
            seq!['/']
        } else {
            Seq::<char>::empty()
        })) + "\">"@ + html_text(e.name) + (if e.is_dir {
            seq!['/']
        } else {
            Seq::<char>::empty()
        }) + "</a></td><td>"@ + (if !e.is_dir && e.size is Some {
            size::size_text(e.size->0)
        } else {
            Seq::<char>::empty()
        }) + "</td></tr>"@,
{
    reveal_strlit("/");
    reveal_strlit("");
    assert("/"@ =~= seq!['/']);
    assert(""@ =~= Seq::<char>::empty());
}

/// The rows of entries are their rows one after the other.
proof fn lemma_rows(s: Seq<EntryView>)
    ensures
        rows(s) == s.map_values(|e: EntryView| row(e)).flatten(),
    decreases s.len(),
{
    let f = |e: EntryView| row(e);
    let all = s.map_values(f);
    if s.len() > 0 {
        lemma_rows(s.drop_last());
        assert(all.drop_last() =~= s.drop_last().map_values(f));
        assert(all =~= all.drop_last().push(all.last()));
        all.drop_last().lemma_flatten_push(all.last());
    }
}

/// A text of a list stands between those before it and those behind it.
proof fn lemma_flatten_around(all: Seq<Seq<char>>, k: int)
    requires
        0 <= k < all.len(),
    ensures
        all.flatten() == all.take(k).flatten() + all[k] + all.skip(k + 1).flatten(),
    decreases k,
{
    let rest = all.drop_first();
    if k == 0 {
        assert(all.take(0).flatten() =~= Seq::<char>::empty());
        assert(all.skip(1) =~= rest);
        assert(all.flatten() =~= all.take(0).flatten() + all[0] + rest.flatten());
    } else {
        lemma_flatten_around(rest, k - 1);
        let front = all.take(k);
        assert(front.drop_first() =~= rest.take(k - 1));
        assert(front.first() == all.first());
        assert(front.flatten() == front.first() + front.drop_first().flatten());
        assert(all.skip(k + 1) =~= rest.skip(k));
        assert(all.flatten() =~= front.flatten() + all[k] + all.skip(k + 1).flatten());
    }
}

/// The page of a directory shows every entry of it, however many there are: its
/// table has as many rows as the directory has entries, one behind the other, and
/// each entry has its row, with its link, its name and its size. Nothing else
/// stands in the table but the way up, below the root.
pub proof fn pages_show_every_entry(rel: Seq<char>, nested: bool, entries: Seq<EntryView>)
    ensures
        in_order(entries).to_multiset() == entries.to_multiset(),
        in_order(entries).len() == entries.len(),
        page(rel, nested, entries) == LISTING_TITLE@ + (seq!['/'] + rel) + LISTING_STYLE@ + (
        seq!['/'] + rel) + LISTING_TABLE@ + (if nested {
            "<tr><td><a href=\"../\">../</a></td><td></td></tr>"@
        } else {
            Seq::<char>::empty()
        }) + in_order(entries).map_values(|e: EntryView| row(e)).flatten()
            + "</table></body></html>"@,
        forall|e: EntryView| #[trigger]
            entries.contains(e) ==> exists|before: Seq<char>, after: Seq<char>|
                page(rel, nested, entries) == #[trigger] (before + row(e) + after),
{
    broadcast use vstd::seq_lib::group_to_multiset_ensures;

    reveal_strlit("/");
    reveal_strlit("");
    assert("/"@ =~= seq!['/']);
    assert(""@ =~= Seq::<char>::empty());
    let order = in_order(entries);
    let f = |e: EntryView| row(e);
    let shown = order.map_values(f);
    listing_is_complete_and_ordered(entries);
    lemma_rows(order);
    let top = LISTING_TITLE@ + (seq!['/'] + rel) + LISTING_STYLE@ + (seq!['/'] + rel)
        + LISTING_TABLE@ + (if nested {
        UP_ROW@
    } else {
        Seq::<char>::empty()
    });
    assert(page(rel, nested, entries) == top + shown.flatten() + LISTING_END@);
    assert forall|e: EntryView| #[trigger] entries.contains(e) implies exists|
        before: Seq<char>,
        after: Seq<char>,
    | page(rel, nested, entries) == #[trigger] (before + row(e) + after) by {
        assert(order.to_multiset().count(e) > 0);
        assert(order.contains(e));
        let k = choose|k: int| 0 <= k < order.len() && order[k] == e;
        lemma_flatten_around(shown, k);
        let a = shown.take(k);
        let b = shown.skip(k + 1);
        let before = top + a.flatten();
        let after = b.flatten() + LISTING_END@;
        assert(page(rel, nested, entries) =~= before + row(e) + after);
    }
}

/// Entries that may stand in either order keep the order they had: with one entry
/// more at the end, the listing is the same but for that entry, which comes after
/// all that may stand before it.
pub proof fn listings_are_stable(s: Seq<EntryView>, e: EntryView) -> (k: int)
    ensures
        0 <= k <= s.len(),
        in_order(s.push(e)) == in_order(s).insert(k, e),
        forall|i: int| 0 <= i < k ==> entry_le(#[trigger] in_order(s)[i], e),
        forall|i: int| k <= i < s.len() ==> !entry_le(#[trigger] in_order(s)[i], e),
{
    listing_is_complete_and_ordered(s);
    assert(s.push(e).drop_last() =~= s);
    lemma_inserted_at(in_order(s), e)
}

/// Where an entry is inserted.
proof fn lemma_inserted_at(s: Seq<EntryView>, e: EntryView) -> (k: int)
    requires
        ordered(s),
    ensures
        0 <= k <= s.len(),
        insert_entry(s, e) == s.insert(k, e),
        forall|i: int| 0 <= i < k ==> entry_le(#[trigger] s[i], e),
        forall|i: int| k <= i < s.len() ==> !entry_le(#[trigger] s[i], e),
    decreases s.len(),
{
    if s.len() == 0 || entry_le(s.last(), e) {
        assert(s.push(e) =~= s.insert(s.len() as int, e));
        assert forall|i: int| 0 <= i < s.len() implies entry_le(#[trigger] s[i], e) by {
            if i < s.len() - 1 {
                assert(entry_le(s[i], s[s.len() - 1]));
                lemma_text_le(
                    share::lowercase(s[i].name),
                    share::lowercase(s.last().name),
                    share::lowercase(e.name),
                );
            }
        }
        s.len() as int
    } else {
        let front = s.drop_last();
        let k = lemma_inserted_at(front, e);
        assert(insert_entry(front, e).push(s.last()) =~= s.insert(k, e));
        assert forall|i: int| 0 <= i < k implies entry_le(#[trigger] s[i], e) by {
            assert(front[i] == s[i]);
        }
        assert forall|i: int| k <= i < s.len() implies !entry_le(#[trigger] s[i], e) by {
            if i < s.len() - 1 {
                assert(front[i] == s[i]);
            }
        }
        k
    }
}

/// An entry may stand before another where it alone is a directory, or where both or
/// neither are and its lowercase name comes before or with that of the other; nothing
/// else decides.
pub proof fn entries_are_ordered_by_kind_and_lowercase_name(a: EntryView, b: EntryView)
    ensures
        entry_le(a, b) <==> (a.is_dir && !b.is_dir) || (a.is_dir == b.is_dir && text_le(
            share::lowercase(a.name),
            share::lowercase(b.name),
        )),
{
}

/// The entries of a directory are taken as they are, one for one.
pub proof fn entries_are_taken_as_they_are(v: Seq<Entry>)
    ensures
        entry_views(v).len() == v.len(),
        forall|i: int|
            0 <= i < v.len() ==> {
                let e = #[trigger] v[i];
                &&& entry_views(v)[i].is_dir == e.is_dir
                &&& entry_views(v)[i].name == e.name@
                &&& entry_views(v)[i].size == e.size
            },
{
}

} // verus!
