//! Plain HTTP on the edge's port: onboarding routes are served directly (a
//! device can't fetch the CA over https before trusting it); everything else
//! is sent to the same host over https.

use vstd::prelude::*;

use crate::edge;
use crate::text;

verus! {

/// How many bytes of a plain request are read.
pub const REQUEST_LIMIT: usize = 4096;

/// The head of the plaintext answer that carries the CA certificate, up to
/// its length.
pub const PLAIN_CA_HEAD: &'static str =
    "HTTP/1.1 200 OK\r\ncontent-type: application/x-x509-ca-cert\r\n\
    content-disposition: attachment; filename=\"lclhst-ca.crt\"\r\n\
    content-length: ";

/// The head of the plaintext answer that carries the onboarding page, up to
/// its length.
pub const PLAIN_PAGE_HEAD: &'static str =
    "HTTP/1.1 200 OK\r\ncontent-type: text/html; charset=utf-8\r\n\
    content-length: ";

/// What stands between a plaintext answer's length and its body.
pub const PLAIN_HEAD_END: &'static str = "\r\nconnection: close\r\n\r\n";

/// The redirect up to the host.
pub const REDIRECT_HEAD: &'static str =
    "HTTP/1.1 301 Moved Permanently\r\nlocation: https://";

/// The redirect after the path.
pub const REDIRECT_END: &'static str = "\r\ncontent-length: 0\r\nconnection: close\r\n\r\n";

/// The path that a request asks for: the second word of its first line, if
/// that begins with a slash, else `/`.
pub open spec fn request_path(head: Seq<char>) -> Seq<char> {
    let ls = text::lines(head);
    if ls.len() > 0 && text::words(ls[0]).len() > 1 && text::begins(text::words(ls[0])[1], "/"@) {
        text::words(ls[0])[1]
    } else {
        "/"@
    }
}

/// Whether a line is the host field: what stands before its first colon is
/// `host`, in any case.
pub open spec fn is_host_line(line: Seq<char>) -> bool {
    let k = text::find(line, ':');
    k < line.len() && text::ascii_lowercase(line.take(k)) == "host"@
}

/// What follows the colon of the first host field.
pub open spec fn host_line(ls: Seq<Seq<char>>) -> Option<Seq<char>>
    decreases ls.len(),
{
    if ls.len() == 0 {
        None
    } else if is_host_line(ls[0]) {
        Some(ls[0].skip(text::find(ls[0], ':') + 1))
    } else {
        host_line(ls.drop_first())
    }
}

/// The host to redirect to: whatever host:port the client used, else the
/// share's name on the LAN.
pub open spec fn redirect_host(head: Seq<char>, name: Seq<char>) -> Seq<char> {
    match host_line(text::lines(head)) {
        Some(h) => if text::trim(h).len() > 0 {
            text::trim(h)
        } else {
            name + ".local"@
        },
        None => name + ".local"@,
    }
}

/// A plaintext 200 answer.
pub open spec fn plain_ok(head: Seq<char>, body: Seq<char>) -> Seq<char> {
    head + text::decimal(vstd::utf8::encode_utf8(body).len()) + PLAIN_HEAD_END@ + body
}

/// A redirect to the same place over https.
pub open spec fn redirect(host: Seq<char>, path: Seq<char>) -> Seq<char> {
    REDIRECT_HEAD@ + host + path + REDIRECT_END@
}

/// The answer to a plaintext request.
pub open spec fn plaintext_answer(head: Seq<char>, name: Seq<char>, ca_pem: Seq<char>) -> Seq<
    char,
> {
    let path = request_path(head);
    if path == edge::CA_PATH@ {
        plain_ok(PLAIN_CA_HEAD@, ca_pem)
    } else if text::begins(path, edge::ONBOARDING_PREFIX@) {
        plain_ok(PLAIN_PAGE_HEAD@, edge::onboarding_html(name))
    } else {
        redirect(redirect_host(head, name), path)
    }
}

/// The path that a request asks for.
fn path_of(lines: &Vec<String>, Ghost(head): Ghost<Seq<char>>) -> (r: String)
    requires
        text::texts(lines@) == text::lines(head),
    ensures
        r@ == request_path(head),
{
    assert(text::texts(lines@).len() == lines@.len());
    if lines.len() > 0 {
        let ws = text::words_of(lines[0].as_str());
        assert(text::texts(lines@)[0] == lines@[0]@);
        assert(text::texts(ws@).len() == ws@.len());
        if ws.len() > 1 {
            assert(text::texts(ws@)[1] == ws@[1]@);
            let second = text::chars_of(ws[1].as_str());
            if text::begins_with(&second, "/") {
                return ws[1].clone();
            }
        }
    }
    "/".to_owned()
}

/// The host that a request was sent to.
fn host_of(lines: &Vec<String>, name: &str, Ghost(head): Ghost<Seq<char>>) -> (r: String)
    requires
        text::texts(lines@) == text::lines(head),
    ensures
        r@ == redirect_host(head, name@),
{
    let ghost all = text::texts(lines@);
    assert(all.len() == lines@.len());
    let mut i: usize = 0;
    assert(all.skip(0) =~= all);
    while i < lines.len()
        invariant
            i <= lines@.len(),
            all == text::texts(lines@),
            all == text::lines(head),
            host_line(all.skip(i as int)) == host_line(all),
        decreases lines@.len() - i,
    {
        let line = text::chars_of(lines[i].as_str());
        let ghost rest = all.skip(i as int);
        assert(rest[0] == line@);
        assert(rest.drop_first() =~= all.skip(i + 1));
        let colon = text::find_from(&line, 0, ':');
        assert(line@.skip(0) =~= line@);
        if colon < line.len() && text::spells(&line, colon, "host") {
            let value = text::text_between(&line, colon + 1, line.len());
            assert(value@ =~= rest[0].skip(colon + 1));
            let host = text::trimmed(value.as_str());
            if text::chars_of(host.as_str()).len() > 0 {
                return host;
            }
            let mut out: String = name.to_owned();
            out.append(".local");
            return out;
        }
        i = i + 1;
    }
    assert(all.skip(i as int) =~= Seq::<Seq<char>>::empty());
    let mut out: String = name.to_owned();
    out.append(".local");
    out
}

/// A plaintext 200 answer.
fn plain_reply(head: &str, body: &str) -> (r: String)
    ensures
        r@ == plain_ok(head@, body@),
{
    let mut out: String = head.to_owned();
    out.append(text::decimal_of(body.as_bytes().len() as u64).as_str());
    out.append(PLAIN_HEAD_END);
    out.append(body);
    out
}

/// Answer one plaintext HTTP request, whose text is `head`.
pub fn answer_plaintext(head: &str, name: &str, ca_pem: &str) -> (r: String)
    ensures
        r@ == plaintext_answer(head@, name@, ca_pem@),
{
    let lines = text::lines_of(&text::chars_of(head));
    let path = path_of(&lines, Ghost(head@));
    if text::same(path.as_str(), edge::CA_PATH) {
        plain_reply(PLAIN_CA_HEAD, ca_pem)
    } else if text::begins_with(&text::chars_of(path.as_str()), edge::ONBOARDING_PREFIX) {
        let page = edge::onboarding_page(name);
        plain_reply(PLAIN_PAGE_HEAD, page.as_str())
    } else {
        let host = host_of(&lines, name, Ghost(head@));
        let mut out: String = REDIRECT_HEAD.to_owned();
        out.append(host.as_str());
        out.append(path.as_str());
        out.append(REDIRECT_END);
        out
    }
}

/// Answer one plaintext HTTP request, whose bytes are `request`.
pub fn serve_plaintext(request: &[u8], name: &str, ca_pem: &str) -> (r: String)
    ensures
        r@ == plaintext_answer(text::utf8_lossy(request@), name@, ca_pem@),
        vstd::utf8::valid_utf8(request@) ==> r@ == plaintext_answer(
            vstd::utf8::decode_utf8(request@),
            name@,
            ca_pem@,
        ),
{
    let head = text::lossy_text(request);
    answer_plaintext(head.as_str(), name, ca_pem)
}

/// The lines, each ended by a carriage return and a line feed, before `tail`.
pub open spec fn with_lines(before: Seq<Seq<char>>, tail: Seq<char>) -> Seq<char>
    decreases before.len(),
{
    if before.len() == 0 {
        tail
    } else {
        before[0] + "\r\n"@ + with_lines(before.drop_first(), tail)
    }
}

/// A run of characters without white space, at least one.
pub open spec fn is_word(s: Seq<char>) -> bool {
    s.len() > 0 && forall|i: int| 0 <= i < s.len() ==> !text::is_space(#[trigger] s[i])
}

/// Whether a text stays on one line.
pub open spec fn one_line(s: Seq<char>) -> bool {
    forall|i: int| 0 <= i < s.len() ==> #[trigger] s[i] != '\n'
}

/// Whether a text is made of spaces and tabs.
pub open spec fn is_gap(s: Seq<char>) -> bool {
    forall|i: int| 0 <= i < s.len() ==> #[trigger] s[i] == ' ' || s[i] == '\t'
}

/// A well-formed request: a method of capital letters, a path that begins
/// with a slash, a protocol version, and header fields of which the first
/// host field has the name `field`, in any case, and the value `host`, with or
/// without white space around it.
pub struct PlainRequest {
    pub method: Seq<char>,
    pub path: Seq<char>,
    pub version: Seq<char>,
    pub before: Seq<Seq<char>>,
    pub field: Seq<char>,
    pub gap: Seq<char>,
    pub host: Seq<char>,
    pub end: Seq<char>,
    pub rest: Seq<char>,
}

impl PlainRequest {
    /// The request is well-formed.
    pub open spec fn wf(self) -> bool {
        &&& is_word(self.method)
        &&& forall|i: int| 0 <= i < self.method.len() ==> 'A' <= #[trigger] self.method[i] <= 'Z'
        &&& is_word(self.path)
        &&& self.path[0] == '/'
        &&& is_word(self.version)
        &&& forall|i: int|
            0 <= i < self.before.len() ==> one_line(#[trigger] self.before[i]) && !is_host_line(
                self.before[i],
            )
        &&& text::ascii_lowercase(self.field) == "host"@
        &&& is_gap(self.gap)
        &&& is_gap(self.end)
        &&& self.host.len() > 0
        &&& one_line(self.host)
        &&& text::trim(self.host) == self.host
    }

    /// Its first line.
    pub open spec fn first_line(self) -> Seq<char> {
        self.method + " "@ + self.path + " "@ + self.version
    }

    /// Its first host field.
    pub open spec fn host_field(self) -> Seq<char> {
        self.field + ":"@ + (self.gap + self.host + self.end)
    }

    /// Its text.
    pub open spec fn text(self) -> Seq<char> {
        self.first_line() + "\r\n"@ + with_lines(
            self.before,
            self.host_field() + "\r\n"@ + self.rest,
        )
    }
}

/// Lines that are no host lines do not change the host that is found.
proof fn lemma_host_after(before: Seq<Seq<char>>, tail: Seq<char>)
    requires
        forall|i: int|
            0 <= i < before.len() ==> one_line(#[trigger] before[i]) && !is_host_line(before[i]),
    ensures
        host_line(text::lines(with_lines(before, tail))) == host_line(text::lines(tail)),
    decreases before.len(),
{
    if before.len() > 0 {
        let rest = before.drop_first();
        assert forall|i: int| 0 <= i < rest.len() implies one_line(#[trigger] rest[i])
            && !is_host_line(rest[i]) by {
            assert(rest[i] == before[i + 1]);
        }
        lemma_host_after(rest, tail);
        assert(one_line(before[0]));
        text::lemma_first_line(before[0], with_lines(rest, tail));
        let ls = text::lines(with_lines(before, tail));
        assert(ls[0] == before[0]);
        assert(ls.drop_first() =~= text::lines(with_lines(rest, tail)));
    }
}

/// The path and the host that a request names are the ones that are read.
pub proof fn request_is_read_back(q: PlainRequest, name: Seq<char>)
    requires
        q.wf(),
    ensures
        request_path(q.text()) == q.path,
        redirect_host(q.text(), name) == q.host,
{
    reveal_strlit(" ");
    reveal_strlit("/");
    reveal_strlit("\r\n");
    reveal_strlit("host");
    reveal_strlit(":");
    let first = q.first_line();
    let last = q.host_field();
    let f = q.field.len() as int;
    let g = q.gap.len() as int;
    let h = q.host.len() as int;
    assert(text::ascii_lowercase(q.field).len() == f);
    assert forall|i: int| 0 <= i < f implies q.field[i] != '\n' && q.field[i] != ':' by {
        assert(text::ascii_lowercase(q.field)[i] == text::ascii_lower(q.field[i]));
        assert("host"@[i] != '\n' && "host"@[i] != ':');
    }
    let tail = last + "\r\n"@ + q.rest;
    assert forall|i: int| 0 <= i < first.len() implies first[i] != '\n' by {
        let m = q.method.len() as int;
        let p = q.path.len() as int;
        if i < m {
            assert(first[i] == q.method[i]);
        } else if i == m {
            assert(first[i] == ' ');
        } else if i < m + 1 + p {
            assert(first[i] == q.path[i - m - 1]);
        } else if i == m + 1 + p {
            assert(first[i] == ' ');
        } else {
            assert(first[i] == q.version[i - m - p - 2]);
        }
    }
    assert forall|i: int| 0 <= i < last.len() implies last[i] != '\n' by {
        if i < f {
            assert(last[i] == q.field[i]);
        } else if i == f {
            assert(last[i] == ':');
        } else if i < f + 1 + g {
            assert(last[i] == q.gap[i - f - 1]);
        } else if i < f + 1 + g + h {
            assert(last[i] == q.host[i - f - 1 - g]);
        } else {
            assert(last[i] == q.end[i - f - 1 - g - h]);
        }
    }
    text::lemma_first_line(first, with_lines(q.before, tail));
    text::lemma_first_line(last, q.rest);
    let ls = text::lines(q.text());
    assert(ls[0] == first);
    assert(ls.drop_first() =~= text::lines(with_lines(q.before, tail)));
    // The second word of the first line is the path.
    let after_path = " "@ + q.version;
    let after_method = " "@ + (q.path + after_path);
    assert(first =~= q.method + after_method);
    text::lemma_first_word(q.method, after_method);
    text::lemma_words_skip_space(q.path + after_path);
    text::lemma_first_word(q.path, after_path);
    assert(text::words(first)[1] == q.path);
    assert(q.path.take(1) =~= "/"@);
    // The first line is no host line: a space comes before any colon.
    assert(!is_host_line(first)) by {
        let m = q.method.len() as int;
        text::lemma_find(first, ':');
        let k = text::find(first, ':');
        if is_host_line(first) {
            assert(first[m] == ' ');
            if k <= m {
                assert(first[k] == if k < m {
                    q.method[k]
                } else {
                    ' '
                });
            } else {
                let name = text::ascii_lowercase(first.take(k));
                assert(name[m] == text::ascii_lower(' '));
                assert("host"@[m] != ' ');
            }
        }
    }
    assert(host_line(ls) == host_line(ls.drop_first()));
    lemma_host_after(q.before, tail);
    let end = text::lines(tail);
    assert(end[0] == last);
    // The host field is one, and its value the host.
    assert(last[f] == ':');
    assert forall|i: int| 0 <= i < f implies last[i] != ':' by {
        assert(last[i] == q.field[i]);
    }
    text::lemma_find_unique(last, ':', f);
    assert(last.take(f) =~= q.field);
    assert(last.skip(f + 1) =~= q.gap + q.host + q.end);
    assert(!text::is_space(q.host[0])) by {
        if text::is_space(q.host[0]) {
            text::lemma_trim_len(q.host);
        }
    }
    text::lemma_trim_padded(q.gap, q.host, q.end);
}

/// Every plain request that is not for the onboarding pages is answered with a
/// redirect to the same host and the same path over https.
pub proof fn redirect_keeps_host_and_path(q: PlainRequest, name: Seq<char>, ca_pem: Seq<char>)
    requires
        q.wf(),
        !text::begins(q.path, edge::ONBOARDING_PREFIX@),
    ensures
        plaintext_answer(q.text(), name, ca_pem) == redirect(q.host, q.path),
{
    request_is_read_back(q, name);
    reveal_strlit("/.lclhst");
    reveal_strlit("/.lclhst/ca");
    assert(edge::CA_PATH@.take(8) =~= edge::ONBOARDING_PREFIX@);
}

/// A plain request for the CA certificate is answered with exactly the
/// certificate, whatever host it was sent to: no TLS is needed to get it.
pub proof fn ca_is_served_in_plaintext(q: PlainRequest, name: Seq<char>, ca_pem: Seq<char>)
    requires
        q.wf(),
        q.path == edge::CA_PATH@,
    ensures
        plaintext_answer(q.text(), name, ca_pem) == plain_ok(PLAIN_CA_HEAD@, ca_pem),
{
    request_is_read_back(q, name);
}

/// A plain request for any other reserved path gets the onboarding page.
pub proof fn onboarding_is_served_in_plaintext(q: PlainRequest, name: Seq<char>, ca_pem: Seq<char>)
    requires
        q.wf(),
        text::begins(q.path, edge::ONBOARDING_PREFIX@),
        q.path != edge::CA_PATH@,
    ensures
        plaintext_answer(q.text(), name, ca_pem) == plain_ok(
            PLAIN_PAGE_HEAD@,
            edge::onboarding_html(name),
        ),
{
    request_is_read_back(q, name);
}

/// Lines one after the other are their texts, each with its ending.
proof fn lemma_with_lines(before: Seq<Seq<char>>, tail: Seq<char>)
    ensures
        with_lines(before, tail) == before.map_values(|l: Seq<char>| l + "\r\n"@).flatten() + tail,
    decreases before.len(),
{
    let ended = |l: Seq<char>| l + "\r\n"@;
    let all = before.map_values(ended);
    if before.len() == 0 {
        assert(all.flatten() + tail =~= tail);
    } else {
        lemma_with_lines(before.drop_first(), tail);
        assert(all.drop_first() =~= before.drop_first().map_values(ended));
        assert(all.first() == before[0] + "\r\n"@);
        assert(all.flatten() == all.first() + all.drop_first().flatten());
        assert(with_lines(before, tail) =~= all.flatten() + tail);
    }
}

/// A line is the host field exactly where it is a header field of that name.
pub proof fn host_fields_are_told_by_their_name(line: Seq<char>)
    ensures
        is_host_line(line) <==> exists|field: Seq<char>, value: Seq<char>|
            {
                &&& line == #[trigger] (field + seq![':'] + value)
                &&& !field.contains(':')
                &&& text::ascii_lowercase(field) == seq!['h', 'o', 's', 't']
            },
{
    reveal_strlit("host");
    assert("host"@ =~= seq!['h', 'o', 's', 't']);
    let k = text::find(line, ':');
    text::lemma_find(line, ':');
    if is_host_line(line) {
        let field = line.take(k);
        assert(line =~= field + seq![':'] + line.skip(k + 1));
        assert(!field.contains(':'));
    }
    if exists|field: Seq<char>, value: Seq<char>|
        {
            &&& line == #[trigger] (field + seq![':'] + value)
            &&& !field.contains(':')
            &&& text::ascii_lowercase(field) == seq!['h', 'o', 's', 't']
        } {
        let (field, value) = choose|field: Seq<char>, value: Seq<char>|
            {
                &&& line == #[trigger] (field + seq![':'] + value)
                &&& !field.contains(':')
                &&& text::ascii_lowercase(field) == seq!['h', 'o', 's', 't']
            };
        let n = field.len() as int;
        assert(line[n] == ':');
        assert forall|i: int| 0 <= i < n implies line[i] != ':' by {
            assert(line[i] == field[i]);
            assert(field.contains(field[i]));
        }
        text::lemma_find_unique(line, ':', n);
        assert(line.take(n) =~= field);
    }
}

/// A plain request: a method in capital letters, a path with its query, a
/// version, lines that are no host fields, the host field, with white space
/// around the host or not, and whatever follows. Unless the path is reserved,
/// the answer is a permanent redirect to exactly that host and that path, with
/// the whole query, over https.
pub proof fn plain_requests_are_sent_to_https(
    method: Seq<char>,
    path: Seq<char>,
    version: Seq<char>,
    before: Seq<Seq<char>>,
    field: Seq<char>,
    gap: Seq<char>,
    host: Seq<char>,
    end: Seq<char>,
    rest: Seq<char>,
    name: Seq<char>,
    ca_pem: Seq<char>,
)
    requires
        method.len() > 0,
        forall|i: int| 0 <= i < method.len() ==> 'A' <= #[trigger] method[i] <= 'Z',
        path.len() > 0,
        path[0] == '/',
        forall|i: int| 0 <= i < path.len() ==> !text::is_space(#[trigger] path[i]),
        version.len() > 0,
        forall|i: int| 0 <= i < version.len() ==> !text::is_space(#[trigger] version[i]),
        forall|i: int|
            0 <= i < before.len() ==> !(#[trigger] before[i]).contains('\n') && !is_host_line(
                before[i],
            ),
        text::ascii_lowercase(field) == seq!['h', 'o', 's', 't'],
        forall|i: int| 0 <= i < gap.len() ==> #[trigger] gap[i] == ' ' || gap[i] == '\t',
        forall|i: int| 0 <= i < end.len() ==> #[trigger] end[i] == ' ' || end[i] == '\t',
        host.len() > 0,
        !host.contains('\n'),
        !text::is_space(host[0]),
        !text::is_space(host.last()),
    ensures
        ({
            let head = method + seq![' '] + path + seq![' '] + version + "\r\n"@ + (
            before.map_values(|l: Seq<char>| l + "\r\n"@).flatten() + (field + seq![':'] + gap + host
                + end + "\r\n"@ + rest));
            !text::begins(path, "/.lclhst"@) ==> plaintext_answer(head, name, ca_pem)
                == "HTTP/1.1 301 Moved Permanently\r\nlocation: https://"@ + host + path
                + "\r\ncontent-length: 0\r\nconnection: close\r\n\r\n"@
        }),
{
    let q = PlainRequest { method, path, version, before, field, gap, host, end, rest };
    reveal_strlit(" ");
    reveal_strlit(":");
    reveal_strlit("host");
    assert("host"@ =~= seq!['h', 'o', 's', 't']);
    assert(" "@ =~= seq![' ']);
    assert(":"@ =~= seq![':']);
    assert forall|i: int| 0 <= i < method.len() implies !text::is_space(#[trigger] method[i]) by {}
    assert forall|i: int| 0 <= i < before.len() implies one_line(#[trigger] before[i])
        && !is_host_line(before[i]) by {
        let l = before[i];
        assert forall|j: int| 0 <= j < l.len() implies #[trigger] l[j] != '\n' by {
            assert(l.contains(l[j]));
        }
    }
    assert forall|j: int| 0 <= j < host.len() implies #[trigger] host[j] != '\n' by {
        assert(host.contains(host[j]));
    }
    text::trimming_takes_white_space_off(Seq::empty(), host, Seq::empty());
    assert(Seq::<char>::empty() + host + Seq::<char>::empty() =~= host);
    assert(q.wf());
    let tail = q.host_field() + "\r\n"@ + rest;
    assert(q.host_field() =~= field + seq![':'] + gap + host + end);
    lemma_with_lines(before, tail);
    if !text::begins(path, "/.lclhst"@) {
        redirect_keeps_host_and_path(q, name, ca_pem);
    }
}

/// Where a plain request has no host field, or an empty one first, it is sent to
/// the share's name on the LAN.
pub proof fn without_a_host_the_name_is_used(head: Seq<char>, name: Seq<char>)
    ensures
        (forall|i: int|
            0 <= i < text::lines(head).len() ==> !is_host_line(#[trigger] text::lines(head)[i]))
            ==> redirect_host(head, name) == name + ".local"@,
        forall|k: int|
            0 <= k < text::lines(head).len() && #[trigger] is_host_line(text::lines(head)[k])
                && text::trim(
                text::lines(head)[k].skip(text::find(text::lines(head)[k], ':') + 1),
            ).len() == 0 && (forall|i: int|
                0 <= i < k ==> !is_host_line(#[trigger] text::lines(head)[i])) ==> redirect_host(
                head,
                name,
            ) == name + ".local"@,
{
    let ls = text::lines(head);
    lemma_host_line(ls);
}

/// The first host field counts.
proof fn lemma_host_line(ls: Seq<Seq<char>>)
    ensures
        (forall|i: int| 0 <= i < ls.len() ==> !is_host_line(#[trigger] ls[i])) ==> host_line(ls)
            is None,
        forall|k: int|
            0 <= k < ls.len() && #[trigger] is_host_line(ls[k]) && (forall|i: int|
                0 <= i < k ==> !is_host_line(#[trigger] ls[i])) ==> host_line(ls) == Some(
                ls[k].skip(text::find(ls[k], ':') + 1),
            ),
    decreases ls.len(),
{
    if ls.len() > 0 && !is_host_line(ls[0]) {
        let rest = ls.drop_first();
        lemma_host_line(rest);
        if forall|i: int| 0 <= i < ls.len() ==> !is_host_line(#[trigger] ls[i]) {
            assert forall|i: int| 0 <= i < rest.len() implies !is_host_line(#[trigger] rest[i]) by {
                assert(rest[i] == ls[i + 1]);
            }
        }
        assert forall|k: int|
            0 <= k < ls.len() && #[trigger] is_host_line(ls[k]) && (forall|i: int|
                0 <= i < k ==> !is_host_line(#[trigger] ls[i])) implies host_line(ls) == Some(
            ls[k].skip(text::find(ls[k], ':') + 1),
        ) by {
            assert(rest[k - 1] == ls[k]);
            assert forall|i: int| 0 <= i < k - 1 implies !is_host_line(#[trigger] rest[i]) by {
                assert(rest[i] == ls[i + 1]);
            }
        }
    }
}

/// What a request asks for is the second word of its first line where that
/// begins with a slash, and the root otherwise.
pub proof fn paths_are_second_words(first: Seq<char>, rest: Seq<char>)
    requires
        !first.contains('\n'),
    ensures
        ({
            let head = first + "\r\n"@ + rest;
            let ws = text::words(first);
            request_path(head) == (if ws.len() > 1 && ws[1].len() > 0 && ws[1][0] == '/' {
                ws[1]
            } else {
                seq!['/']
            })
        }),
        request_path(Seq::<char>::empty()) == seq!['/'],
{
    assert forall|i: int| 0 <= i < first.len() implies first[i] != '\n' by {
        assert(first.contains(first[i]));
    }
    text::lemma_first_line(first, rest);
    reveal_strlit("/");
    assert("/"@ =~= seq!['/']);
    let ws = text::words(first);
    assert(text::lines(first + "\r\n"@ + rest)[0] == first);
    if ws.len() > 1 && ws[1].len() > 0 {
        assert(ws[1].take(1)[0] == ws[1][0]);
        if ws[1][0] == '/' {
            assert(ws[1].take(1) =~= "/"@);
        }
    }
}

/// The location of a redirect decides the path: two requests to the same host
/// for different paths are sent to different places, and so are two to different
/// hosts for the same path.
pub proof fn redirects_tell_requests_apart(
    q: PlainRequest,
    other: PlainRequest,
    name: Seq<char>,
    ca_pem: Seq<char>,
)
    requires
        q.wf(),
        other.wf(),
        !text::begins(q.path, "/.lclhst"@),
        !text::begins(other.path, "/.lclhst"@),
        q.host == other.host && q.path != other.path || q.host != other.host && q.path
            == other.path,
    ensures
        plaintext_answer(q.text(), name, ca_pem) != plaintext_answer(other.text(), name, ca_pem),
{
    redirect_keeps_host_and_path(q, name, ca_pem);
    redirect_keeps_host_and_path(other, name, ca_pem);
    let a = plaintext_answer(q.text(), name, ca_pem);
    let b = plaintext_answer(other.text(), name, ca_pem);
    if a == b {
        let h = REDIRECT_HEAD@.len() as int;
        let m = q.host.len() as int;
        let n = other.host.len() as int;
        assert(a.len() == h + m + q.path.len() + REDIRECT_END@.len());
        assert(b.len() == h + n + other.path.len() + REDIRECT_END@.len());
        assert(a.subrange(h, h + m) =~= q.host);
        assert(b.subrange(h, h + n) =~= other.host);
        assert(a.subrange(h + m, h + m + q.path.len()) =~= q.path);
        assert(b.subrange(h + n, h + n + other.path.len()) =~= other.path);
    }
}

/// A plain request for the CA is answered with the certificate as a file, and
/// one for another reserved path with the page that says how to install it, each
/// with the number of its bytes.
pub proof fn plain_onboarding_is_complete(q: PlainRequest, name: Seq<char>, ca_pem: Seq<char>)
    requires
        q.wf(),
        text::begins(q.path, "/.lclhst"@),
    ensures
        q.path == "/.lclhst/ca"@ ==> plaintext_answer(q.text(), name, ca_pem)
            == "HTTP/1.1 200 OK\r\ncontent-type: application/x-x509-ca-cert\r\n\
            content-disposition: attachment; filename=\"lclhst-ca.crt\"\r\n\
            content-length: "@ + text::decimal(vstd::utf8::encode_utf8(ca_pem).len())
            + "\r\nconnection: close\r\n\r\n"@ + ca_pem,
        q.path != "/.lclhst/ca"@ ==> {
            let page = edge::ONBOARDING_HEAD@ + name + edge::ONBOARDING_TAIL@;
            plaintext_answer(q.text(), name, ca_pem)
                == "HTTP/1.1 200 OK\r\ncontent-type: text/html; charset=utf-8\r\n\
                content-length: "@ + text::decimal(vstd::utf8::encode_utf8(page).len())
                + "\r\nconnection: close\r\n\r\n"@ + page
        },
{
    request_is_read_back(q, name);
}

/// Every plain request, whatever its lines end in, is answered by its path and its
/// host: the path is the second word of the first line where that begins with a
/// slash, else the root; the host is what follows the colon of the first host field,
/// without white space around it, or the share's name on the LAN where that is
/// nothing or there is no such field.
pub proof fn answers_go_by_path_and_host(
    head: Seq<char>,
    k: int,
    name: Seq<char>,
    ca_pem: Seq<char>,
)
    requires
        0 <= k <= text::lines(head).len(),
        forall|i: int| 0 <= i < k ==> !is_host_line(#[trigger] text::lines(head)[i]),
        k < text::lines(head).len() ==> is_host_line(text::lines(head)[k]),
    ensures
        ({
            let ls = text::lines(head);
            let ws = if ls.len() > 0 {
                text::words(ls[0])
            } else {
                Seq::<Seq<char>>::empty()
            };
            let path = if ws.len() > 1 && ws[1].len() > 0 && ws[1][0] == '/' {
                ws[1]
            } else {
                seq!['/']
            };
            let given = if k < ls.len() {
                text::trim(ls[k].skip(text::find(ls[k], ':') + 1))
            } else {
                Seq::<char>::empty()
            };
            let host = if given.len() > 0 {
                given
            } else {
                name + ".local"@
            };
            !text::begins(path, "/.lclhst"@) ==> plaintext_answer(head, name, ca_pem)
                == "HTTP/1.1 301 Moved Permanently\r\nlocation: https://"@ + host + path
                + "\r\ncontent-length: 0\r\nconnection: close\r\n\r\n"@
        }),
{
    let ls = text::lines(head);
    lemma_host_line(ls);
    reveal_strlit("/");
    assert("/"@ =~= seq!['/']);
    if ls.len() > 0 {
        let ws = text::words(ls[0]);
        if ws.len() > 1 && ws[1].len() > 0 {
            assert(ws[1].take(1)[0] == ws[1][0]);
            if ws[1][0] == '/' {
                assert(ws[1].take(1) =~= "/"@);
            }
        }
    }
    if k < ls.len() {
        assert(is_host_line(ls[k]));
    }
    reveal_strlit("/.lclhst");
    reveal_strlit("/.lclhst/ca");
    assert(edge::CA_PATH@.take(8) =~= edge::ONBOARDING_PREFIX@);
}

} // verus!
