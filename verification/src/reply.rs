//! HTTP answers as plain values.

use vstd::prelude::*;

verus! {

/// A complete HTTP answer: status code, headers in order, body.
#[derive(Debug)]
pub struct Reply {
    pub status: u16,
    pub headers: Vec<(String, String)>,
    pub body: String,
}

/// The texts of a list of headers.
pub open spec fn header_texts(h: Seq<(String, String)>) -> Seq<(Seq<char>, Seq<char>)> {
    Seq::new(h.len(), |i: int| (h[i].0@, h[i].1@))
}

impl Reply {
    /// The reply has exactly this status, these headers and this body.
    pub open spec fn says(
        &self,
        status: u16,
        headers: Seq<(Seq<char>, Seq<char>)>,
        body: Seq<char>,
    ) -> bool {
        &&& self.status == status
        &&& header_texts(self.headers@) == headers
        &&& self.body@ == body
    }

    /// A reply with one header, its content type.
    pub fn typed(status: u16, content_type: &str, body: String) -> (r: Reply)
        ensures
            r.says(status, seq![("content-type"@, content_type@)], body@),
    {
        let mut headers: Vec<(String, String)> = Vec::new();
        headers.push(("content-type".to_owned(), content_type.to_owned()));
        assert(header_texts(headers@) =~= seq![("content-type"@, content_type@)]);
        Reply { status, headers, body }
    }
}

/// What a reply says is its status, its headers, one for one and in order, and
/// its body.
pub proof fn replies_say_what_they_hold(
    r: Reply,
    status: u16,
    headers: Seq<(Seq<char>, Seq<char>)>,
    body: Seq<char>,
)
    ensures
        r.says(status, headers, body) <==> {
            &&& r.status == status
            &&& r.body@ == body
            &&& r.headers@.len() == headers.len()
            &&& forall|i: int|
                0 <= i < headers.len() ==> r.headers@[i].0@ == (#[trigger] headers[i]).0
                    && r.headers@[i].1@ == headers[i].1
        },
{
    let all = header_texts(r.headers@);
    if r.says(status, headers, body) {
        assert forall|i: int| 0 <= i < headers.len() implies r.headers@[i].0@ == (
        #[trigger] headers[i]).0 && r.headers@[i].1@ == headers[i].1 by {
            assert(all[i] == headers[i]);
        }
    }
    if r.headers@.len() == headers.len() && (forall|i: int|
        0 <= i < headers.len() ==> r.headers@[i].0@ == (#[trigger] headers[i]).0
            && r.headers@[i].1@ == headers[i].1) {
        assert(all =~= headers) by {
            assert forall|i: int| 0 <= i < headers.len() implies all[i] == headers[i] by {
                assert(headers[i] == (headers[i].0, headers[i].1));
            }
        }
    }
}

} // verus!
