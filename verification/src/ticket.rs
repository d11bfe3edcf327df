//! The lclhst ticket: a tunnel name plus an iroh endpoint ticket.
//! Format: `<name>@<iroh-endpoint-ticket>`. Possession is the capability.

use vstd::prelude::*;

use crate::protocol;
use crate::text;

verus! {

/// A tunnel name and the canonical text of the endpoint ticket to reach it by.
#[derive(Debug, Clone)]
pub struct Ticket {
    pub name: String,
    pub endpoint: String,
}

/// Why a text is no ticket.
#[derive(Debug)]
pub enum TicketError {
    /// There is no `@`.
    NoSeparator,
    /// What stands before the first `@` is no tunnel name.
    InvalidName(String),
    /// What stands after it is no endpoint ticket.
    InvalidEndpoint,
}

/// The canonical text of the endpoint ticket that a text denotes, if it
/// denotes one.
pub uninterp spec fn endpoint_text(s: Seq<char>) -> Option<Seq<char>>;

/// `iroh_tickets::endpoint::EndpointTicket`'s `FromStr`, then its `Display`:
/// the canonical text of the endpoint ticket that `s` denotes, `None` where it
/// denotes none. It is a function of the text alone, and the canonical text
/// denotes the same ticket again.
#[verifier::external_body]
fn canonical_endpoint(s: &str) -> (r: Option<String>)
    ensures
        r is Some <==> endpoint_text(s@) is Some,
        r matches Some(t) ==> endpoint_text(s@) == Some(t@),
        r matches Some(t) ==> endpoint_text(t@) == Some(t@),
{
    s.parse::<iroh_tickets::endpoint::EndpointTicket>().ok().map(|t| t.to_string())
}

/// What a text gives when it is read as a ticket: split at the first `@`, the
/// name before it, the endpoint after it.
pub open spec fn ticket_outcome(s: Seq<char>, r: Result<Ticket, TicketError>) -> bool {
    let k = text::find(s, '@');
    if k >= s.len() {
        r == Err::<Ticket, TicketError>(TicketError::NoSeparator)
    } else if !protocol::valid_label(s.take(k)) {
        r matches Err(TicketError::InvalidName(n)) && n@ == s.take(k)
    } else {
        match endpoint_text(s.skip(k + 1)) {
            None => r == Err::<Ticket, TicketError>(TicketError::InvalidEndpoint),
            Some(e) => r matches Ok(t) && t.name@ == s.take(k) && t.endpoint@ == e,
        }
    }
}

/// What a text gives when it is read as a ticket, where `endpoint` is the
/// canonical text of what follows the first `@`, if that denotes one.
pub open spec fn parts_outcome(
    name: Seq<char>,
    endpoint: Option<Seq<char>>,
    r: Result<Ticket, TicketError>,
) -> bool {
    if !protocol::valid_label(name) {
        r matches Err(TicketError::InvalidName(n)) && n@ == name
    } else {
        match endpoint {
            None => r == Err::<Ticket, TicketError>(TicketError::InvalidEndpoint),
            Some(e) => r matches Ok(t) && t.name@ == name && t.endpoint@ == e,
        }
    }
}

impl Ticket {
    /// The name is valid and the endpoint is the canonical text of a ticket.
    pub open spec fn wf(&self) -> bool {
        &&& protocol::valid_label(self.name@)
        &&& endpoint_text(self.endpoint@) == Some(self.endpoint@)
    }

    /// The ticket's text.
    pub open spec fn text(&self) -> Seq<char> {
        self.name@ + "@"@ + self.endpoint@
    }

    /// A ticket from a name and the canonical text of an endpoint ticket, if
    /// it is one.
    pub fn from_parts(name: &str, endpoint: Option<String>) -> (r: Result<Ticket, TicketError>)
        ensures
            parts_outcome(
                name@,
                match endpoint {
                    Some(e) => Some(e@),
                    None => None,
                },
                r,
            ),
    {
        if !protocol::valid_name(name) {
            return Err(TicketError::InvalidName(name.to_owned()));
        }
        match endpoint {
            None => Err(TicketError::InvalidEndpoint),
            Some(e) => Ok(Ticket { name: name.to_owned(), endpoint: e }),
        }
    }

    /// A ticket for a name and the text of an endpoint ticket.
    pub fn new(name: &str, endpoint: &str) -> (r: Result<Ticket, TicketError>)
        ensures
            parts_outcome(name@, endpoint_text(endpoint@), r),
            r matches Ok(t) ==> t.wf(),
    {
        let canonical = canonical_endpoint(endpoint);
        Ticket::from_parts(name, canonical)
    }

    /// Read a ticket.
    pub fn from_str(s: &str) -> (r: Result<Ticket, TicketError>)
        ensures
            ticket_outcome(s@, r),
            r matches Ok(t) ==> t.wf(),
    {
        let cs = text::chars_of(s);
        let at = text::find_from(&cs, 0, '@');
        assert(cs@.skip(0) =~= cs@);
        if at == cs.len() {
            return Err(TicketError::NoSeparator);
        }
        let name = text::text_between(&cs, 0, at);
        let rest = text::text_between(&cs, at + 1, cs.len());
        assert(name@ =~= s@.take(at as int));
        assert(rest@ =~= s@.skip(at + 1));
        Ticket::new(name.as_str(), rest.as_str())
    }

    /// Write a ticket.
    pub fn to_text(&self) -> (r: String)
        ensures
            r@ == self.text(),
    {
        let mut out: String = self.name.clone();
        out.append("@");
        out.append(self.endpoint.as_str());
        out
    }
}

impl TicketError {
    /// What the user is told.
    pub fn message(&self) -> (r: String)
        ensures
            match self {
                TicketError::NoSeparator => r@
                    == "ticket must look like <name>@<endpoint-ticket>"@,
                TicketError::InvalidName(n) => r@ == "invalid tunnel name in ticket: "@
                    + text::debug_text(n@),
                TicketError::InvalidEndpoint => r@ == "invalid endpoint ticket"@,
            },
    {
        match self {
            TicketError::NoSeparator => "ticket must look like <name>@<endpoint-ticket>".to_owned(),
            TicketError::InvalidName(n) => {
                let mut out: String = "invalid tunnel name in ticket: ".to_owned();
                out.append(text::quoted(n.as_str()).as_str());
                out
            },
            TicketError::InvalidEndpoint => "invalid endpoint ticket".to_owned(),
        }
    }
}

/// A ticket that is written out and read back is the same ticket.
pub proof fn ticket_round_trips(t: Ticket, r: Result<Ticket, TicketError>)
    requires
        t.wf(),
        ticket_outcome(t.text(), r),
    ensures
        r matches Ok(back) && back.name@ == t.name@ && back.endpoint@ == t.endpoint@,
{
    reveal_strlit("@");
    let s = t.text();
    let k = t.name@.len() as int;
    assert(s[k] == '@');
    assert forall|i: int| 0 <= i < k implies s[i] != '@' by {
        assert(s[i] == t.name@[i]);
        assert(protocol::label_char(t.name@[i]));
    }
    text::lemma_find_unique(s, '@', k);
    assert(s.take(k) =~= t.name@);
    assert(s.skip(k + 1) =~= t.endpoint@);
}

/// A ticket's text is its name, an `@`, and its endpoint. A text with a name before
/// its first `@` is read as that name and what follows, canonical or not; without
/// an `@` it is no ticket.
pub proof fn tickets_are_split_at_the_first_at(
    name: Seq<char>,
    rest: Seq<char>,
    r: Result<Ticket, TicketError>,
    t: Ticket,
    plain: Result<Ticket, TicketError>,
)
    requires
        !name.contains('@'),
        ticket_outcome(name + seq!['@'] + rest, r),
        ticket_outcome(name, plain),
    ensures
        t.text() == t.name@ + seq!['@'] + t.endpoint@,
        plain == Err::<Ticket, TicketError>(TicketError::NoSeparator),
        !protocol::valid_label(name) ==> (r matches Err(TicketError::InvalidName(n)) && n@ == name),
        protocol::valid_label(name) && endpoint_text(rest) is None ==> r == Err::<
            Ticket,
            TicketError,
        >(TicketError::InvalidEndpoint),
        protocol::valid_label(name) && endpoint_text(rest) is Some ==> (r matches Ok(read)
            && read.name@ == name && Some(read.endpoint@) == endpoint_text(rest)),
{
    reveal_strlit("@");
    assert("@"@ =~= seq!['@']);
    let s = name + seq!['@'] + rest;
    let k = name.len() as int;
    assert(s[k] == '@');
    assert forall|i: int| 0 <= i < k implies s[i] != '@' && name[i] != '@' by {
        assert(s[i] == name[i]);
        assert(name.contains(name[i]));
    }
    text::lemma_find_unique(s, '@', k);
    text::lemma_find_unique(name, '@', k);
    assert(s.take(k) =~= name);
    assert(s.skip(k + 1) =~= rest);
}

/// A ticket is made of a valid name and an endpoint, and of nothing less.
pub proof fn tickets_have_a_name_and_an_endpoint(
    name: Seq<char>,
    endpoint: Option<Seq<char>>,
    r: Result<Ticket, TicketError>,
    t: Ticket,
)
    ensures
        parts_outcome(name, endpoint, r) ==> {
            &&& r is Ok <==> protocol::valid_label(name) && endpoint is Some
            &&& r matches Ok(made) ==> made.name@ == name && Some(made.endpoint@) == endpoint
            &&& r matches Err(e) ==> {
                &&& e is InvalidName <==> !protocol::valid_label(name)
                &&& e matches TicketError::InvalidName(n) ==> n@ == name
                &&& e is InvalidEndpoint <==> protocol::valid_label(name)
            }
        },
        t.wf() <==> protocol::valid_label(t.name@) && endpoint_text(t.endpoint@) == Some(
            t.endpoint@,
        ),
{
}

} // verus!
