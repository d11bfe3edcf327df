//! QR codes for phones to scan.

use vstd::prelude::*;

verus! {

/// The QR code of a text, drawn with characters, if it is not too long.
pub uninterp spec fn qr_drawing(target: Seq<char>) -> Option<Seq<char>>;

/// `fast_qr::QRBuilder::new`, then `build`, then `to_str`: the drawing is a
/// function of the text alone. It exists for up to 1663 bytes; how much more
/// fits depends on the characters.
#[verifier::external_body]
fn draw(target: &str) -> (r: Option<String>)
    ensures
        r is Some <==> qr_drawing(target@) is Some,
        r matches Some(s) ==> qr_drawing(target@) == Some(s@),
        vstd::utf8::encode_utf8(target@).len() <= 1663 ==> r is Some,
{
    fast_qr::QRBuilder::new(target).build().ok().map(|qr| qr.to_str())
}

/// The invitation to scan a drawing.
pub open spec fn invitation(target: Seq<char>, drawing: Seq<char>) -> Seq<char> {
    "\nscan to open "@ + target + ":\n"@ + drawing
}

/// The invitation to scan a drawing.
pub fn invite(target: &str, drawing: &str) -> (r: String)
    ensures
        r@ == invitation(target@, drawing@),
{
    let mut out: String = "\nscan to open ".to_owned();
    out.append(target);
    out.append(":\n");
    out.append(drawing);
    out
}

/// What to print for a phone to scan: nothing unless it goes to a terminal,
/// and nothing where the text is too long for a QR code.
pub fn print_qr(target: &str, to_terminal: bool) -> (r: Option<String>)
    ensures
        match r {
            Some(s) => {
                &&& to_terminal
                &&& qr_drawing(target@) matches Some(drawing) && s@ == invitation(target@, drawing)
            },
            None => !to_terminal || {
                &&& qr_drawing(target@) is None
                &&& vstd::utf8::encode_utf8(target@).len() > 1663
            },
        },
{
    if !to_terminal {
        return None;
    }
    match draw(target) {
        Some(drawing) => Some(invite(target, drawing.as_str())),
        None => None,
    }
}

/// The invitation names what is opened and shows the whole drawing.
pub proof fn invitations_show_target_and_drawing(target: Seq<char>, drawing: Seq<char>)
    ensures
        invitation(target, drawing) == "\nscan to open "@ + target + ":\n"@ + drawing,
        invitation(target, drawing).skip(
            invitation(target, drawing).len() - drawing.len(),
        ) == drawing,
{
    let all = invitation(target, drawing);
    assert(all.skip(all.len() - drawing.len()) =~= drawing);
}

} // verus!
