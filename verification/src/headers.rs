//! The header fields of a request on its way to the app.

use vstd::prelude::*;
use vstd::utf8;

verus! {

/// The host that the app sees: plain localhost, whatever the visitor used.
pub const APP_HOST: &'static str = "localhost";

/// `hyper::HeaderMap`: header fields by name, each with its values in order.
#[verifier::external_type_specification]
#[verifier::external_body]
#[verifier::reject_recursive_types(T)]
pub struct ExHeaderMap<T>(hyper::HeaderMap<T>);

/// `hyper::header::HeaderValue`: the value of a header field.
#[verifier::external_type_specification]
#[verifier::external_body]
pub struct ExHeaderValue(hyper::header::HeaderValue);

/// `hyper::header::MaxSizeReached`: the error of a header map that is full.
#[verifier::external_type_specification]
#[verifier::external_body]
pub struct ExMaxSizeReached(hyper::header::MaxSizeReached);

/// The values under each lowercase field name of a header map.
pub uninterp spec fn header_fields(
    headers: hyper::HeaderMap<hyper::header::HeaderValue>,
) -> Map<Seq<char>, Seq<Seq<u8>>>;

/// The characters that `HeaderValue::from_static` takes.
pub open spec fn is_visible(s: Seq<char>) -> bool {
    forall|i: int| 0 <= i < s.len() ==> ' ' <= #[trigger] s[i] <= '~'
}

/// `HeaderMap::try_insert` under the name `host`, of a value made with
/// `HeaderValue::from_static` (which panics on characters that are not
/// visible ASCII). The value replaces all that stood under the name; a map
/// that is full stays as it is. The map cannot be full with no more than 6553
/// names: from there on it depends on how well they hash.
#[verifier::external_body]
fn set_host(
    headers: &mut hyper::HeaderMap<hyper::header::HeaderValue>,
    value: &'static str,
) -> (r: Result<(), hyper::header::MaxSizeReached>)
    requires
        is_visible(value@),
    ensures
        r is Ok ==> header_fields(*final(headers)) == header_fields(*old(headers)).insert(
            "host"@,
            seq![utf8::encode_utf8(value@)],
        ),
        r is Err ==> header_fields(*final(headers)) == header_fields(*old(headers)),
        header_fields(*old(headers)).dom().finite() && header_fields(*old(headers)).dom().len()
            <= 6553 ==> r is Ok,
{
    headers.try_insert(
        hyper::header::HOST,
        hyper::header::HeaderValue::from_static(value),
    ).map(|_| ())
}

/// There are more header fields than can be handled.
#[derive(Debug, Clone, Copy)]
pub struct TooManyHeaders;

/// The far-side app sees plain localhost, not the host and port that the
/// visitor used: that is the one value of `host`, and the other fields stay
/// as they are. Fails only on a map of more than 6553 names.
pub fn rewrite_host(headers: &mut hyper::HeaderMap<hyper::header::HeaderValue>) -> (r: Result<
    (),
    TooManyHeaders,
>)
    ensures
        match r {
            Ok(()) => {
                &&& header_fields(*final(headers)) == header_fields(*old(headers)).insert(
                    "host"@,
                    seq![utf8::encode_utf8(APP_HOST@)],
                )
                &&& APP_HOST@ == "localhost"@
            },
            Err(_) => {
                &&& header_fields(*final(headers)) == header_fields(*old(headers))
                &&& !(header_fields(*old(headers)).dom().finite() && header_fields(
                    *old(headers),
                ).dom().len() <= 6553)
            },
        },
{
    proof {
        reveal_strlit("localhost");
    }
    match set_host(headers, APP_HOST) {
        Ok(()) => Ok(()),
        Err(_) => Err(TooManyHeaders),
    }
}

} // verus!
