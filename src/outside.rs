//! The calls this library makes into outside crates, each with the
//! contract the rest of the crate relies on.
use vstd::prelude::*;

verus! {

/// A parsed JSON document, carried through to the handlers unread.
#[verifier::external_type_specification]
#[verifier::external_body]
pub struct ExJsonValue(serde_json::Value);

/// Whether serde_json reads `b` as one complete JSON document.
pub uninterp spec fn json_accepts(b: Seq<u8>) -> bool;

/// Relies on `serde_json::from_slice::<serde_json::Value>`: it succeeds
/// exactly on the inputs it accepts as a JSON document (a function of the
/// bytes alone), and an empty input is an end-of-input error.
#[verifier::external_body]
pub(crate) fn parse_json(b: &[u8]) -> (r: Option<serde_json::Value>)
    ensures
        r is Some == json_accepts(b@),
        b@.len() == 0 ==> r is None,
{
    serde_json::from_slice::<serde_json::Value>(b).ok()
}

/// Characters whose UTF-8 bytes an HTTP header value admits: a tab, or
/// anything from the space upward except DEL (every byte of a non-ASCII
/// character is at least 0x80).
pub open spec fn is_header_char(c: char) -> bool {
    c == '\t' || (' ' <= c && c != '\u{7f}')
}

pub open spec fn is_header_text(s: Seq<char>) -> bool {
    forall|i: int| 0 <= i < s.len() ==> is_header_char(#[trigger] s[i])
}

/// Relies on `warp::http::HeaderValue::from_str`, which accepts a string
/// exactly when every byte is a tab or at least 32 and not 127.
#[verifier::external_body]
pub(crate) fn header_value_accepts(s: &str) -> (r: bool)
    ensures
        r == is_header_text(s@),
{
    warp::http::HeaderValue::from_str(s).is_ok()
}

} // verus!
