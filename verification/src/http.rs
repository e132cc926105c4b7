//! HTTP status codes as text.

use vstd::prelude::*;

verus! {

/// The text that the `http` crate's `StatusCode` displays for a status
/// code: the code and its reason phrase.
pub uninterp spec fn status_display(code: u16) -> Seq<char>;

/// Displays a status code with `reqwest::StatusCode::from_u16` and
/// `to_string`.
#[verifier::external_body]
pub(crate) fn status_text(code: u16) -> (r: String)
    requires
        100 <= code <= 999,
    ensures
        r@ == status_display(code),
{
    reqwest::StatusCode::from_u16(code).map(|s| s.to_string()).unwrap_or_default()
}

} // verus!
