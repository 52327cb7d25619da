//! How the status of a response is written.
use crate::text;
use vstd::prelude::*;

verus! {

/// How `reqwest::StatusCode` writes a status.
pub uninterp spec fn status_text(status: u16) -> Seq<char>;

/// `reqwest::StatusCode::from_u16` and the `Display` of its result: the number,
/// a space and the reason phrase. Every number of three digits is a status.
#[verifier::external_body]
pub(crate) fn render_status(status: u16) -> (r: String)
    requires
        100 <= status <= 999,
    ensures
        r@ == status_text(status),
        text::starts_with(r@, text::decimal(status as nat) + " "@),
{
    reqwest::StatusCode::from_u16(status).unwrap().to_string()
}

} // verus!
