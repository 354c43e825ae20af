//! The URI syntax check, which is left to `actix_web::http::Uri`.

use vstd::prelude::*;
use std::str::FromStr;

verus! {

/// Whether `actix_web::http::Uri` parses from `text`.
pub uninterp spec fn is_uri(text: Seq<char>) -> bool;

/// Calls `Uri::from_str` of `actix_web::http` on `text` and says whether it
/// returned a URI. The contract claims that the parser's verdict depends on
/// the text alone. Nothing is claimed about which texts it takes.
#[verifier::external_body]
pub(crate) fn uri_parses(text: &str) -> (ok: bool)
    ensures
        ok == is_uri(text@),
{
    actix_web::http::Uri::from_str(text).is_ok()
}

} // verus!
