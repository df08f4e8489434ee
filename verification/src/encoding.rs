//! Percent-encoding of the query that goes into a redirect URL.

use rocket::http::RawStr;
use vstd::prelude::*;

verus! {

/// The percent-encoded form of a text: what `RawStr::percent_encode` of the
/// web framework returns for it.
pub uninterp spec fn percent_encoded(text: Seq<char>) -> Seq<char>;

/// `rocket::http::RawStr::percent_encode`: the result depends on the text
/// alone.
#[verifier::external_body]
pub(crate) fn percent_encode(text: &str) -> (encoded: String)
    ensures
        encoded@ == percent_encoded(text@),
{
    RawStr::new(text).percent_encode().to_string()
}

} // verus!
