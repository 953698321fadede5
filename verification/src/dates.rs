//! Instants written as RFC 3339 text, read as Unix seconds.

use vstd::prelude::*;

verus! {

/// Unix seconds of the instant that `text` writes in RFC 3339, if it is one.
pub uninterp spec fn rfc3339_seconds(text: Seq<char>) -> Option<i64>;

/// Reads an RFC 3339 instant (`chrono::DateTime::parse_from_rfc3339`, its
/// error dropped) and gives its Unix seconds (`DateTime::timestamp`).
/// Claimed: the result is a function of the text alone.
#[verifier::external_body]
pub(crate) fn rfc3339_timestamp(text: &str) -> (r: Option<i64>)
    ensures
        r == rfc3339_seconds(text@),
{
    chrono::DateTime::parse_from_rfc3339(text).ok().map(|t| t.timestamp())
}

} // verus!
