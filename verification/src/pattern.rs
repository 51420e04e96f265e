//! Regular-expression matching for constraint filters, supplied by the
//! regex crate behind a trusted boundary.

use vstd::prelude::*;

verus! {

/// Whether `pattern` is a regular expression that the regex crate accepts.
pub uninterp spec fn regex_valid(pattern: Seq<char>) -> bool;

/// Whether the valid regular expression `pattern` matches somewhere inside
/// `text`; a function of the two strings alone.
pub uninterp spec fn regex_matches(pattern: Seq<char>, text: Seq<char>) -> bool;

/// Relies on regex::Regex::new, which returns Ok exactly on the patterns the
/// crate accepts, and on regex::Regex::is_match, whose result depends only on
/// the compiled pattern and the text searched.
#[verifier::external_body]
pub(crate) fn regex_match(pattern: &String, text: &String) -> (r: Option<bool>)
    ensures
        r is Some <==> regex_valid(pattern@),
        r is Some ==> r->0 == regex_matches(pattern@, text@),
{
    match regex::Regex::new(pattern) {
        Ok(re) => Some(re.is_match(text)),
        Err(_) => None,
    }
}

} // verus!
