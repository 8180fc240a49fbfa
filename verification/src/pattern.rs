//! Regular expressions, as the `regex` crate reads and runs them.

use vstd::prelude::*;

verus! {

/// What the regular expression `pattern` finds in `text`: `None` where
/// `pattern` is no expression that the `regex` crate builds, else whether
/// the expression matches somewhere in `text`.
pub uninterp spec fn regex_match(pattern: Seq<char>, text: Seq<char>) -> Option<bool>;

/// Builds `pattern` with `regex::Regex::new` and asks `Regex::is_match` for
/// `text`. Both go by the two texts alone: the same pattern and text give
/// the same answer every time, which is all that is claimed here.
#[verifier::external_body]
pub(crate) fn regex_is_match(pattern: &str, text: &str) -> (found: Option<bool>)
    ensures
        found == regex_match(pattern@, text@),
{
    match regex::Regex::new(pattern) {
        Ok(expression) => Some(expression.is_match(text)),
        Err(_) => None,
    }
}

/// Whether `pattern` is a regular expression that matches somewhere in
/// `text`.
pub open spec fn is_found(pattern: Seq<char>, text: Seq<char>) -> bool {
    regex_match(pattern, text) == Some(true)
}

/// Tells whether `pattern` is a regular expression that matches somewhere in
/// `text`. A pattern that is no regular expression matches nowhere.
pub fn is_match(pattern: &str, text: &str) -> (found: bool)
    ensures
        found == is_found(pattern@, text@),
{
    match regex_is_match(pattern, text) {
        Some(found) => found,
        None => false,
    }
}

} // verus!
