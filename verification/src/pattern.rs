//! Regular expressions.

use vstd::prelude::*;
use crate::text;

verus! {

/// Whether a pattern is a regular expression.
pub uninterp spec fn pattern_compiles(pattern: Seq<char>) -> bool;

/// `regex::Regex::new`: whether the pattern compiles. The result depends on the pattern alone.
#[verifier::external_body]
pub(crate) fn compiles(pattern: &str) -> (r: bool)
    ensures
        r == pattern_compiles(pattern@),
{
    regex::Regex::new(pattern).is_ok()
}

/// Whether a text has a match of a pattern.
pub uninterp spec fn pattern_matches(pattern: Seq<char>, text: Seq<char>) -> bool;

/// `regex::Regex::is_match` of the compiled pattern: whether there is a match anywhere in the
/// text. A pattern that does not compile matches nothing. The result depends on the pattern and
/// the text alone.
#[verifier::external_body]
pub(crate) fn matches_in(pattern: &str, text: &str) -> (r: bool)
    ensures
        r == pattern_matches(pattern@, text@),
{
    regex::Regex::new(pattern).map(|re| re.is_match(text)).unwrap_or(false)
}

/// The matches of a pattern in a text, in order.
pub uninterp spec fn pattern_found(pattern: Seq<char>, text: Seq<char>) -> Seq<Seq<char>>;

/// `regex::Regex::find_iter` of the compiled pattern: the successive matches in the text, which do
/// not overlap. A pattern that does not compile has none. The result depends on the pattern and
/// the text alone.
#[verifier::external_body]
pub(crate) fn find_all(pattern: &str, text: &str) -> (r: Vec<String>)
    ensures
        text::views(r@) == pattern_found(pattern@, text@),
{
    match regex::Regex::new(pattern) {
        Ok(re) => re.find_iter(text).map(|m| m.as_str().to_string()).collect(),
        Err(_) => Vec::new(),
    }
}

} // verus!
