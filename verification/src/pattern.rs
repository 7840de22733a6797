//! Regular-expression searches, made by the `regex` crate.
//!
//! What a search finds is not derived here: each result has a name, and the
//! contracts of the callers speak of it by that name. A pattern is compiled
//! for each search, so that the result depends on the two texts alone.

use vstd::prelude::*;

verus! {

/// Whether `pattern` is found in `haystack`: `None` where `pattern` does not
/// compile, otherwise whether some part of `haystack` matches it.
pub uninterp spec fn regex_search(pattern: Seq<char>, haystack: Seq<char>) -> Option<bool>;

/// The text of capture group `group` in the leftmost match of `pattern` in
/// `haystack`: `None` where `pattern` does not compile, nothing matches, or
/// the group took no part in the match.
pub uninterp spec fn regex_group(pattern: Seq<char>, haystack: Seq<char>, group: usize) -> Option<
    Seq<char>,
>;

/// The text of an optional string.
pub open spec fn text_of(s: Option<String>) -> Option<Seq<char>> {
    match s {
        Some(t) => Some(t@),
        None => None,
    }
}

/// Compiles `pattern` with `regex::Regex::new` and asks `Regex::is_match` for
/// `haystack`. The result is a function of the two texts alone, named
/// `regex_search`; a pattern that `Regex::new` rejects gives `None`. Nothing
/// more is claimed of it.
#[verifier::external_body]
pub(crate) fn search(pattern: &str, haystack: &str) -> (r: Option<bool>)
    ensures
        r == regex_search(pattern@, haystack@),
{
    match regex::Regex::new(pattern) {
        Ok(re) => Some(re.is_match(haystack)),
        Err(_) => None,
    }
}

/// Compiles `pattern` with `regex::Regex::new`, asks `Regex::captures` for the
/// leftmost match in `haystack` and `Captures::get` for one group of it. The
/// group's text is a function of the arguments alone, named `regex_group`;
/// a pattern that `Regex::new` rejects, a haystack without a match and a
/// group outside the match all give `None`. Nothing more is claimed of it.
#[verifier::external_body]
pub(crate) fn capture(pattern: &str, haystack: &str, group: usize) -> (r: Option<String>)
    ensures
        text_of(r) == regex_group(pattern@, haystack@, group),
{
    let re = match regex::Regex::new(pattern) {
        Ok(re) => re,
        Err(_) => return None,
    };
    match re.captures(haystack) {
        Some(found) => match found.get(group) {
            Some(part) => Some(part.as_str().to_string()),
            None => None,
        },
        None => None,
    }
}

} // verus!
