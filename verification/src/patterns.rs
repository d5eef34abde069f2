//! Regular-expression searches, delegated to the `regex` crate.
//!
//! The meaning of a regular expression is the `regex` crate's; the library
//! refers to the outcome of a search by the names below, which depend on the
//! pattern text and the haystack alone.

use vstd::prelude::*;

verus! {

/// The outcome of searching `haystack` for `pattern` with `regex::Regex`:
/// `None` when the pattern does not compile, else whether a match exists.
pub uninterp spec fn regex_search(pattern: Seq<char>, haystack: Seq<char>) -> Option<bool>;

/// Capture group `group` of the first match of `pattern` in `haystack`:
/// `None` when the pattern does not compile, nothing matches, or the group
/// took no part in the match.
pub uninterp spec fn regex_first_group(pattern: Seq<char>, haystack: Seq<char>, group: nat) -> Option<
    Seq<char>,
>;

/// Capture group `group` of the last of the successive non-overlapping
/// matches of `pattern` in `haystack`, with the same `None` cases as
/// [`regex_first_group`].
pub uninterp spec fn regex_last_group(pattern: Seq<char>, haystack: Seq<char>, group: nat) -> Option<
    Seq<char>,
>;

/// `regex::Regex::new(pattern)` followed by `Regex::is_match(haystack)`.
/// The contract names the outcome; it claims only that the outcome is a
/// function of the pattern and the haystack.
#[verifier::external_body]
pub(crate) fn regex_is_match(pattern: &str, haystack: &str) -> (r: Option<bool>)
    ensures
        r == regex_search(pattern@, haystack@),
{
    match regex::Regex::new(pattern) {
        Ok(re) => Some(re.is_match(haystack)),
        Err(_) => None,
    }
}

/// `regex::Regex::new(pattern)`, then `Regex::captures(haystack)` and the
/// text of capture group `group`. The contract names the outcome.
#[verifier::external_body]
pub(crate) fn regex_first_capture(pattern: &str, haystack: &str, group: usize) -> (r: Option<
    String,
>)
    ensures
        r matches Some(s) ==> regex_first_group(pattern@, haystack@, group as nat) == Some(s@),
        r is None ==> regex_first_group(pattern@, haystack@, group as nat) is None,
{
    match regex::Regex::new(pattern) {
        Ok(re) => match re.captures(haystack) {
            Some(caps) => match caps.get(group) {
                Some(m) => Some(m.as_str().to_string()),
                None => None,
            },
            None => None,
        },
        Err(_) => None,
    }
}

/// `regex::Regex::new(pattern)`, then the last item of
/// `Regex::captures_iter(haystack)` and the text of capture group `group`.
/// The contract names the outcome.
#[verifier::external_body]
pub(crate) fn regex_last_capture(pattern: &str, haystack: &str, group: usize) -> (r: Option<
    String,
>)
    ensures
        r matches Some(s) ==> regex_last_group(pattern@, haystack@, group as nat) == Some(s@),
        r is None ==> regex_last_group(pattern@, haystack@, group as nat) is None,
{
    match regex::Regex::new(pattern) {
        Ok(re) => match re.captures_iter(haystack).last() {
            Some(caps) => match caps.get(group) {
                Some(m) => Some(m.as_str().to_string()),
                None => None,
            },
            None => None,
        },
        Err(_) => None,
    }
}

} // verus!
