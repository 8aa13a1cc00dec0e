//! Regular-expression matching, done by the `regex` crate.
//!
//! Each operation takes the pattern text and the haystack.  What a regular
//! expression matches is the `regex` crate's business and is not restated
//! here: each result is named by an uninterpreted function of the pattern
//! and the haystack, since compiling and matching depend on those alone.
//! A pattern that does not compile matches nothing.
use vstd::prelude::*;

verus! {

/// Whether `pattern` matches somewhere in `text` (`Regex::is_match`).
pub uninterp spec fn regex_is_match(pattern: Seq<char>, text: Seq<char>) -> bool;

/// Capture group 1 of the first match of `pattern` in `text`, when there is
/// a match and the group took part in it (`Regex::captures` then `get(1)`).
pub uninterp spec fn regex_group1(pattern: Seq<char>, text: Seq<char>) -> Option<Seq<char>>;

/// The text of the first match of `pattern` in `text` (`Regex::find`).
pub uninterp spec fn regex_find(pattern: Seq<char>, text: Seq<char>) -> Option<Seq<char>>;

/// The number of successive non-overlapping matches of `pattern` in `text`
/// (`Regex::find_iter` counted).
pub uninterp spec fn regex_count(pattern: Seq<char>, text: Seq<char>) -> nat;

/// `Regex::new(pattern)` then `is_match(text)`; false when the pattern does
/// not compile.  The result is [`regex_is_match`] of the arguments.
#[verifier::external_body]
pub(crate) fn is_match(pattern: &str, text: &str) -> (r: bool)
    ensures
        r == regex_is_match(pattern@, text@),
{
    match regex::Regex::new(pattern) {
        Ok(re) => re.is_match(text),
        Err(_) => false,
    }
}

/// `Regex::new(pattern)`, `captures(text)` and its group 1, as an owned
/// string; `None` when the pattern does not compile.  The result is
/// [`regex_group1`] of the arguments.
#[verifier::external_body]
pub(crate) fn group1(pattern: &str, text: &str) -> (r: Option<String>)
    ensures
        match r {
            Some(s) => regex_group1(pattern@, text@) == Some(s@),
            None => regex_group1(pattern@, text@) is None,
        },
{
    match regex::Regex::new(pattern) {
        Ok(re) => re.captures(text).and_then(|c| c.get(1)).map(|m| m.as_str().to_string()),
        Err(_) => None,
    }
}

/// `Regex::new(pattern)` then `find(text)`, as an owned string; `None` when
/// the pattern does not compile.  The result is [`regex_find`] of the
/// arguments.
#[verifier::external_body]
pub(crate) fn find_first(pattern: &str, text: &str) -> (r: Option<String>)
    ensures
        match r {
            Some(s) => regex_find(pattern@, text@) == Some(s@),
            None => regex_find(pattern@, text@) is None,
        },
{
    match regex::Regex::new(pattern) {
        Ok(re) => re.find(text).map(|m| m.as_str().to_string()),
        Err(_) => None,
    }
}

/// `Regex::new(pattern)` then `find_iter(text).count()`; 0 when the pattern
/// does not compile.  The result is [`regex_count`] of the arguments.
#[verifier::external_body]
pub(crate) fn count_matches(pattern: &str, text: &str) -> (r: usize)
    ensures
        r as nat == regex_count(pattern@, text@),
{
    match regex::Regex::new(pattern) {
        Ok(re) => re.find_iter(text).count(),
        Err(_) => 0,
    }
}

} // verus!
