//! Trusted bridge to regular-expression matching, used for content
//! heuristics.

use vstd::prelude::*;

verus! {

/// Whether a regular expression compiles.
pub uninterp spec fn regex_ok(pattern: Seq<char>) -> bool;

/// Whether a regular expression matches somewhere in a text; a pattern
/// that does not compile matches nothing.
pub uninterp spec fn regex_match(pattern: Seq<char>, text: Seq<char>) -> bool;

/// Relies on `regex::Regex::new`: whether a pattern compiles depends on
/// its text alone.
#[verifier::external_body]
pub fn regex_pattern_valid(pattern: &str) -> (r: bool)
    ensures
        r == regex_ok(pattern@),
{
    regex::Regex::new(pattern).is_ok()
}

/// Relies on `regex::Regex::new` and `regex::Regex::is_match`: whether a
/// pattern matches somewhere in a text depends on the two strings alone.
#[verifier::external_body]
pub fn regex_is_match(pattern: &str, text: &str) -> (r: bool)
    ensures
        r == regex_match(pattern@, text@),
{
    match regex::Regex::new(pattern) {
        Ok(re) => re.is_match(text),
        Err(_) => false,
    }
}

} // verus!
