//! Trusted bridge to shell-style glob matching.
//!
//! Paths are matched case-sensitively, `*` and `?` never cross a `/`
//! boundary, and a leading dot in a file name does not have to appear
//! literally in the pattern.

use vstd::prelude::*;

verus! {

/// Whether a glob pattern compiles.
pub uninterp spec fn glob_ok(pattern: Seq<char>) -> bool;

/// Whether a glob pattern matches a path, under this library's match
/// options; a pattern that does not compile matches nothing.
pub uninterp spec fn glob_match(pattern: Seq<char>, path: Seq<char>) -> bool;

/// Relies on `glob::Pattern::new`: whether a pattern compiles depends on
/// its text alone.
#[verifier::external_body]
pub fn glob_pattern_valid(pattern: &str) -> (r: bool)
    ensures
        r == glob_ok(pattern@),
{
    glob::Pattern::new(pattern).is_ok()
}

/// Relies on `glob::Pattern::new` and `glob::Pattern::matches_with`:
/// whether a pattern matches a path depends on the two strings alone.
/// The options are fixed: case-sensitive, a literal `/` is required to
/// cross a separator, and no literal leading dot is required.
#[verifier::external_body]
pub fn glob_matches(pattern: &str, path: &str) -> (r: bool)
    ensures
        r == glob_match(pattern@, path@),
{
    let options = glob::MatchOptions {
        case_sensitive: true,
        require_literal_separator: true,
        require_literal_leading_dot: false,
    };
    match glob::Pattern::new(pattern) {
        Ok(p) => p.matches_with(path, options),
        Err(_) => false,
    }
}

/// Whether any pattern of a set matches a path.
pub open spec fn any_glob_matches(globs: Seq<Seq<char>>, path: Seq<char>) -> bool {
    exists|i: int| 0 <= i < globs.len() && glob_match(globs[i], path)
}

/// Compares a path against every pattern of a set.
pub fn globs_match(globs: &Vec<String>, path: &str) -> (r: bool)
    ensures
        r == any_glob_matches(globs.deep_view(), path@),
{
    let mut i: usize = 0;
    while i < globs.len()
        invariant
            i <= globs.len(),
            forall|j: int| 0 <= j < i ==> !glob_match(globs.deep_view()[j], path@),
        decreases globs.len() - i,
    {
        if glob_matches(globs[i].as_str(), path) {
            proof {
                assert(globs.deep_view()[i as int] == globs@[i as int]@);
            }
            return true;
        }
        proof {
            assert(globs.deep_view()[i as int] == globs@[i as int]@);
        }
        i += 1;
    }
    false
}

} // verus!
