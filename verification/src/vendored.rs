//! Guesses whether a file is vendored third-party code.

use vstd::prelude::*;

use crate::globs::any_glob_matches;
use crate::globs::globs_match;

verus! {

/// The built-in vendored-path globs.
pub open spec fn vendored_glob_list() -> Seq<Seq<char>> {
    seq!["**/node_modules/**"@, "**/tests/fixtures/**"@]
}

/// A file is vendored when its path matches a vendored-path glob; its
/// contents play no part.
pub open spec fn spec_vendored(globs: Seq<Seq<char>>, path: Seq<char>) -> bool {
    any_glob_matches(globs, path)
}

/// Detects vendored files by their path.
pub struct Vendored {
    pub globs: Vec<String>,
}

impl Vendored {
    /// Creates a detector with the built-in vendored-path globs.
    pub fn new() -> (r: Self)
        ensures
            r.globs.deep_view() == vendored_glob_list(),
    {
        let mut globs: Vec<String> = Vec::new();
        globs.push(String::from_str("**/node_modules/**"));
        globs.push(String::from_str("**/tests/fixtures/**"));
        proof {
            assert(globs.deep_view() =~= vendored_glob_list());
        }
        Vendored { globs }
    }

    /// Guesses if a file is vendored.
    pub fn is_vendored(&self, filepath: &str, contents: &[u8]) -> (r: bool)
        ensures
            r == spec_vendored(self.globs.deep_view(), filepath@),
    {
        self.is_vendored_no_read(filepath) || self.is_vendored_with_read(filepath, contents)
    }

    /// Whether the path matches a vendored-path glob.
    fn is_vendored_no_read(&self, filepath: &str) -> (r: bool)
        ensures
            r == spec_vendored(self.globs.deep_view(), filepath@),
    {
        globs_match(&self.globs, filepath)
    }

    /// No contents mark a file as vendored.
    fn is_vendored_with_read(&self, _filepath: &str, _contents: &[u8]) -> (r: bool)
        ensures
            r == false,
    {
        false
    }
}

} // verus!
