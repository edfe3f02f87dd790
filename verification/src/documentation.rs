//! Guesses whether a file is documentation.

use vstd::prelude::*;

use crate::globs::any_glob_matches;
use crate::globs::globs_match;

verus! {

/// The built-in documentation globs: documentation directories and
/// top-level README, CHANGELOG and HACKING files.
pub open spec fn documentation_glob_list() -> Seq<Seq<char>> {
    seq![
        "**/docs/**"@,
        "**/CHANGELOG"@,
        "**/CHANGELOG.*"@,
        "**/HACKING"@,
        "**/HACKING.*"@,
        "**/README"@,
        "**/README.*"@,
    ]
}

/// A file is documentation when its path matches a documentation glob; its
/// contents play no part.
pub open spec fn spec_documentation(globs: Seq<Seq<char>>, path: Seq<char>) -> bool {
    any_glob_matches(globs, path)
}

/// Detects documentation files by their path.
pub struct Documentation {
    pub globs: Vec<String>,
}

impl Documentation {
    /// Creates a detector with the built-in documentation globs.
    pub fn new() -> (r: Self)
        ensures
            r.globs.deep_view() == documentation_glob_list(),
    {
        let mut globs: Vec<String> = Vec::new();
        globs.push(String::from_str("**/docs/**"));
        globs.push(String::from_str("**/CHANGELOG"));
        globs.push(String::from_str("**/CHANGELOG.*"));
        globs.push(String::from_str("**/HACKING"));
        globs.push(String::from_str("**/HACKING.*"));
        globs.push(String::from_str("**/README"));
        globs.push(String::from_str("**/README.*"));
        proof {
            assert(globs.deep_view() =~= documentation_glob_list());
        }
        Documentation { globs }
    }

    /// Guesses if a file is documentation.
    pub fn is_documentation(&self, filepath: &str, contents: &[u8]) -> (r: bool)
        ensures
            r == spec_documentation(self.globs.deep_view(), filepath@),
    {
        self.is_documentation_no_read(filepath) || self.is_documentation_with_read(
            filepath,
            contents,
        )
    }

    /// Whether the path matches a documentation glob.
    fn is_documentation_no_read(&self, filepath: &str) -> (r: bool)
        ensures
            r == spec_documentation(self.globs.deep_view(), filepath@),
    {
        globs_match(&self.globs, filepath)
    }

    /// No contents mark a file as documentation.
    fn is_documentation_with_read(&self, _filepath: &str, _contents: &[u8]) -> (r: bool)
        ensures
            r == false,
    {
        false
    }
}

} // verus!
