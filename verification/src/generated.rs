//! Guesses whether a file is generated.

use vstd::prelude::*;

use crate::globs::any_glob_matches;
use crate::globs::globs_match;
use crate::filepath::path_filename;
use crate::filepath::spec_filename;
use crate::matcher::spec_filename_matches;
use crate::shebang::lemma_line_len_at;
use crate::shebang::spec_line_len;
use crate::text::str_eq;

verus! {

/// The built-in generated filenames.
pub open spec fn generated_filename_list() -> Seq<Seq<char>> {
    seq!["gradlew"@, "gradlew.bat"@]
}

/// The built-in generated globs: build output directories and minified
/// assets.
pub open spec fn generated_glob_list() -> Seq<Seq<char>> {
    seq!["dist/**"@, "**/*.min.css"@, "**/*.min.js"@, ".yarn/**"@, "**/migrations/*.py"@]
}

/// Whether one of the first `lines_left` lines is longer than 250 bytes.
pub open spec fn spec_any_long_line(c: Seq<u8>, lines_left: int) -> bool
    decreases lines_left,
{
    if lines_left <= 0 {
        false
    } else {
        let l = spec_line_len(c);
        if l > 250 {
            true
        } else if l < c.len() {
            spec_any_long_line(c.skip(l + 1), lines_left - 1)
        } else {
            false
        }
    }
}

/// Contents look minified when one of their first 10 lines is longer than
/// 250 bytes.
pub open spec fn spec_likely_minified(c: Seq<u8>) -> bool {
    spec_any_long_line(c, 10)
}

/// A file is generated when its name is a generated filename, its path
/// matches a generated glob, or its contents look minified.
pub open spec fn spec_generated(
    filenames: Seq<Seq<char>>,
    globs: Seq<Seq<char>>,
    path: Seq<char>,
    c: Seq<u8>,
) -> bool {
    spec_filename_matches(filenames, path) || any_glob_matches(globs, path)
        || spec_likely_minified(c)
}

/// Detects generated files by their path or contents.
pub struct Generated {
    pub filenames: Vec<String>,
    pub globs: Vec<String>,
}

impl Generated {
    /// Creates a detector with the built-in filename and glob lists.
    pub fn new() -> (r: Self)
        ensures
            r.filenames.deep_view() == generated_filename_list(),
            r.globs.deep_view() == generated_glob_list(),
    {
        let mut filenames: Vec<String> = Vec::new();
        filenames.push(String::from_str("gradlew"));
        filenames.push(String::from_str("gradlew.bat"));
        let mut globs: Vec<String> = Vec::new();
        globs.push(String::from_str("dist/**"));
        globs.push(String::from_str("**/*.min.css"));
        globs.push(String::from_str("**/*.min.js"));
        globs.push(String::from_str(".yarn/**"));
        globs.push(String::from_str("**/migrations/*.py"));
        proof {
            assert(filenames.deep_view() =~= generated_filename_list());
            assert(globs.deep_view() =~= generated_glob_list());
        }
        Generated { filenames, globs }
    }

    /// Guesses if a file is generated.
    pub fn is_generated(&self, filepath: &str, contents: &[u8]) -> (r: bool)
        ensures
            r == spec_generated(
                self.filenames.deep_view(),
                self.globs.deep_view(),
                filepath@,
                contents@,
            ),
    {
        self.is_generated_no_read(filepath) || self.is_generated_with_read(filepath, contents)
    }

    /// Whether the path alone marks the file as generated.
    fn is_generated_no_read(&self, filepath: &str) -> (r: bool)
        ensures
            r == (spec_filename_matches(self.filenames.deep_view(), filepath@)
                || any_glob_matches(self.globs.deep_view(), filepath@)),
    {
        self.matches_filenames(filepath) || self.matches_globs(filepath)
    }

    /// Whether the contents mark the file as generated.
    fn is_generated_with_read(&self, _filepath: &str, contents: &[u8]) -> (r: bool)
        ensures
            r == spec_likely_minified(contents@),
    {
        self.likely_minified(contents)
    }

    /// Whether the path's final component is a generated filename.
    fn matches_filenames(&self, filepath: &str) -> (r: bool)
        ensures
            r == spec_filename_matches(self.filenames.deep_view(), filepath@),
    {
        let f = path_filename(filepath);
        let mut i: usize = 0;
        while i < self.filenames.len()
            invariant
                i <= self.filenames@.len(),
                f@ == spec_filename(filepath@),
                forall|j: int| 0 <= j < i ==> self.filenames.deep_view()[j] != f@,
            decreases self.filenames@.len() - i,
        {
            proof {
                assert(self.filenames.deep_view()[i as int] == self.filenames@[i as int]@);
            }
            if str_eq(self.filenames[i].as_str(), f.as_str()) {
                return true;
            }
            i += 1;
        }
        false
    }

    /// Whether the path matches a generated glob.
    fn matches_globs(&self, filepath: &str) -> (r: bool)
        ensures
            r == any_glob_matches(self.globs.deep_view(), filepath@),
    {
        globs_match(&self.globs, filepath)
    }

    /// Whether one of the first 10 lines is longer than 250 bytes.
    #[verifier::loop_isolation(false)]
    pub fn likely_minified(&self, contents: &[u8]) -> (r: bool)
        ensures
            r == spec_likely_minified(contents@),
    {
        let mut pos: usize = 0;
        let mut lines: usize = 0;
        proof {
            assert(contents@.skip(0) =~= contents@);
        }
        while lines < 10
            invariant
                pos <= contents.len(),
                lines <= 10,
                spec_likely_minified(contents@) == spec_any_long_line(
                    contents@.skip(pos as int),
                    10 - lines,
                ),
            decreases 10 - lines,
        {
            let mut j: usize = pos;
            while j < contents.len() && contents[j] != 10
                invariant
                    pos <= j <= contents.len(),
                    forall|m: int| pos <= m < j ==> contents@[m] != 10,
                decreases contents.len() - j,
            {
                j += 1;
            }
            proof {
                lemma_line_len_at(contents@.skip(pos as int), j - pos);
            }
            if j - pos > 250 {
                return true;
            }
            if j == contents.len() {
                return false;
            }
            let ghost old_pos = pos as int;
            let ghost line = spec_line_len(contents@.skip(old_pos));
            pos = j + 1;
            proof {
                assert(contents@.skip(old_pos).skip(line + 1) =~= contents@.skip(pos as int));
            }
            lines += 1;
        }
        false
    }
}

} // verus!
