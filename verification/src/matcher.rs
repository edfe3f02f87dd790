//! The four matcher kinds: extension, filename, path glob and shebang.

use vstd::prelude::*;

use crate::filepath::path_extension;
use crate::filepath::path_filename;
use crate::filepath::spec_extension_or_empty;
use crate::filepath::spec_filename;
use crate::globs::any_glob_matches;
use crate::globs::globs_match;
use crate::shebang::shebang_interpreter;
use crate::shebang::spec_shebang_interpreter;
use crate::text::bytes_eq;

verus! {

/// Checks whether a file matches a language, by one of four signals.
#[derive(Debug)]
pub enum Matcher {
    Extension(Extension),
    Filename(Filename),
    FilepathPattern(FilepathPattern),
    Shebang(Shebang),
}

/// The mathematical value of a matcher.
pub enum MatcherView {
    Extension(Seq<Seq<char>>),
    Filename(Seq<Seq<char>>),
    FilepathPattern(Seq<Seq<char>>),
    Shebang(Seq<Seq<u8>>),
}

impl View for Matcher {
    type V = MatcherView;

    open spec fn view(&self) -> MatcherView {
        match self {
            Matcher::Extension(m) => MatcherView::Extension(m@),
            Matcher::Filename(m) => MatcherView::Filename(m@),
            Matcher::FilepathPattern(m) => MatcherView::FilepathPattern(m@),
            Matcher::Shebang(m) => MatcherView::Shebang(m@),
        }
    }
}

impl DeepView for Matcher {
    type V = MatcherView;

    open spec fn deep_view(&self) -> MatcherView {
        self.view()
    }
}

/// Whether a set of extensions matches a path's extension. A path without
/// an extension is matched by the empty extension.
pub open spec fn spec_ext_matches(exts: Seq<Seq<char>>, path: Seq<char>) -> bool {
    exists|i: int| 0 <= i < exts.len() && exts[i] == spec_extension_or_empty(path)
}

/// Whether a set of filenames matches a path's final component.
pub open spec fn spec_filename_matches(names: Seq<Seq<char>>, path: Seq<char>) -> bool {
    exists|i: int| 0 <= i < names.len() && names[i] == spec_filename(path)
}

/// Whether a set of glob patterns matches a path.
pub open spec fn spec_pattern_matches(pats: Seq<Seq<char>>, path: Seq<char>) -> bool {
    any_glob_matches(pats, path)
}

/// Whether a set of interpreters matches a file's shebang line.
pub open spec fn spec_shebang_matches(interps: Seq<Seq<u8>>, contents: Seq<u8>) -> bool {
    match spec_shebang_interpreter(contents) {
        Option::Some(t) => exists|i: int| 0 <= i < interps.len() && interps[i] == t,
        Option::None => false,
    }
}

/// Matches a file extension.
#[derive(Debug)]
pub struct Extension {
    pub extensions: Vec<String>,
}

impl View for Extension {
    type V = Seq<Seq<char>>;

    open spec fn view(&self) -> Seq<Seq<char>> {
        self.extensions.deep_view()
    }
}

impl Extension {
    /// Creates an extension matcher.
    pub fn new(extensions: Vec<String>) -> (r: Self)
        ensures
            r@ == extensions.deep_view(),
    {
        Extension { extensions }
    }

    /// Whether the path's extension is one of this matcher's extensions.
    pub fn matches(&self, path: &str) -> (r: bool)
        ensures
            r == spec_ext_matches(self@, path@),
    {
        let e = path_extension(path);
        contains_string(&self.extensions, &e)
    }
}

/// Matches a filename.
#[derive(Debug)]
pub struct Filename {
    pub filenames: Vec<String>,
}

impl View for Filename {
    type V = Seq<Seq<char>>;

    open spec fn view(&self) -> Seq<Seq<char>> {
        self.filenames.deep_view()
    }
}

impl Filename {
    /// Creates a filename matcher.
    pub fn new(filenames: Vec<String>) -> (r: Self)
        ensures
            r@ == filenames.deep_view(),
    {
        Filename { filenames }
    }

    /// Whether the path's final component is one of this matcher's names.
    pub fn matches(&self, path: &str) -> (r: bool)
        ensures
            r == spec_filename_matches(self@, path@),
    {
        let f = path_filename(path);
        contains_string(&self.filenames, &f)
    }
}

/// Matches a path against glob patterns.
#[derive(Debug)]
pub struct FilepathPattern {
    pub patterns: Vec<String>,
}

impl View for FilepathPattern {
    type V = Seq<Seq<char>>;

    open spec fn view(&self) -> Seq<Seq<char>> {
        self.patterns.deep_view()
    }
}

impl FilepathPattern {
    /// Creates a path-glob matcher.
    pub fn new(patterns: Vec<String>) -> (r: Self)
        ensures
            r@ == patterns.deep_view(),
    {
        FilepathPattern { patterns }
    }

    /// Whether any of this matcher's patterns matches the path.
    pub fn matches(&self, path: &str) -> (r: bool)
        ensures
            r == spec_pattern_matches(self@, path@),
    {
        globs_match(&self.patterns, path)
    }
}

/// The UTF-8 bytes of each name of a list.
pub open spec fn interps_bytes(names: Seq<Seq<char>>) -> Seq<Seq<u8>> {
    Seq::new(names.len(), |i: int| vstd::utf8::encode_utf8(names[i]))
}

/// Matches a shebang.
#[derive(Debug)]
pub struct Shebang {
    pub interpreters: Vec<Vec<u8>>,
}

impl View for Shebang {
    type V = Seq<Seq<u8>>;

    open spec fn view(&self) -> Seq<Seq<u8>> {
        self.interpreters.deep_view()
    }
}

impl Shebang {
    /// Creates a shebang matcher from interpreter names.
    pub fn new(interpreters: Vec<String>) -> (r: Self)
        ensures
            r@ == interps_bytes(interpreters.deep_view()),
    {
        let mut bytes: Vec<Vec<u8>> = Vec::new();
        let mut i: usize = 0;
        while i < interpreters.len()
            invariant
                i <= interpreters.len(),
                bytes@.len() == i,
                forall|j: int| #![auto]
                    0 <= j < i ==> bytes.deep_view()[j] == vstd::utf8::encode_utf8(
                        interpreters@[j]@,
                    ),
            decreases interpreters.len() - i,
        {
            let b = interpreters[i].as_str().as_bytes_vec();
            proof {
                assert(b.deep_view() =~= b@);
            }
            let ghost prev = bytes;
            bytes.push(b);
            proof {
                assert(forall|j: int| #![auto]
                    0 <= j < i ==> bytes.deep_view()[j] == prev.deep_view()[j]);
                assert(bytes.deep_view()[i as int] == b.deep_view());
            }
            i += 1;
        }
        let r = Shebang { interpreters: bytes };
        proof {
            assert(forall|j: int| #![auto]
                0 <= j < interpreters@.len() ==> interpreters.deep_view()[j] == interpreters@[j]@);
            assert(r@ =~= interps_bytes(interpreters.deep_view()));
        }
        r
    }

    /// Whether the file's shebang line names one of this matcher's
    /// interpreters.
    pub fn matches(&self, contents: &[u8]) -> (r: bool)
        ensures
            r == spec_shebang_matches(self@, contents@),
    {
        match shebang_interpreter(contents) {
            Option::Some(t) => {
                proof {
                    assert(t.deep_view() =~= t@);
                }
                let mut i: usize = 0;
                while i < self.interpreters.len()
                    invariant
                        i <= self.interpreters.len(),
                        spec_shebang_interpreter(contents@) == Option::Some(t.deep_view()),
                        t.deep_view() == t@,
                        forall|j: int| 0 <= j < i ==> self@[j] != t@,
                    decreases self.interpreters.len() - i,
                {
                    if bytes_eq(self.interpreters[i].as_slice(), t.as_slice()) {
                        proof {
                            assert(self@[i as int] == self.interpreters@[i as int]@);
                        }
                        return true;
                    }
                    proof {
                        assert(self@[i as int] == self.interpreters@[i as int]@);
                    }
                    i += 1;
                }
                false
            },
            Option::None => false,
        }
    }
}

/// Whether a list holds a given string.
fn contains_string(list: &Vec<String>, s: &String) -> (r: bool)
    ensures
        r == (exists|i: int| 0 <= i < list.deep_view().len() && list.deep_view()[i] == s@),
{
    let mut i: usize = 0;
    while i < list.len()
        invariant
            i <= list.len(),
            forall|j: int| 0 <= j < i ==> list.deep_view()[j] != s@,
        decreases list.len() - i,
    {
        if list[i].eq(s) {
            proof {
                assert(list.deep_view()[i as int] == list@[i as int]@);
            }
            return true;
        }
        proof {
            assert(list.deep_view()[i as int] == list@[i as int]@);
        }
        i += 1;
    }
    false
}

} // verus!
