//! Language detection for collections of files.
//!
//! A registry of language definitions is matched against each file's path and
//! contents to resolve a single language per file, classify the file as
//! generated, documentation or vendored, and aggregate per-language sizes.

use vstd::prelude::*;

pub mod analysis;
pub mod analyzer;
pub mod binary;
pub mod builder;
pub mod documentation;
pub mod error;
pub mod filepath;
pub mod generated;
pub mod globs;
pub mod language;
pub mod matcher;
pub mod regexes;
pub mod shebang;
pub mod text;
pub mod vendored;

pub use analyzer::Analyzers;
pub use analyzer::Found;
pub use builder::Builder;
pub use error::Error;
pub use error::ErrorKind;
pub use language::Category;
pub use language::LanguageOld;
pub use language::ParseError;

use analyzer::spec_find_key;
use analyzer::spec_pick;
use analyzer::AnalyzerView;
use binary::spec_is_binary;
use binary::Binary;
use documentation::spec_documentation;
use documentation::Documentation;
use generated::spec_generated;
use generated::Generated;
use language::spec_detectable_by_default;
use language::LanguageView;
use text::lower_of;
use vendored::spec_vendored;
use vendored::Vendored;

verus! {

/// Externally supplied per-path overrides; each field is independently
/// optional.
#[derive(Debug)]
pub struct Overrides {
    pub language: Option<String>,
    pub is_documentation: Option<bool>,
    pub is_generated: Option<bool>,
    pub is_vendored: Option<bool>,
    pub is_detectable: Option<bool>,
}

/// The mathematical value of an override set.
pub struct OverridesView {
    pub language: Option<Seq<char>>,
    pub is_documentation: Option<bool>,
    pub is_generated: Option<bool>,
    pub is_vendored: Option<bool>,
    pub is_detectable: Option<bool>,
}

impl View for Overrides {
    type V = OverridesView;

    open spec fn view(&self) -> OverridesView {
        OverridesView {
            language: self.language.deep_view(),
            is_documentation: self.is_documentation,
            is_generated: self.is_generated,
            is_vendored: self.is_vendored,
            is_detectable: self.is_detectable,
        }
    }
}

impl DeepView for Overrides {
    type V = OverridesView;

    open spec fn deep_view(&self) -> OverridesView {
        self.view()
    }
}

impl Default for Overrides {
    /// An override set that overrides nothing.
    fn default() -> (r: Self)
        ensures
            r@.language is None,
            r@.is_documentation is None,
            r@.is_generated is None,
            r@.is_vendored is None,
            r@.is_detectable is None,
    {
        Overrides {
            language: Option::None,
            is_documentation: Option::None,
            is_generated: Option::None,
            is_vendored: Option::None,
            is_detectable: Option::None,
        }
    }
}

/// One file handed to the analysis: its path, contents and overrides.
#[derive(Debug)]
pub struct FileRecord {
    pub path: String,
    pub contents: Vec<u8>,
    pub overrides: Overrides,
}

/// The mathematical value of a file record.
pub struct FileRecordView {
    pub path: Seq<char>,
    pub contents: Seq<u8>,
    pub overrides: OverridesView,
}

impl View for FileRecord {
    type V = FileRecordView;

    open spec fn view(&self) -> FileRecordView {
        FileRecordView {
            path: self.path@,
            contents: self.contents@,
            overrides: self.overrides@,
        }
    }
}

impl DeepView for FileRecord {
    type V = FileRecordView;

    open spec fn deep_view(&self) -> FileRecordView {
        self.view()
    }
}

/// A single entry in the language statistics.
#[derive(Debug, PartialEq)]
pub struct Entry {
    pub language: LanguageOld,
    pub size: usize,
    pub detectable: bool,
    pub generated: bool,
    pub documentation: bool,
    pub vendored: bool,
}

/// The mathematical value of an entry.
pub struct EntryView {
    pub language: LanguageView,
    pub size: int,
    pub detectable: bool,
    pub generated: bool,
    pub documentation: bool,
    pub vendored: bool,
}

impl View for Entry {
    type V = EntryView;

    open spec fn view(&self) -> EntryView {
        EntryView {
            language: self.language@,
            size: self.size as int,
            detectable: self.detectable,
            generated: self.generated,
            documentation: self.documentation,
            vendored: self.vendored,
        }
    }
}

impl DeepView for Entry {
    type V = EntryView;

    open spec fn deep_view(&self) -> EntryView {
        self.view()
    }
}

impl Entry {
    /// The detected language.
    pub fn language(&self) -> (r: &LanguageOld)
        ensures
            r@ == self@.language,
    {
        &self.language
    }

    /// The size of the file.
    pub fn size(&self) -> (r: usize)
        ensures
            r == self@.size,
    {
        self.size
    }

    /// If the file is detectable (should not be ignored).
    pub fn detectable(&self) -> (r: bool)
        ensures
            r == self@.detectable,
    {
        self.detectable
    }

    /// If the file was generated.
    pub fn generated(&self) -> (r: bool)
        ensures
            r == self@.generated,
    {
        self.generated
    }

    /// If the file is documentation.
    pub fn documentation(&self) -> (r: bool)
        ensures
            r == self@.documentation,
    {
        self.documentation
    }

    /// If the file is vendored.
    pub fn vendored(&self) -> (r: bool)
        ensures
            r == self@.vendored,
    {
        self.vendored
    }
}

/// The main entry point: a registry, a read limit, and the auxiliary
/// classifiers.
pub struct Gengo {
    pub analyzers: Analyzers,
    pub read_limit: usize,
    pub binary: Binary,
    pub documentation: Documentation,
    pub generated: Generated,
    pub vendored: Vendored,
}

/// The mathematical value of an analysis configuration.
pub struct GengoView {
    pub reg: Seq<AnalyzerView>,
    pub read_limit: int,
    pub bin_limit: int,
    pub gen_filenames: Seq<Seq<char>>,
    pub gen_globs: Seq<Seq<char>>,
    pub doc_globs: Seq<Seq<char>>,
    pub vendored_globs: Seq<Seq<char>>,
}

impl View for Gengo {
    type V = GengoView;

    open spec fn view(&self) -> GengoView {
        GengoView {
            reg: self.analyzers@,
            read_limit: self.read_limit as int,
            bin_limit: self.binary.read_limit as int,
            gen_filenames: self.generated.filenames.deep_view(),
            gen_globs: self.generated.globs.deep_view(),
            doc_globs: self.documentation.globs.deep_view(),
            vendored_globs: self.vendored.globs.deep_view(),
        }
    }
}

/// An optional boolean, or its default.
pub open spec fn spec_opt_bool(o: Option<bool>, d: bool) -> bool {
    match o {
        Option::Some(b) => b,
        Option::None => d,
    }
}

/// The registry index of a file's language: the language override when its
/// name is known to the registry, else the resolution of path and contents.
pub open spec fn spec_language_index(
    g: GengoView,
    path: Seq<char>,
    contents: Seq<u8>,
    ov: OverridesView,
) -> Option<int> {
    match ov.language {
        Option::Some(name) => match spec_find_key(g.reg, lower_of(name)) {
            Option::Some(i) => Option::Some(i),
            Option::None => spec_pick(g.reg, path, contents, g.read_limit),
        },
        Option::None => spec_pick(g.reg, path, contents, g.read_limit),
    }
}

/// The detectability rule: Data and Prose files are never detectable; all
/// others are detectable unless generated, documentation or vendored.
pub open spec fn spec_detectable_rule(
    c: Category,
    generated: bool,
    documentation: bool,
    vendored: bool,
) -> bool {
    if spec_detectable_by_default(c) {
        !(generated || documentation || vendored)
    } else {
        false
    }
}

/// The entry a file analyzes to, if any: binary files and files with no
/// resolvable language give none. Overridden fields are used verbatim; the
/// rest are computed, and detectability is derived last.
pub open spec fn spec_entry(
    g: GengoView,
    path: Seq<char>,
    contents: Seq<u8>,
    ov: OverridesView,
) -> Option<EntryView> {
    if spec_is_binary(g.bin_limit, contents) {
        Option::None
    } else {
        match spec_language_index(g, path, contents, ov) {
            Option::None => Option::None,
            Option::Some(i) => {
                let language = g.reg[i].language;
                let generated = spec_opt_bool(
                    ov.is_generated,
                    spec_generated(g.gen_filenames, g.gen_globs, path, contents),
                );
                let documentation = spec_opt_bool(
                    ov.is_documentation,
                    spec_documentation(g.doc_globs, path),
                );
                let vendored = spec_opt_bool(ov.is_vendored, spec_vendored(g.vendored_globs, path));
                let detectable = spec_opt_bool(
                    ov.is_detectable,
                    spec_detectable_rule(language.category, generated, documentation, vendored),
                );
                Option::Some(
                    EntryView {
                        language,
                        size: contents.len() as int,
                        detectable,
                        generated,
                        documentation,
                        vendored,
                    },
                )
            },
        }
    }
}

impl Gengo {
    /// Analyzes one file: resolves its language, classifies it, and applies
    /// the overrides and the detectability rule.
    pub fn analyze_blob(&self, filepath: &str, contents: &[u8], overrides: &Overrides) -> (r:
        Option<Entry>)
        ensures
            r.deep_view() == spec_entry(self@, filepath@, contents@, overrides@),
    {
        if self.binary.is_binary(filepath, contents) {
            return Option::None;
        }
        let lang: Option<&LanguageOld> = match &overrides.language {
            Option::Some(name) => match self.analyzers.get(name.as_str()) {
                Option::Some(l) => Option::Some(l),
                Option::None => self.analyzers.pick(filepath, contents, self.read_limit),
            },
            Option::None => self.analyzers.pick(filepath, contents, self.read_limit),
        };
        let language = match lang {
            Option::Some(l) => l.clone(),
            Option::None => {
                return Option::None;
            },
        };
        let generated = match overrides.is_generated {
            Option::Some(b) => b,
            Option::None => self.generated.is_generated(filepath, contents),
        };
        let documentation = match overrides.is_documentation {
            Option::Some(b) => b,
            Option::None => self.documentation.is_documentation(filepath, contents),
        };
        let vendored = match overrides.is_vendored {
            Option::Some(b) => b,
            Option::None => self.vendored.is_vendored(filepath, contents),
        };
        let computed = if language.category().detectable_by_default() {
            !(generated || documentation || vendored)
        } else {
            false
        };
        let detectable = match overrides.is_detectable {
            Option::Some(b) => b,
            Option::None => computed,
        };
        let size = contents.len();
        Option::Some(Entry { language, size, detectable, generated, documentation, vendored })
    }

    /// Guesses if a file is generated.
    pub fn is_generated(&self, filepath: &str, contents: &[u8]) -> (r: bool)
        ensures
            r == spec_generated(self@.gen_filenames, self@.gen_globs, filepath@, contents@),
    {
        self.generated.is_generated(filepath, contents)
    }

    /// Guesses if a file is documentation.
    pub fn is_documentation(&self, filepath: &str, contents: &[u8]) -> (r: bool)
        ensures
            r == spec_documentation(self@.doc_globs, filepath@),
    {
        self.documentation.is_documentation(filepath, contents)
    }

    /// Guesses if a file is vendored.
    pub fn is_vendored(&self, filepath: &str, contents: &[u8]) -> (r: bool)
        ensures
            r == spec_vendored(self@.vendored_globs, filepath@),
    {
        self.vendored.is_vendored(filepath, contents)
    }

    /// Guesses if a file is binary.
    pub fn is_binary(&self, filepath: &str, contents: &[u8]) -> (r: bool)
        ensures
            r == spec_is_binary(self@.bin_limit, contents@),
    {
        self.binary.is_binary(filepath, contents)
    }
}

} // verus!

use analysis::Analysis;

verus! {

/// The analysis of a file list: entries for the classified files, in list
/// order; binary files and files with no resolvable language are left out.
pub open spec fn spec_analysis(g: GengoView, files: Seq<FileRecordView>) -> Seq<
    (Seq<char>, EntryView),
>
    decreases files.len(),
{
    if files.len() == 0 {
        Seq::empty()
    } else {
        let rest = spec_analysis(g, files.drop_last());
        let f = files.last();
        match spec_entry(g, f.path, f.contents, f.overrides) {
            Option::Some(e) => rest.push((f.path, e)),
            Option::None => rest,
        }
    }
}

impl Gengo {
    /// Analyzes each file of a list; paths must be distinct.
    #[verifier::loop_isolation(false)]
    pub fn analyze(&self, files: &Vec<FileRecord>) -> (r: Analysis)
        requires
            forall|i: int, j: int|
                0 <= i < j < files.deep_view().len() ==> (#[trigger] files.deep_view()[i].path)
                    != (#[trigger] files.deep_view()[j].path),
        ensures
            r@ == spec_analysis(self@, files.deep_view()),
    {
        let ghost fv = files.deep_view();
        let mut out: Vec<(String, Entry)> = Vec::new();
        let mut i: usize = 0;
        proof {
            assert(fv.take(0) =~= Seq::<FileRecordView>::empty());
        }
        while i < files.len()
            invariant
                i <= files@.len(),
                Seq::new(out@.len(), |m: int| (out@[m].0@, out@[m].1@)) == spec_analysis(
                    self@,
                    fv.take(i as int),
                ),
            decreases files@.len() - i,
        {
            let ghost prev = Seq::new(out@.len(), |m: int| (out@[m].0@, out@[m].1@));
            proof {
                assert(fv.take(i + 1).drop_last() =~= fv.take(i as int));
                assert(fv.take(i + 1).last() == fv[i as int]);
                assert(fv[i as int] == files@[i as int].deep_view());
            }
            let f = &files[i];
            let entry = self.analyze_blob(f.path.as_str(), f.contents.as_slice(), &f.overrides);
            match entry {
                Option::Some(e) => {
                    let ghost ev = e.deep_view();
                    out.push((f.path.clone(), e));
                    proof {
                        assert(Seq::new(out@.len(), |m: int| (out@[m].0@, out@[m].1@)) =~= prev.push(
                            (fv[i as int].path, ev),
                        ));
                    }
                },
                Option::None => {},
            }
            i += 1;
        }
        proof {
            assert(fv.take(files@.len() as int) =~= fv);
        }
        Analysis(out)
    }
}

} // verus!

verus! {

/// A file whose generated flag is set, and whose detectability is not
/// overridden, is never detectable, whatever its category and other flags.
pub proof fn lemma_generated_not_detectable(
    g: GengoView,
    path: Seq<char>,
    contents: Seq<u8>,
    ov: OverridesView,
    e: EntryView,
)
    requires
        ov.is_detectable is None,
        spec_entry(g, path, contents, ov) == Option::Some(e),
        e.generated,
    ensures
        !e.detectable,
{
}

/// Analyzing the same path and contents twice, with one configuration and
/// one override set, yields identical entries.
pub proof fn lemma_analysis_idempotent(
    g: GengoView,
    path: Seq<char>,
    contents: Seq<u8>,
    ov: OverridesView,
    e1: Option<EntryView>,
    e2: Option<EntryView>,
)
    requires
        e1 == spec_entry(g, path, contents, ov),
        e2 == spec_entry(g, path, contents, ov),
    ensures
        e1 == e2,
{
}

/// A language override whose name the registry knows fixes the entry's
/// language outright: a non-binary file always gets an entry, and its
/// language is the override's, whatever path and contents would have
/// resolved to.
pub proof fn lemma_override_language_verbatim(
    g: GengoView,
    path: Seq<char>,
    contents: Seq<u8>,
    ov: OverridesView,
    name: Seq<char>,
    i: int,
)
    requires
        ov.language == Option::Some(name),
        spec_find_key(g.reg, lower_of(name)) == Option::Some(i),
        !spec_is_binary(g.bin_limit, contents),
    ensures
        spec_entry(g, path, contents, ov) matches Option::Some(e) && e.language
            == g.reg[i].language,
{
}

} // verus!
