//! The language registry and the resolution algorithm.
//!
//! A registry is an ordered list of analyzers, one per language. Resolution
//! narrows the registry down to one language in three stages: cheap signals
//! (shebang, filename, path glob, extension), content heuristics, and a
//! priority tie-break. Equal priorities resolve to the earliest definition
//! in registry order.

use vstd::prelude::*;

use crate::globs::glob_pattern_valid;
use crate::language::Category;
use crate::language::LanguageOld;
use crate::language::LanguageView;
use crate::matcher::interps_bytes;
use crate::matcher::spec_ext_matches;
use crate::matcher::spec_filename_matches;
use crate::matcher::spec_pattern_matches;
use crate::matcher::spec_shebang_matches;
use crate::matcher::Extension;
use crate::matcher::Filename;
use crate::matcher::FilepathPattern;
use crate::matcher::Matcher;
use crate::matcher::MatcherView;
use crate::matcher::Shebang;
use crate::regexes::regex_match;
use crate::regexes::regex_pattern_valid;
use crate::text::decode_lossy;
use crate::text::lossy_utf8;
use crate::text::lower_of;
use crate::text::str_eq;
use crate::text::to_lowercase;

verus! {

/// The default priority of a language definition.
pub fn default_priority() -> (r: u8)
    ensures
        r == 50,
{
    50
}

/// A parsed language definition, as the registry schema gives it.
pub struct AnalyzerDef {
    pub name: String,
    pub category: Category,
    pub color: String,
    pub extensions: Vec<String>,
    pub filenames: Vec<String>,
    pub patterns: Vec<String>,
    pub interpreters: Vec<String>,
    pub heuristics: Vec<String>,
    pub priority: Option<u8>,
}

/// The mathematical value of a language definition.
pub struct AnalyzerDefView {
    pub name: Seq<char>,
    pub category: Category,
    pub color: Seq<char>,
    pub extensions: Seq<Seq<char>>,
    pub filenames: Seq<Seq<char>>,
    pub patterns: Seq<Seq<char>>,
    pub interpreters: Seq<Seq<char>>,
    pub heuristics: Seq<Seq<char>>,
    pub priority: Option<u8>,
}

impl View for AnalyzerDef {
    type V = AnalyzerDefView;

    open spec fn view(&self) -> AnalyzerDefView {
        AnalyzerDefView {
            name: self.name@,
            category: self.category,
            color: self.color@,
            extensions: self.extensions.deep_view(),
            filenames: self.filenames.deep_view(),
            patterns: self.patterns.deep_view(),
            interpreters: self.interpreters.deep_view(),
            heuristics: self.heuristics.deep_view(),
            priority: self.priority,
        }
    }
}

impl DeepView for AnalyzerDef {
    type V = AnalyzerDefView;

    open spec fn deep_view(&self) -> AnalyzerDefView {
        self.view()
    }
}

/// One language with its matchers, heuristics and priority.
#[derive(Debug)]
pub struct Analyzer {
    pub key: String,
    pub language: LanguageOld,
    pub matchers: Vec<Matcher>,
    pub heuristics: Vec<String>,
    pub priority: u8,
}

/// The mathematical value of an analyzer.
pub struct AnalyzerView {
    pub key: Seq<char>,
    pub language: LanguageView,
    pub matchers: Seq<MatcherView>,
    pub heuristics: Seq<Seq<char>>,
    pub priority: u8,
}

impl View for Analyzer {
    type V = AnalyzerView;

    open spec fn view(&self) -> AnalyzerView {
        AnalyzerView {
            key: self.key@,
            language: self.language@,
            matchers: self.matchers.deep_view(),
            heuristics: self.heuristics.deep_view(),
            priority: self.priority,
        }
    }
}

impl DeepView for Analyzer {
    type V = AnalyzerView;

    open spec fn deep_view(&self) -> AnalyzerView {
        self.view()
    }
}

/// Why a registry could not be built.
#[derive(Debug)]
pub enum RegistryLoadError {
    /// Two definitions share one case-insensitive name.
    DuplicateLanguage(String),
    /// A path glob pattern does not compile.
    InvalidGlob(String),
    /// A heuristic regular expression does not compile.
    InvalidRegex(String),
    /// A priority lies outside 0 to 100.
    InvalidPriority(String),
}

/// A well-formed definition: priority in range, globs and regexes compile.
pub open spec fn def_wf(d: AnalyzerDefView) -> bool {
    &&& match d.priority {
        Option::Some(p) => p <= 100,
        Option::None => true,
    }
    &&& forall|i: int| 0 <= i < d.patterns.len() ==> crate::globs::glob_ok(#[trigger] d.patterns[i])
    &&& forall|i: int|
        0 <= i < d.heuristics.len() ==> crate::regexes::regex_ok(#[trigger] d.heuristics[i])
}

/// A well-formed definition list: every definition well formed, and no two
/// names equal once lowercased.
pub open spec fn defs_wf(defs: Seq<AnalyzerDefView>) -> bool {
    &&& forall|i: int| 0 <= i < defs.len() ==> def_wf(#[trigger] defs[i])
    &&& forall|i: int, j: int|
        0 <= i < j < defs.len() ==> lower_of(#[trigger] defs[i].name) != lower_of(
            #[trigger] defs[j].name,
        )
}

/// The matchers a definition gives rise to, in a fixed order; a matcher
/// kind with no entries is left out.
pub open spec fn build_matchers(d: AnalyzerDefView) -> Seq<MatcherView> {
    let s0: Seq<MatcherView> = if d.extensions.len() > 0 {
        seq![MatcherView::Extension(d.extensions)]
    } else {
        Seq::empty()
    };
    let s1: Seq<MatcherView> = if d.filenames.len() > 0 {
        s0 + seq![MatcherView::Filename(d.filenames)]
    } else {
        s0
    };
    let s2: Seq<MatcherView> = if d.patterns.len() > 0 {
        s1 + seq![MatcherView::FilepathPattern(d.patterns)]
    } else {
        s1
    };
    if d.interpreters.len() > 0 {
        s2 + seq![MatcherView::Shebang(interps_bytes(d.interpreters))]
    } else {
        s2
    }
}

/// The analyzer a definition builds.
pub open spec fn build_analyzer(d: AnalyzerDefView) -> AnalyzerView {
    AnalyzerView {
        key: lower_of(d.name),
        language: LanguageView { name: d.name, category: d.category, color: d.color },
        matchers: build_matchers(d),
        heuristics: d.heuristics,
        priority: match d.priority {
            Option::Some(p) => p,
            Option::None => 50,
        },
    }
}

/// The registry a definition list builds, in declaration order.
pub open spec fn build_registry(defs: Seq<AnalyzerDefView>) -> Seq<AnalyzerView> {
    Seq::new(defs.len(), |i: int| build_analyzer(defs[i]))
}

/// The result of a matching pass: no language, one, or several.
#[derive(Debug)]
pub enum Found {
    Empty,
    /// A key to get a language.
    One(String),
    /// Multiple keys to get languages; always at least two.
    Multiple(Vec<String>),
}

impl View for Found {
    type V = Seq<Seq<char>>;

    open spec fn view(&self) -> Seq<Seq<char>> {
        match self {
            Found::Empty => Seq::empty(),
            Found::One(name) => seq![name@],
            Found::Multiple(names) => names.deep_view(),
        }
    }
}

impl Found {
    /// The first found key, if any.
    pub fn first(&self) -> (r: Option<&str>)
        ensures
            match r {
                Option::Some(s) => self@.len() > 0 && s@ == self@[0],
                Option::None => self@.len() == 0,
            },
    {
        match self {
            Found::Empty => Option::None,
            Found::One(name) => Option::Some(name.as_str()),
            Found::Multiple(names) => {
                if names.len() > 0 {
                    proof {
                        assert(names.deep_view()[0] == names@[0]@);
                    }
                    Option::Some(names[0].as_str())
                } else {
                    Option::None
                }
            },
        }
    }

    /// How many keys were found.
    pub fn len(&self) -> (r: usize)
        ensures
            r == self@.len(),
    {
        match self {
            Found::Empty => 0,
            Found::One(_) => 1,
            Found::Multiple(names) => names.len(),
        }
    }

    /// Whether nothing was found.
    pub fn is_empty(&self) -> (r: bool)
        ensures
            r == (*self is Empty),
    {
        match self {
            Found::Empty => true,
            Found::One(_) => false,
            Found::Multiple(_) => false,
        }
    }
}

/// Wraps a list of keys as a `Found`.
fn found_from_names(names: Vec<String>) -> (r: Found)
    ensures
        r@ == names.deep_view(),
        r is Empty <==> names.deep_view().len() == 0,
{
    if names.len() == 0 {
        proof {
            assert(names.deep_view() =~= Seq::<Seq<char>>::empty());
        }
        Found::Empty
    } else if names.len() == 1 {
        let ghost orig = names.deep_view();
        let mut names = names;
        let n = names.pop().unwrap();
        proof {
            assert(orig =~= seq![n@]);
        }
        Found::One(n)
    } else {
        Found::Multiple(names)
    }
}

} // verus!

verus! {

/// Whether one matcher matches by extension.
pub open spec fn m_ext_match(m: MatcherView, path: Seq<char>) -> bool {
    m matches MatcherView::Extension(exts) && spec_ext_matches(exts, path)
}

/// Whether one matcher matches by filename.
pub open spec fn m_filename_match(m: MatcherView, path: Seq<char>) -> bool {
    m matches MatcherView::Filename(names) && spec_filename_matches(names, path)
}

/// Whether one matcher matches by path glob.
pub open spec fn m_pattern_match(m: MatcherView, path: Seq<char>) -> bool {
    m matches MatcherView::FilepathPattern(pats) && spec_pattern_matches(pats, path)
}

/// Whether one matcher matches by shebang.
pub open spec fn m_shebang_match(m: MatcherView, contents: Seq<u8>) -> bool {
    m matches MatcherView::Shebang(interps) && spec_shebang_matches(interps, contents)
}

/// Whether an analyzer matches by extension.
pub open spec fn a_matches_ext(a: AnalyzerView, path: Seq<char>) -> bool {
    exists|k: int| 0 <= k < a.matchers.len() && m_ext_match(#[trigger] a.matchers[k], path)
}

/// Whether an analyzer matches by filename.
pub open spec fn a_matches_filename(a: AnalyzerView, path: Seq<char>) -> bool {
    exists|k: int| 0 <= k < a.matchers.len() && m_filename_match(#[trigger] a.matchers[k], path)
}

/// Whether an analyzer matches by path glob.
pub open spec fn a_matches_pattern(a: AnalyzerView, path: Seq<char>) -> bool {
    exists|k: int| 0 <= k < a.matchers.len() && m_pattern_match(#[trigger] a.matchers[k], path)
}

/// Whether an analyzer matches by shebang.
pub open spec fn a_matches_shebang(a: AnalyzerView, contents: Seq<u8>) -> bool {
    exists|k: int| 0 <= k < a.matchers.len() && m_shebang_match(#[trigger] a.matchers[k], contents)
}

/// Whether any heuristic of an analyzer matches a text.
pub open spec fn a_matches_heur(a: AnalyzerView, text: Seq<char>) -> bool {
    exists|k: int| 0 <= k < a.heuristics.len() && regex_match(#[trigger] a.heuristics[k], text)
}

/// The registry indices at or after `i` whose analyzer matches by shebang,
/// in registry order.
pub open spec fn shebang_idxs_from(reg: Seq<AnalyzerView>, contents: Seq<u8>, i: int) -> Seq<int>
    decreases reg.len() - i,
{
    if 0 <= i < reg.len() {
        let rest = shebang_idxs_from(reg, contents, i + 1);
        if a_matches_shebang(reg[i], contents) {
            seq![i] + rest
        } else {
            rest
        }
    } else {
        Seq::empty()
    }
}

/// The registry indices whose analyzer matches by shebang.
pub open spec fn shebang_idxs(reg: Seq<AnalyzerView>, contents: Seq<u8>) -> Seq<int> {
    shebang_idxs_from(reg, contents, 0)
}

/// The registry indices at or after `i` whose analyzer matches by filename.
pub open spec fn filename_idxs_from(reg: Seq<AnalyzerView>, path: Seq<char>, i: int) -> Seq<int>
    decreases reg.len() - i,
{
    if 0 <= i < reg.len() {
        let rest = filename_idxs_from(reg, path, i + 1);
        if a_matches_filename(reg[i], path) {
            seq![i] + rest
        } else {
            rest
        }
    } else {
        Seq::empty()
    }
}

/// The registry indices whose analyzer matches by filename.
pub open spec fn filename_idxs(reg: Seq<AnalyzerView>, path: Seq<char>) -> Seq<int> {
    filename_idxs_from(reg, path, 0)
}

/// The registry indices at or after `i` whose analyzer matches by path glob.
pub open spec fn glob_idxs_from(reg: Seq<AnalyzerView>, path: Seq<char>, i: int) -> Seq<int>
    decreases reg.len() - i,
{
    if 0 <= i < reg.len() {
        let rest = glob_idxs_from(reg, path, i + 1);
        if a_matches_pattern(reg[i], path) {
            seq![i] + rest
        } else {
            rest
        }
    } else {
        Seq::empty()
    }
}

/// The registry indices whose analyzer matches by path glob.
pub open spec fn glob_idxs(reg: Seq<AnalyzerView>, path: Seq<char>) -> Seq<int> {
    glob_idxs_from(reg, path, 0)
}

/// The registry indices at or after `i` whose analyzer matches by extension.
pub open spec fn ext_idxs_from(reg: Seq<AnalyzerView>, path: Seq<char>, i: int) -> Seq<int>
    decreases reg.len() - i,
{
    if 0 <= i < reg.len() {
        let rest = ext_idxs_from(reg, path, i + 1);
        if a_matches_ext(reg[i], path) {
            seq![i] + rest
        } else {
            rest
        }
    } else {
        Seq::empty()
    }
}

/// The registry indices whose analyzer matches by extension.
pub open spec fn ext_idxs(reg: Seq<AnalyzerView>, path: Seq<char>) -> Seq<int> {
    ext_idxs_from(reg, path, 0)
}

/// The candidate set of the cheap pass: the first non-empty of the shebang,
/// filename, path-glob and extension sets, in that order; the extension set
/// stands whether empty or not.
pub open spec fn simple_idxs(reg: Seq<AnalyzerView>, path: Seq<char>, contents: Seq<u8>) -> Seq<
    int,
> {
    if shebang_idxs(reg, contents).len() > 0 {
        shebang_idxs(reg, contents)
    } else if filename_idxs(reg, path).len() > 0 {
        filename_idxs(reg, path)
    } else if glob_idxs(reg, path).len() > 0 {
        glob_idxs(reg, path)
    } else {
        ext_idxs(reg, path)
    }
}

/// The keys of the analyzers at the given registry indices.
pub open spec fn keys_of(reg: Seq<AnalyzerView>, idxs: Seq<int>) -> Seq<Seq<char>> {
    Seq::new(idxs.len(), |j: int| reg[idxs[j]].key)
}

/// The candidates at or after position `k` whose heuristics match the text.
pub open spec fn heur_filter_from(
    reg: Seq<AnalyzerView>,
    s: Seq<int>,
    text: Seq<char>,
    k: int,
) -> Seq<int>
    decreases s.len() - k,
{
    if 0 <= k < s.len() {
        let rest = heur_filter_from(reg, s, text, k + 1);
        if a_matches_heur(reg[s[k]], text) {
            seq![s[k]] + rest
        } else {
            rest
        }
    } else {
        Seq::empty()
    }
}

/// The text heuristics run against: the content truncated to the read
/// limit, decoded with lossy replacement.
pub open spec fn spec_heur_text(contents: Seq<u8>, limit: int) -> Seq<char> {
    lossy_utf8(
        if contents.len() > limit {
            contents.take(limit)
        } else {
            contents
        },
    )
}

/// The candidates whose heuristics match the truncated content.
pub open spec fn heur_idxs(
    reg: Seq<AnalyzerView>,
    s: Seq<int>,
    contents: Seq<u8>,
    limit: int,
) -> Seq<int> {
    heur_filter_from(reg, s, spec_heur_text(contents, limit), 0)
}

/// The candidate set after heuristic narrowing: heuristics keep only
/// matching candidates, but never narrow the set to nothing.
pub open spec fn with_heur_idxs(
    reg: Seq<AnalyzerView>,
    path: Seq<char>,
    contents: Seq<u8>,
    limit: int,
) -> Seq<int> {
    let s = simple_idxs(reg, path, contents);
    if s.len() <= 1 {
        s
    } else {
        let h = heur_idxs(reg, s, contents, limit);
        if h.len() == 0 {
            s
        } else {
            h
        }
    }
}

/// The candidate at or after position `k` with the highest priority; on
/// ties, the earliest.
pub open spec fn best_from(reg: Seq<AnalyzerView>, idxs: Seq<int>, k: int) -> int
    decreases idxs.len() - k,
{
    if 0 <= k < idxs.len() {
        if k == idxs.len() - 1 {
            idxs[k]
        } else {
            let rest = best_from(reg, idxs, k + 1);
            if reg[rest].priority > reg[idxs[k]].priority {
                rest
            } else {
                idxs[k]
            }
        }
    } else {
        0
    }
}

/// The registry index `pick` resolves a file to, if any: the cheap pass,
/// then heuristic narrowing, then the priority tie-break.
pub open spec fn spec_pick(
    reg: Seq<AnalyzerView>,
    path: Seq<char>,
    contents: Seq<u8>,
    limit: int,
) -> Option<int> {
    let s = simple_idxs(reg, path, contents);
    if s.len() == 0 {
        Option::None
    } else if s.len() == 1 {
        Option::Some(s[0])
    } else {
        let h = heur_idxs(reg, s, contents, limit);
        let cands = if h.len() == 0 {
            s
        } else {
            h
        };
        if cands.len() == 1 {
            Option::Some(cands[0])
        } else {
            Option::Some(best_from(reg, cands, 0))
        }
    }
}

/// The first registry index at or after `i` whose key equals `k`.
pub open spec fn find_key_from(reg: Seq<AnalyzerView>, k: Seq<char>, i: int) -> Option<int>
    decreases reg.len() - i,
{
    if 0 <= i < reg.len() {
        if reg[i].key == k {
            Option::Some(i)
        } else {
            find_key_from(reg, k, i + 1)
        }
    } else {
        Option::None
    }
}

/// The first registry index whose key equals `k`.
pub open spec fn spec_find_key(reg: Seq<AnalyzerView>, k: Seq<char>) -> Option<int> {
    find_key_from(reg, k, 0)
}

/// The integer values of a sequence of indices.
pub open spec fn usizes(s: Seq<usize>) -> Seq<int> {
    Seq::new(s.len(), |i: int| s[i] as int)
}

} // verus!

verus! {

/// Analyzes and attempts to identify a language.
#[derive(Debug)]
pub struct Analyzers(pub Vec<Analyzer>);

impl View for Analyzers {
    type V = Seq<AnalyzerView>;

    open spec fn view(&self) -> Seq<AnalyzerView> {
        self.0.deep_view()
    }
}

/// Whether any matcher of an analyzer matches by extension.
fn analyzer_matches_ext(a: &Analyzer, path: &str) -> (r: bool)
    ensures
        r == a_matches_ext(a.deep_view(), path@),
{
    let mut k: usize = 0;
    while k < a.matchers.len()
        invariant
            k <= a.matchers@.len(),
            forall|j: int| 0 <= j < k ==> !m_ext_match(#[trigger] a.deep_view().matchers[j], path@),
        decreases a.matchers@.len() - k,
    {
        proof {
            assert(a.deep_view().matchers[k as int] == a.matchers@[k as int].deep_view());
        }
        match &a.matchers[k] {
            Matcher::Extension(m) => {
                if m.matches(path) {
                    return true;
                }
            },
            _ => {},
        }
        k += 1;
    }
    false
}

/// Whether any matcher of an analyzer matches by filename.
fn analyzer_matches_filename(a: &Analyzer, path: &str) -> (r: bool)
    ensures
        r == a_matches_filename(a.deep_view(), path@),
{
    let mut k: usize = 0;
    while k < a.matchers.len()
        invariant
            k <= a.matchers@.len(),
            forall|j: int|
                0 <= j < k ==> !m_filename_match(#[trigger] a.deep_view().matchers[j], path@),
        decreases a.matchers@.len() - k,
    {
        proof {
            assert(a.deep_view().matchers[k as int] == a.matchers@[k as int].deep_view());
        }
        match &a.matchers[k] {
            Matcher::Filename(m) => {
                if m.matches(path) {
                    return true;
                }
            },
            _ => {},
        }
        k += 1;
    }
    false
}

/// Whether any matcher of an analyzer matches by path glob.
fn analyzer_matches_pattern(a: &Analyzer, path: &str) -> (r: bool)
    ensures
        r == a_matches_pattern(a.deep_view(), path@),
{
    let mut k: usize = 0;
    while k < a.matchers.len()
        invariant
            k <= a.matchers@.len(),
            forall|j: int|
                0 <= j < k ==> !m_pattern_match(#[trigger] a.deep_view().matchers[j], path@),
        decreases a.matchers@.len() - k,
    {
        proof {
            assert(a.deep_view().matchers[k as int] == a.matchers@[k as int].deep_view());
        }
        match &a.matchers[k] {
            Matcher::FilepathPattern(m) => {
                if m.matches(path) {
                    return true;
                }
            },
            _ => {},
        }
        k += 1;
    }
    false
}

/// Whether any matcher of an analyzer matches by shebang.
fn analyzer_matches_shebang(a: &Analyzer, contents: &[u8]) -> (r: bool)
    ensures
        r == a_matches_shebang(a.deep_view(), contents@),
{
    let mut k: usize = 0;
    while k < a.matchers.len()
        invariant
            k <= a.matchers@.len(),
            forall|j: int|
                0 <= j < k ==> !m_shebang_match(#[trigger] a.deep_view().matchers[j], contents@),
        decreases a.matchers@.len() - k,
    {
        proof {
            assert(a.deep_view().matchers[k as int] == a.matchers@[k as int].deep_view());
        }
        match &a.matchers[k] {
            Matcher::Shebang(m) => {
                if m.matches(contents) {
                    return true;
                }
            },
            _ => {},
        }
        k += 1;
    }
    false
}

/// Whether any heuristic of an analyzer matches a text.
fn analyzer_matches_heur(a: &Analyzer, text: &str) -> (r: bool)
    ensures
        r == a_matches_heur(a.deep_view(), text@),
{
    let mut k: usize = 0;
    while k < a.heuristics.len()
        invariant
            k <= a.heuristics@.len(),
            forall|j: int|
                0 <= j < k ==> !regex_match(#[trigger] a.deep_view().heuristics[j], text@),
        decreases a.heuristics@.len() - k,
    {
        proof {
            assert(a.deep_view().heuristics[k as int] == a.heuristics@[k as int]@);
        }
        if crate::regexes::regex_is_match(a.heuristics[k].as_str(), text) {
            return true;
        }
        k += 1;
    }
    false
}

impl Analyzers {
    /// The registry indices that match by shebang.
    fn shebang_set(&self, contents: &[u8]) -> (r: Vec<usize>)
        ensures
            usizes(r@) == shebang_idxs(self@, contents@),
            forall|j: int| 0 <= j < r@.len() ==> #[trigger] r@[j] < self.0@.len(),
    {
        let mut out: Vec<usize> = Vec::new();
        let mut i: usize = 0;
        while i < self.0.len()
            invariant
                i <= self.0@.len(),
                usizes(out@) + shebang_idxs_from(self@, contents@, i as int) == shebang_idxs(
                    self@,
                    contents@,
                ),
                forall|j: int| 0 <= j < out@.len() ==> #[trigger] out@[j] < self.0@.len(),
            decreases self.0@.len() - i,
        {
            let matched = analyzer_matches_shebang(&self.0[i], contents);
            proof {
                assert(self@[i as int] == self.0@[i as int].deep_view());
            }
            let ghost prefix = usizes(out@);
            if matched {
                out.push(i);
                proof {
                    assert(usizes(out@) =~= prefix + seq![i as int]);
                    assert((prefix + seq![i as int]) + shebang_idxs_from(
                        self@,
                        contents@,
                        i + 1,
                    ) =~= prefix + (seq![i as int] + shebang_idxs_from(self@, contents@, i + 1)));
                }
            }
            i += 1;
        }
        proof {
            assert(usizes(out@) + shebang_idxs_from(self@, contents@, i as int) =~= usizes(out@));
        }
        out
    }

    /// The registry indices that match by filename.
    fn filename_set(&self, path: &str) -> (r: Vec<usize>)
        ensures
            usizes(r@) == filename_idxs(self@, path@),
            forall|j: int| 0 <= j < r@.len() ==> #[trigger] r@[j] < self.0@.len(),
    {
        let mut out: Vec<usize> = Vec::new();
        let mut i: usize = 0;
        while i < self.0.len()
            invariant
                i <= self.0@.len(),
                usizes(out@) + filename_idxs_from(self@, path@, i as int) == filename_idxs(
                    self@,
                    path@,
                ),
                forall|j: int| 0 <= j < out@.len() ==> #[trigger] out@[j] < self.0@.len(),
            decreases self.0@.len() - i,
        {
            let matched = analyzer_matches_filename(&self.0[i], path);
            proof {
                assert(self@[i as int] == self.0@[i as int].deep_view());
            }
            let ghost prefix = usizes(out@);
            if matched {
                out.push(i);
                proof {
                    assert(usizes(out@) =~= prefix + seq![i as int]);
                    assert((prefix + seq![i as int]) + filename_idxs_from(self@, path@, i + 1)
                        =~= prefix + (seq![i as int] + filename_idxs_from(self@, path@, i + 1)));
                }
            }
            i += 1;
        }
        proof {
            assert(usizes(out@) + filename_idxs_from(self@, path@, i as int) =~= usizes(out@));
        }
        out
    }

    /// The registry indices that match by path glob.
    fn glob_set(&self, path: &str) -> (r: Vec<usize>)
        ensures
            usizes(r@) == glob_idxs(self@, path@),
            forall|j: int| 0 <= j < r@.len() ==> #[trigger] r@[j] < self.0@.len(),
    {
        let mut out: Vec<usize> = Vec::new();
        let mut i: usize = 0;
        while i < self.0.len()
            invariant
                i <= self.0@.len(),
                usizes(out@) + glob_idxs_from(self@, path@, i as int) == glob_idxs(self@, path@),
                forall|j: int| 0 <= j < out@.len() ==> #[trigger] out@[j] < self.0@.len(),
            decreases self.0@.len() - i,
        {
            let matched = analyzer_matches_pattern(&self.0[i], path);
            proof {
                assert(self@[i as int] == self.0@[i as int].deep_view());
            }
            let ghost prefix = usizes(out@);
            if matched {
                out.push(i);
                proof {
                    assert(usizes(out@) =~= prefix + seq![i as int]);
                    assert((prefix + seq![i as int]) + glob_idxs_from(self@, path@, i + 1) =~= prefix
                        + (seq![i as int] + glob_idxs_from(self@, path@, i + 1)));
                }
            }
            i += 1;
        }
        proof {
            assert(usizes(out@) + glob_idxs_from(self@, path@, i as int) =~= usizes(out@));
        }
        out
    }

    /// The registry indices that match by extension.
    fn ext_set(&self, path: &str) -> (r: Vec<usize>)
        ensures
            usizes(r@) == ext_idxs(self@, path@),
            forall|j: int| 0 <= j < r@.len() ==> #[trigger] r@[j] < self.0@.len(),
    {
        let mut out: Vec<usize> = Vec::new();
        let mut i: usize = 0;
        while i < self.0.len()
            invariant
                i <= self.0@.len(),
                usizes(out@) + ext_idxs_from(self@, path@, i as int) == ext_idxs(self@, path@),
                forall|j: int| 0 <= j < out@.len() ==> #[trigger] out@[j] < self.0@.len(),
            decreases self.0@.len() - i,
        {
            let matched = analyzer_matches_ext(&self.0[i], path);
            proof {
                assert(self@[i as int] == self.0@[i as int].deep_view());
            }
            let ghost prefix = usizes(out@);
            if matched {
                out.push(i);
                proof {
                    assert(usizes(out@) =~= prefix + seq![i as int]);
                    assert((prefix + seq![i as int]) + ext_idxs_from(self@, path@, i + 1) =~= prefix
                        + (seq![i as int] + ext_idxs_from(self@, path@, i + 1)));
                }
            }
            i += 1;
        }
        proof {
            assert(usizes(out@) + ext_idxs_from(self@, path@, i as int) =~= usizes(out@));
        }
        out
    }

    /// The candidate set of the cheap pass.
    fn simple_set(&self, path: &str, contents: &[u8]) -> (r: Vec<usize>)
        ensures
            usizes(r@) == simple_idxs(self@, path@, contents@),
            forall|j: int| 0 <= j < r@.len() ==> #[trigger] r@[j] < self.0@.len(),
    {
        let s = self.shebang_set(contents);
        if s.len() > 0 {
            return s;
        }
        let s = self.filename_set(path);
        if s.len() > 0 {
            return s;
        }
        let s = self.glob_set(path);
        if s.len() > 0 {
            return s;
        }
        self.ext_set(path)
    }

    /// The candidates whose heuristics match the text.
    fn heur_filter(&self, s: &Vec<usize>, text: &str) -> (r: Vec<usize>)
        requires
            forall|j: int| 0 <= j < s@.len() ==> #[trigger] s@[j] < self.0@.len(),
        ensures
            usizes(r@) == heur_filter_from(self@, usizes(s@), text@, 0),
            forall|j: int| 0 <= j < r@.len() ==> #[trigger] r@[j] < self.0@.len(),
    {
        let mut out: Vec<usize> = Vec::new();
        let mut k: usize = 0;
        while k < s.len()
            invariant
                k <= s@.len(),
                forall|j: int| 0 <= j < s@.len() ==> #[trigger] s@[j] < self.0@.len(),
                usizes(out@) + heur_filter_from(self@, usizes(s@), text@, k as int)
                    == heur_filter_from(self@, usizes(s@), text@, 0),
                forall|j: int| 0 <= j < out@.len() ==> #[trigger] out@[j] < self.0@.len(),
            decreases s@.len() - k,
        {
            let idx = s[k];
            let matched = analyzer_matches_heur(&self.0[idx], text);
            proof {
                assert(self@[idx as int] == self.0@[idx as int].deep_view());
                assert(usizes(s@)[k as int] == idx as int);
            }
            let ghost prefix = usizes(out@);
            if matched {
                out.push(idx);
                proof {
                    assert(usizes(out@) =~= prefix + seq![idx as int]);
                    assert((prefix + seq![idx as int]) + heur_filter_from(
                        self@,
                        usizes(s@),
                        text@,
                        k + 1,
                    ) =~= prefix + (seq![idx as int] + heur_filter_from(
                        self@,
                        usizes(s@),
                        text@,
                        k + 1,
                    )));
                }
            }
            k += 1;
        }
        proof {
            assert(usizes(out@) + heur_filter_from(self@, usizes(s@), text@, k as int) =~= usizes(
                out@,
            ));
        }
        out
    }

    /// The keys of the analyzers at the given indices.
    fn keys_from_idxs(&self, idxs: &Vec<usize>) -> (r: Vec<String>)
        requires
            forall|j: int| 0 <= j < idxs@.len() ==> #[trigger] idxs@[j] < self.0@.len(),
        ensures
            r.deep_view() == keys_of(self@, usizes(idxs@)),
    {
        let mut keys: Vec<String> = Vec::new();
        let mut j: usize = 0;
        while j < idxs.len()
            invariant
                j <= idxs@.len(),
                forall|m: int| 0 <= m < idxs@.len() ==> #[trigger] idxs@[m] < self.0@.len(),
                keys@.len() == j,
                forall|m: int|
                    0 <= m < j ==> #[trigger] keys.deep_view()[m] == self@[idxs@[m] as int].key,
            decreases idxs@.len() - j,
        {
            let idx = idxs[j];
            proof {
                assert(self@[idx as int] == self.0@[idx as int].deep_view());
            }
            let k = self.0[idx].key.clone();
            let ghost prev = keys;
            keys.push(k);
            proof {
                assert(forall|m: int| #![auto]
                    0 <= m < j ==> keys.deep_view()[m] == prev.deep_view()[m]);
                assert(keys.deep_view()[j as int] == k@);
            }
            j += 1;
        }
        proof {
            assert(keys.deep_view() =~= keys_of(self@, usizes(idxs@)));
        }
        keys
    }
}

} // verus!

verus! {

impl Analyzers {
    /// The analyzers that match by extension, as keys in registry order.
    pub fn by_extension(&self, path: &str) -> (r: Found)
        ensures
            r@ == keys_of(self@, ext_idxs(self@, path@)),
            r is Empty <==> ext_idxs(self@, path@).len() == 0,
    {
        let s = self.ext_set(path);
        found_from_names(self.keys_from_idxs(&s))
    }

    /// The analyzers that match by filename, as keys in registry order.
    pub fn by_filename(&self, path: &str) -> (r: Found)
        ensures
            r@ == keys_of(self@, filename_idxs(self@, path@)),
            r is Empty <==> filename_idxs(self@, path@).len() == 0,
    {
        let s = self.filename_set(path);
        found_from_names(self.keys_from_idxs(&s))
    }

    /// The analyzers that match by path glob, as keys in registry order.
    pub fn by_filepath_pattern(&self, path: &str) -> (r: Found)
        ensures
            r@ == keys_of(self@, glob_idxs(self@, path@)),
            r is Empty <==> glob_idxs(self@, path@).len() == 0,
    {
        let s = self.glob_set(path);
        found_from_names(self.keys_from_idxs(&s))
    }

    /// The analyzers that match by shebang, as keys in registry order.
    pub fn by_shebang(&self, contents: &[u8]) -> (r: Found)
        ensures
            r@ == keys_of(self@, shebang_idxs(self@, contents@)),
            r is Empty <==> shebang_idxs(self@, contents@).len() == 0,
    {
        let s = self.shebang_set(contents);
        found_from_names(self.keys_from_idxs(&s))
    }

    /// The cheap pass: the first non-empty match set among shebang,
    /// filename, path glob and extension, in that order.
    pub fn simple(&self, path: &str, contents: &[u8]) -> (r: Found)
        ensures
            r@ == keys_of(self@, simple_idxs(self@, path@, contents@)),
            r is Empty <==> simple_idxs(self@, path@, contents@).len() == 0,
    {
        let s = self.simple_set(path, contents);
        found_from_names(self.keys_from_idxs(&s))
    }

    /// The cheap pass followed by heuristic narrowing. Heuristics run
    /// against at most `limit` bytes of the content and keep only matching
    /// candidates, but never narrow the set to nothing.
    pub fn with_heuristics(&self, path: &str, contents: &[u8], limit: usize) -> (r: Found)
        ensures
            r@ == keys_of(self@, with_heur_idxs(self@, path@, contents@, limit as int)),
            r is Empty <==> with_heur_idxs(self@, path@, contents@, limit as int).len() == 0,
    {
        let s = self.simple_set(path, contents);
        if s.len() <= 1 {
            return found_from_names(self.keys_from_idxs(&s));
        }
        let h = self.heur_set(&s, contents, limit);
        if h.len() == 0 {
            found_from_names(self.keys_from_idxs(&s))
        } else {
            found_from_names(self.keys_from_idxs(&h))
        }
    }

    /// The candidates whose heuristics match the truncated content.
    fn heur_set(&self, s: &Vec<usize>, contents: &[u8], limit: usize) -> (r: Vec<usize>)
        requires
            forall|j: int| 0 <= j < s@.len() ==> #[trigger] s@[j] < self.0@.len(),
        ensures
            usizes(r@) == heur_idxs(self@, usizes(s@), contents@, limit as int),
            forall|j: int| 0 <= j < r@.len() ==> #[trigger] r@[j] < self.0@.len(),
    {
        let text_src: &[u8] = if contents.len() > limit {
            vstd::slice::slice_subrange(contents, 0, limit)
        } else {
            contents
        };
        proof {
            if contents@.len() > limit as int {
                assert(contents@.subrange(0, limit as int) =~= contents@.take(limit as int));
            }
        }
        let text = decode_lossy(text_src);
        proof {
            assert(text@ == spec_heur_text(contents@, limit as int));
        }
        self.heur_filter(s, text.as_str())
    }

    /// Picks the best language for a file: the cheap pass, heuristic
    /// narrowing on at most `limit` bytes, then the highest priority,
    /// resolving ties to the earliest definition in registry order.
    pub fn pick(&self, path: &str, contents: &[u8], limit: usize) -> (r: Option<&LanguageOld>)
        ensures
            match spec_pick(self@, path@, contents@, limit as int) {
                Option::Some(i) => r matches Option::Some(l) && l@ == self@[i].language,
                Option::None => r is None,
            },
    {
        let s = self.simple_set(path, contents);
        if s.len() == 0 {
            return Option::None;
        }
        if s.len() == 1 {
            let idx = s[0];
            proof {
                assert(self@[idx as int] == self.0@[idx as int].deep_view());
                assert(usizes(s@)[0] == idx as int);
            }
            return Option::Some(&self.0[idx].language);
        }
        let h = self.heur_set(&s, contents, limit);
        let cands: &Vec<usize> = if h.len() == 0 {
            &s
        } else {
            &h
        };
        if cands.len() == 1 {
            let idx = cands[0];
            proof {
                assert(self@[idx as int] == self.0@[idx as int].deep_view());
                assert(usizes(cands@)[0] == idx as int);
            }
            return Option::Some(&self.0[idx].language);
        }
        let ghost gcands = usizes(cands@);
        let mut k: usize = cands.len() - 1;
        let mut best: usize = cands[k];
        proof {
            assert(gcands[k as int] == best as int);
        }
        while k > 0
            invariant
                k < cands@.len(),
                forall|j: int| 0 <= j < cands@.len() ==> #[trigger] cands@[j] < self.0@.len(),
                gcands == usizes(cands@),
                best < self.0@.len(),
                best as int == best_from(self@, gcands, k as int),
            decreases k,
        {
            k -= 1;
            let cand = cands[k];
            proof {
                assert(gcands[k as int] == cand as int);
                assert(self@[cand as int] == self.0@[cand as int].deep_view());
                assert(self@[best as int] == self.0@[best as int].deep_view());
            }
            if self.0[cand].priority >= self.0[best].priority {
                best = cand;
            }
        }
        proof {
            assert(self@[best as int] == self.0@[best as int].deep_view());
        }
        Option::Some(&self.0[best].language)
    }

    /// Returns a language by name, case-insensitively.
    pub fn get(&self, name: &str) -> (r: Option<&LanguageOld>)
        ensures
            match spec_find_key(self@, lower_of(name@)) {
                Option::Some(i) => r matches Option::Some(l) && l@ == self@[i].language,
                Option::None => r is None,
            },
    {
        let key = to_lowercase(name);
        let mut i: usize = 0;
        while i < self.0.len()
            invariant
                i <= self.0@.len(),
                key@ == lower_of(name@),
                spec_find_key(self@, lower_of(name@)) == find_key_from(
                    self@,
                    lower_of(name@),
                    i as int,
                ),
            decreases self.0@.len() - i,
        {
            proof {
                assert(self@[i as int] == self.0@[i as int].deep_view());
            }
            if str_eq(self.0[i].key.as_str(), key.as_str()) {
                return Option::Some(&self.0[i].language);
            }
            i += 1;
        }
        Option::None
    }
}

} // verus!

verus! {

/// Copies a list of strings.
fn clone_strings(v: &Vec<String>) -> (r: Vec<String>)
    ensures
        r.deep_view() == v.deep_view(),
{
    let mut out: Vec<String> = Vec::new();
    let mut i: usize = 0;
    while i < v.len()
        invariant
            i <= v@.len(),
            out@.len() == i,
            forall|j: int| 0 <= j < i ==> #[trigger] out@[j] == v@[j],
        decreases v@.len() - i,
    {
        out.push(v[i].clone());
        i += 1;
    }
    proof {
        assert(out.deep_view() =~= v.deep_view());
    }
    out
}

impl Analyzers {
    /// Builds a registry from parsed definitions, in declaration order.
    ///
    /// Construction fails fast: on a priority above 100, a glob pattern or
    /// heuristic regular expression that does not compile, or two
    /// definitions whose names are equal once lowercased.
    #[verifier::loop_isolation(false)]
    #[verifier::rlimit(100)]
    pub fn new(defs: Vec<AnalyzerDef>) -> (r: Result<Analyzers, RegistryLoadError>)
        ensures
            r is Ok <==> defs_wf(defs.deep_view()),
            r matches Ok(a) ==> a@ == build_registry(defs.deep_view()),
            r matches Err(e) ==> match e {
                RegistryLoadError::DuplicateLanguage(_) => exists|i: int, j: int|
                    0 <= i < j < defs.deep_view().len() && lower_of(
                        #[trigger] defs.deep_view()[i].name,
                    ) == lower_of(#[trigger] defs.deep_view()[j].name),
                RegistryLoadError::InvalidGlob(_) => exists|i: int, k: int|
                    0 <= i < defs.deep_view().len() && 0 <= k
                        < defs.deep_view()[i].patterns.len() && !crate::globs::glob_ok(
                        #[trigger] defs.deep_view()[i].patterns[k],
                    ),
                RegistryLoadError::InvalidRegex(_) => exists|i: int, k: int|
                    0 <= i < defs.deep_view().len() && 0 <= k
                        < defs.deep_view()[i].heuristics.len() && !crate::regexes::regex_ok(
                        #[trigger] defs.deep_view()[i].heuristics[k],
                    ),
                RegistryLoadError::InvalidPriority(_) => exists|i: int|
                    0 <= i < defs.deep_view().len()
                        && ((#[trigger] defs.deep_view()[i].priority) matches Option::Some(p) && p
                        > 100),
            },
    {
        let ghost dvs = defs.deep_view();
        let mut out: Vec<Analyzer> = Vec::new();
        let mut i: usize = 0;
        while i < defs.len()
            invariant
                i <= defs@.len(),
                dvs == defs.deep_view(),
                dvs.len() == defs@.len(),
                out@.len() == i,
                forall|j: int| 0 <= j < i ==> #[trigger] out.deep_view()[j] == build_analyzer(dvs[j]),
                forall|j: int| 0 <= j < i ==> def_wf(#[trigger] dvs[j]),
                forall|j: int, k: int|
                    0 <= j < k < i ==> lower_of(#[trigger] dvs[j].name) != lower_of(
                        #[trigger] dvs[k].name,
                    ),
            decreases defs@.len() - i,
        {
            let d = &defs[i];
            proof {
                assert(d.deep_view() == dvs[i as int]);
            }
            // Priority: within 0 to 100, or 50 when absent.
            let priority: u8 = match d.priority {
                Option::Some(p) => {
                    if p > 100 {
                        proof {
                            assert(dvs[i as int].priority matches Option::Some(q) && q > 100);
                        }
                        return Result::Err(RegistryLoadError::InvalidPriority(d.name.clone()));
                    }
                    p
                },
                Option::None => default_priority(),
            };
            // Globs must compile.
            let mut k: usize = 0;
            while k < d.patterns.len()
                invariant
                    k <= d.patterns@.len(),
                    forall|m: int|
                        0 <= m < k ==> crate::globs::glob_ok(#[trigger] d.deep_view().patterns[m]),
                decreases d.patterns@.len() - k,
            {
                proof {
                    assert(d.deep_view().patterns[k as int] == d.patterns@[k as int]@);
                }
                if !glob_pattern_valid(d.patterns[k].as_str()) {
                    proof {
                        assert(!crate::globs::glob_ok(dvs[i as int].patterns[k as int]));
                    }
                    return Result::Err(RegistryLoadError::InvalidGlob(d.patterns[k].clone()));
                }
                k += 1;
            }
            // Heuristic regular expressions must compile.
            let mut k: usize = 0;
            while k < d.heuristics.len()
                invariant
                    k <= d.heuristics@.len(),
                    forall|m: int|
                        0 <= m < k ==> crate::regexes::regex_ok(
                            #[trigger] d.deep_view().heuristics[m],
                        ),
                decreases d.heuristics@.len() - k,
            {
                proof {
                    assert(d.deep_view().heuristics[k as int] == d.heuristics@[k as int]@);
                }
                if !regex_pattern_valid(d.heuristics[k].as_str()) {
                    proof {
                        assert(!crate::regexes::regex_ok(dvs[i as int].heuristics[k as int]));
                    }
                    return Result::Err(RegistryLoadError::InvalidRegex(d.heuristics[k].clone()));
                }
                k += 1;
            }
            // The lowercased name must be new.
            let key = to_lowercase(d.name.as_str());
            let mut j: usize = 0;
            while j < out.len()
                invariant
                    j <= out@.len(),
                    out@.len() == i,
                    i < dvs.len(),
                    key@ == lower_of(dvs[i as int].name),
                    dvs == defs.deep_view(),
                    forall|m: int|
                        0 <= m < i ==> #[trigger] out.deep_view()[m] == build_analyzer(dvs[m]),
                    forall|m: int| 0 <= m < j ==> lower_of(#[trigger] dvs[m].name) != key@,
                decreases out@.len() - j,
            {
                proof {
                    assert(out.deep_view()[j as int] == out@[j as int].deep_view());
                }
                if str_eq(out[j].key.as_str(), key.as_str()) {
                    proof {
                        assert(out.deep_view()[j as int].key == lower_of(dvs[j as int].name));
                    }
                    return Result::Err(RegistryLoadError::DuplicateLanguage(d.name.clone()));
                }
                j += 1;
            }
            // Build the analyzer.
            let language = LanguageOld {
                name: d.name.clone(),
                category: d.category,
                color: d.color.clone(),
            };
            let mut matchers: Vec<Matcher> = Vec::new();
            let ghost dv = dvs[i as int];
            if d.extensions.len() > 0 {
                let m = Matcher::Extension(Extension::new(clone_strings(&d.extensions)));
                proof {
                    assert(m@ == MatcherView::Extension(dv.extensions));
                }
                matchers.push(m);
            }
            proof {
                let s0: Seq<MatcherView> = if dv.extensions.len() > 0 {
                    seq![MatcherView::Extension(dv.extensions)]
                } else {
                    Seq::empty()
                };
                assert(matchers.deep_view() =~= s0);
            }
            let ghost m0 = matchers.deep_view();
            if d.filenames.len() > 0 {
                let m = Matcher::Filename(Filename::new(clone_strings(&d.filenames)));
                proof {
                    assert(m@ == MatcherView::Filename(dv.filenames));
                }
                matchers.push(m);
                proof {
                    assert(matchers.deep_view() =~= m0 + seq![MatcherView::Filename(dv.filenames)]);
                }
            }
            let ghost m1 = matchers.deep_view();
            if d.patterns.len() > 0 {
                let m = Matcher::FilepathPattern(FilepathPattern::new(clone_strings(&d.patterns)));
                proof {
                    assert(m@ == MatcherView::FilepathPattern(dv.patterns));
                }
                matchers.push(m);
                proof {
                    assert(matchers.deep_view() =~= m1 + seq![
                        MatcherView::FilepathPattern(dv.patterns),
                    ]);
                }
            }
            let ghost m2 = matchers.deep_view();
            if d.interpreters.len() > 0 {
                let m = Matcher::Shebang(Shebang::new(clone_strings(&d.interpreters)));
                proof {
                    assert(m@ == MatcherView::Shebang(interps_bytes(dv.interpreters)));
                }
                matchers.push(m);
                proof {
                    assert(matchers.deep_view() =~= m2 + seq![
                        MatcherView::Shebang(interps_bytes(dv.interpreters)),
                    ]);
                }
            }
            proof {
                assert(matchers.deep_view() == build_matchers(dv));
            }
            let a = Analyzer {
                key,
                language,
                matchers,
                heuristics: clone_strings(&d.heuristics),
                priority,
            };
            proof {
                assert(a.deep_view() == build_analyzer(dv));
            }
            let ghost prev_out = out;
            out.push(a);
            proof {
                assert(forall|m: int| #![auto]
                    0 <= m < i ==> out.deep_view()[m] == prev_out.deep_view()[m]);
                assert(out.deep_view()[i as int] == a.deep_view());
            }
            i += 1;
        }
        proof {
            assert(out.deep_view() =~= build_registry(dvs));
        }
        Result::Ok(Analyzers(out))
    }
}

} // verus!

verus! {

proof fn lemma_best_from_max(reg: Seq<AnalyzerView>, idxs: Seq<int>, k: int)
    requires
        0 <= k < idxs.len(),
    ensures
        exists|j: int| k <= j < idxs.len() && idxs[j] == best_from(reg, idxs, k),
        forall|j: int|
            k <= j < idxs.len() ==> reg[#[trigger] idxs[j]].priority <= reg[best_from(
                reg,
                idxs,
                k,
            )].priority,
    decreases idxs.len() - k,
{
    if k == idxs.len() - 1 {
        assert(idxs[k] == best_from(reg, idxs, k));
    } else {
        lemma_best_from_max(reg, idxs, k + 1);
    }
}

/// When no shebang, filename or path-glob signal matches and exactly one
/// language matches by extension, resolution returns that language.
pub proof fn lemma_pick_unique_extension(
    reg: Seq<AnalyzerView>,
    path: Seq<char>,
    contents: Seq<u8>,
    limit: int,
    i: int,
)
    requires
        shebang_idxs(reg, contents).len() == 0,
        filename_idxs(reg, path).len() == 0,
        glob_idxs(reg, path).len() == 0,
        ext_idxs(reg, path) == seq![i],
    ensures
        spec_pick(reg, path, contents, limit) == Option::Some(i),
{
    assert(simple_idxs(reg, path, contents) == seq![i]);
    assert(seq![i].len() == 1);
    assert(seq![i][0] == i);
}

/// Resolution returns no language exactly when no extension, filename,
/// path-glob or shebang signal matches.
pub proof fn lemma_pick_none_iff_no_signal(
    reg: Seq<AnalyzerView>,
    path: Seq<char>,
    contents: Seq<u8>,
    limit: int,
)
    ensures
        (spec_pick(reg, path, contents, limit) is None) <==> (shebang_idxs(reg, contents).len()
            == 0 && filename_idxs(reg, path).len() == 0 && glob_idxs(reg, path).len() == 0
            && ext_idxs(reg, path).len() == 0),
{
}

/// The picked language carries the highest priority of the candidate set
/// that survives heuristic narrowing.
pub proof fn lemma_pick_max_priority(
    reg: Seq<AnalyzerView>,
    path: Seq<char>,
    contents: Seq<u8>,
    limit: int,
)
    ensures
        spec_pick(reg, path, contents, limit) matches Option::Some(i) ==> {
            let cands = with_heur_idxs(reg, path, contents, limit);
            cands.contains(i) && forall|j: int|
                0 <= j < cands.len() ==> reg[#[trigger] cands[j]].priority <= reg[i].priority
        },
{
    let s = simple_idxs(reg, path, contents);
    if s.len() == 0 {
    } else if s.len() == 1 {
        let cands = with_heur_idxs(reg, path, contents, limit);
        assert(cands == s);
        assert(cands[0] == s[0]);
        assert(cands.contains(s[0]));
    } else {
        let h = heur_idxs(reg, s, contents, limit);
        let cands = if h.len() == 0 {
            s
        } else {
            h
        };
        assert(cands == with_heur_idxs(reg, path, contents, limit));
        if cands.len() == 1 {
            assert(cands.contains(cands[0]));
        } else {
            lemma_best_from_max(reg, cands, 0);
            let b = best_from(reg, cands, 0);
            assert(exists|j: int| 0 <= j < cands.len() && cands[j] == b);
            assert(cands.contains(b));
        }
    }
}

} // verus!
