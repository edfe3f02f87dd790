//! The result of analyzing a file set, and its per-language summary.

use vstd::prelude::*;

use crate::language::LanguageOld;
use crate::language::LanguageView;
use crate::Entry;
use crate::EntryView;

verus! {

/// The result of analyzing a file set: one entry per classified file,
/// keyed by path.
#[derive(Debug)]
pub struct Analysis(pub Vec<(String, Entry)>);

impl View for Analysis {
    type V = Seq<(Seq<char>, EntryView)>;

    open spec fn view(&self) -> Seq<(Seq<char>, EntryView)> {
        Seq::new(self.0@.len(), |i: int| (self.0@[i].0@, self.0@[i].1@))
    }
}

/// Options to use when creating a summary.
#[derive(Debug)]
#[non_exhaustive]
pub struct Opts {
    /// Include all files, even if they are not detectable.
    pub all: bool,
}

impl Default for Opts {
    /// By default only detectable entries are summarized.
    fn default() -> (r: Self)
        ensures
            r.all == false,
    {
        Opts { all: false }
    }
}

/// The summary of an analysis: each language with its aggregate size, in
/// first-seen order.
#[derive(Debug)]
pub struct Summary(pub Vec<(LanguageOld, usize)>);

impl View for Summary {
    type V = Seq<(LanguageView, int)>;

    open spec fn view(&self) -> Seq<(LanguageView, int)> {
        Seq::new(self.0@.len(), |i: int| (self.0@[i].0@, self.0@[i].1 as int))
    }
}

/// The sum of the sizes of the entries a summary includes: every entry
/// when `all` is set, else the detectable ones.
pub open spec fn spec_included_sum(a: Seq<(Seq<char>, EntryView)>, all: bool) -> int
    decreases a.len(),
{
    if a.len() == 0 {
        0
    } else {
        spec_included_sum(a.drop_last(), all) + if all || a.last().1.detectable {
            a.last().1.size
        } else {
            0
        }
    }
}

/// The sum of the per-language sizes of a summary.
pub open spec fn spec_sum_sizes(s: Seq<(LanguageView, int)>) -> int
    decreases s.len(),
{
    if s.len() == 0 {
        0
    } else {
        spec_sum_sizes(s.drop_last()) + s.last().1
    }
}

/// The first position at or after `i` that carries the given language.
pub open spec fn find_lang_from(s: Seq<(LanguageView, int)>, l: LanguageView, i: int) -> Option<
    int,
>
    decreases s.len() - i,
{
    if 0 <= i < s.len() {
        if s[i].0 == l {
            Option::Some(i)
        } else {
            find_lang_from(s, l, i + 1)
        }
    } else {
        Option::None
    }
}

/// Adds a size under a language: an existing row grows, a new language is
/// appended.
pub open spec fn spec_bump(s: Seq<(LanguageView, int)>, l: LanguageView, size: int) -> Seq<
    (LanguageView, int),
> {
    match find_lang_from(s, l, 0) {
        Option::Some(j) => s.update(j, (l, s[j].1 + size)),
        Option::None => s.push((l, size)),
    }
}

/// The summary of an analysis: included entries grouped by language, sizes
/// summed, languages in first-seen order.
pub open spec fn spec_summary(a: Seq<(Seq<char>, EntryView)>, all: bool) -> Seq<
    (LanguageView, int),
>
    decreases a.len(),
{
    if a.len() == 0 {
        Seq::empty()
    } else {
        let prev = spec_summary(a.drop_last(), all);
        let e = a.last().1;
        if all || e.detectable {
            spec_bump(prev, e.language, e.size)
        } else {
            prev
        }
    }
}

/// Every size of an analysis is non-negative.
pub open spec fn sizes_nonneg(a: Seq<(Seq<char>, EntryView)>) -> bool {
    forall|i: int| 0 <= i < a.len() ==> (#[trigger] a[i].1.size) >= 0
}

/// Every aggregate of a summary is non-negative.
pub open spec fn sums_nonneg(s: Seq<(LanguageView, int)>) -> bool {
    forall|i: int| 0 <= i < s.len() ==> (#[trigger] s[i].1) >= 0
}

proof fn lemma_sum_update(s: Seq<(LanguageView, int)>, j: int, x: (LanguageView, int))
    requires
        0 <= j < s.len(),
    ensures
        spec_sum_sizes(s.update(j, x)) == spec_sum_sizes(s) - s[j].1 + x.1,
    decreases s.len(),
{
    if j == s.len() - 1 {
        assert(s.update(j, x).drop_last() =~= s.drop_last());
        assert(s.update(j, x).last() == x);
    } else {
        assert(s.update(j, x).drop_last() =~= s.drop_last().update(j, x));
        lemma_sum_update(s.drop_last(), j, x);
    }
}

proof fn lemma_bump_sum(s: Seq<(LanguageView, int)>, l: LanguageView, size: int)
    ensures
        spec_sum_sizes(spec_bump(s, l, size)) == spec_sum_sizes(s) + size,
{
    match find_lang_from(s, l, 0) {
        Option::Some(j) => {
            lemma_find_lang_in_range(s, l, 0);
            lemma_sum_update(s, j, (l, s[j].1 + size));
        },
        Option::None => {
            assert(s.push((l, size)).drop_last() =~= s);
        },
    }
}

proof fn lemma_find_lang_in_range(s: Seq<(LanguageView, int)>, l: LanguageView, i: int)
    ensures
        find_lang_from(s, l, i) matches Option::Some(j) ==> i <= j < s.len() && s[j].0 == l,
    decreases s.len() - i,
{
    if 0 <= i < s.len() && s[i].0 != l {
        lemma_find_lang_in_range(s, l, i + 1);
    }
}

proof fn lemma_bump_nonneg(s: Seq<(LanguageView, int)>, l: LanguageView, size: int)
    requires
        sums_nonneg(s),
        size >= 0,
    ensures
        sums_nonneg(spec_bump(s, l, size)),
{
    lemma_find_lang_in_range(s, l, 0);
}

/// Each aggregate of a non-negative summary is at most the whole sum.
proof fn lemma_value_le_sum(s: Seq<(LanguageView, int)>, j: int)
    requires
        sums_nonneg(s),
        0 <= j < s.len(),
    ensures
        s[j].1 <= spec_sum_sizes(s),
    decreases s.len(),
{
    if j == s.len() - 1 {
        lemma_sum_nonneg(s.drop_last());
    } else {
        lemma_value_le_sum(s.drop_last(), j);
    }
}

proof fn lemma_sum_nonneg(s: Seq<(LanguageView, int)>)
    requires
        sums_nonneg(s),
    ensures
        spec_sum_sizes(s) >= 0,
    decreases s.len(),
{
    if s.len() > 0 {
        lemma_sum_nonneg(s.drop_last());
    }
}

/// The included sum of a prefix never exceeds the included sum of the
/// whole, when sizes are non-negative.
proof fn lemma_included_sum_take(a: Seq<(Seq<char>, EntryView)>, all: bool, i: int)
    requires
        sizes_nonneg(a),
        0 <= i <= a.len(),
    ensures
        spec_included_sum(a.take(i), all) <= spec_included_sum(a, all),
    decreases a.len() - i,
{
    if i == a.len() {
        assert(a.take(i) =~= a);
    } else {
        lemma_included_sum_take(a, all, i + 1);
        assert(a.take(i + 1).drop_last() =~= a.take(i));
        assert(a.take(i + 1).last() == a[i]);
    }
}

/// A summary's total equals the sum of the sizes of the entries it
/// includes.
pub proof fn lemma_summary_total(a: Seq<(Seq<char>, EntryView)>, all: bool)
    ensures
        spec_sum_sizes(spec_summary(a, all)) == spec_included_sum(a, all),
    decreases a.len(),
{
    if a.len() > 0 {
        lemma_summary_total(a.drop_last(), all);
        let e = a.last().1;
        if all || e.detectable {
            lemma_bump_sum(spec_summary(a.drop_last(), all), e.language, e.size);
        }
    }
}

/// A summary built of non-negative sizes has non-negative aggregates.
proof fn lemma_summary_nonneg(a: Seq<(Seq<char>, EntryView)>, all: bool)
    requires
        sizes_nonneg(a),
    ensures
        sums_nonneg(spec_summary(a, all)),
    decreases a.len(),
{
    if a.len() > 0 {
        assert(sizes_nonneg(a.drop_last())) by {
            assert(forall|i: int|
                0 <= i < a.len() - 1 ==> a.drop_last()[i] == #[trigger] a[i]);
        }
        lemma_summary_nonneg(a.drop_last(), all);
        let e = a.last().1;
        if all || e.detectable {
            lemma_bump_nonneg(spec_summary(a.drop_last(), all), e.language, e.size);
        }
    }
}

impl Analysis {
    /// The classified files with their entries, in analysis order.
    pub fn entries(&self) -> (r: &Vec<(String, Entry)>)
        ensures
            r@.len() == self@.len(),
            forall|i: int|
                0 <= i < self@.len() ==> (#[trigger] r@[i].0)@ == self@[i].0 && r@[i].1@
                    == self@[i].1,
    {
        &self.0
    }

    /// Summarizes the analysis by language and size, over the detectable
    /// entries only.
    pub fn summary(&self) -> (r: Summary)
        requires
            spec_included_sum(self@, false) <= usize::MAX,
        ensures
            r@ == spec_summary(self@, false),
    {
        let opts = Opts { all: false };
        self.summary_with(opts)
    }

    /// Summarizes the analysis by language and size. Languages appear in
    /// first-seen order; each carries the sum of its included entries'
    /// sizes.
    #[verifier::loop_isolation(false)]
    pub fn summary_with(&self, opts: Opts) -> (r: Summary)
        requires
            spec_included_sum(self@, opts.all) <= usize::MAX,
        ensures
            r@ == spec_summary(self@, opts.all),
    {
        let ghost a = self@;
        let mut rows: Vec<(LanguageOld, usize)> = Vec::new();
        let mut i: usize = 0;
        proof {
            assert(a.take(0) =~= Seq::<(Seq<char>, EntryView)>::empty());
        }
        while i < self.0.len()
            invariant
                i <= self.0@.len(),
                Seq::new(rows@.len(), |m: int| (rows@[m].0@, rows@[m].1 as int)) == spec_summary(
                    a.take(i as int),
                    opts.all,
                ),
            decreases self.0@.len() - i,
        {
            let ghost rv = Seq::new(rows@.len(), |m: int| (rows@[m].0@, rows@[m].1 as int));
            let ghost prefix = a.take(i as int);
            proof {
                assert(a.take(i + 1).drop_last() =~= prefix);
                assert(a.take(i + 1).last() == a[i as int]);
                assert(a[i as int] == (self.0@[i as int].0@, self.0@[i as int].1@));
            }
            let entry = &self.0[i].1;
            if opts.all || entry.detectable {
                proof {
                    lemma_summary_total(a.take(i + 1), opts.all);
                    lemma_summary_total(prefix, opts.all);
                    lemma_included_sum_take(a, opts.all, i + 1);
                    assert(sizes_nonneg(prefix)) by {
                        assert(forall|m: int|
                            0 <= m < prefix.len() ==> (#[trigger] prefix[m].1.size) >= 0);
                    }
                    lemma_summary_nonneg(prefix, opts.all);
                }
                // Find the language's row, if it already has one.
                let mut j: usize = 0;
                let mut found = false;
                while j < rows.len() && !found
                    invariant
                        j <= rows@.len(),
                        !found ==> find_lang_from(rv, entry@.language, 0) == find_lang_from(
                            rv,
                            entry@.language,
                            j as int,
                        ),
                        found ==> j < rows@.len() && find_lang_from(rv, entry@.language, 0)
                            == Option::Some(j as int),
                    decreases rows@.len() - j, (if found {
                        0int
                    } else {
                        1int
                    }),
                {
                    proof {
                        assert(rv[j as int] == (rows@[j as int].0@, rows@[j as int].1 as int));
                    }
                    if rows[j].0 == entry.language {
                        found = true;
                    } else {
                        j += 1;
                    }
                }
                if found {
                    proof {
                        lemma_find_lang_in_range(rv, entry@.language, 0);
                        lemma_value_le_sum(rv, j as int);
                        lemma_bump_sum(rv, entry@.language, entry@.size);
                        lemma_sum_nonneg(rv);
                    }
                    let added = rows[j].1 + entry.size;
                    rows[j].1 = added;
                    proof {
                        assert(Seq::new(rows@.len(), |m: int| (rows@[m].0@, rows@[m].1 as int))
                            =~= spec_bump(rv, entry@.language, entry@.size));
                    }
                } else {
                    rows.push((entry.language.clone(), entry.size));
                    proof {
                        assert(Seq::new(rows@.len(), |m: int| (rows@[m].0@, rows@[m].1 as int))
                            =~= spec_bump(rv, entry@.language, entry@.size));
                    }
                }
            }
            i += 1;
        }
        proof {
            assert(a.take(self.0@.len() as int) =~= a);
        }
        let r = Summary(rows);
        proof {
            assert(r@ =~= spec_summary(a, opts.all));
        }
        r
    }
}

impl Summary {
    /// The total size of all languages.
    pub fn total(&self) -> (r: usize)
        requires
            spec_sum_sizes(self@) <= usize::MAX,
        ensures
            r == spec_sum_sizes(self@),
    {
        proof {
            assert(self@.take(0) =~= Seq::<(LanguageView, int)>::empty());
            assert forall|i: int| 0 <= i < self@.len() implies (#[trigger] self@[i].1) >= 0 by {
                assert(self@[i] == (self.0@[i].0@, self.0@[i].1 as int));
            }
        }
        let ghost sv = self@;
        let mut result: usize = 0;
        let mut k: usize = 0;
        while k < self.0.len()
            invariant
                k <= self.0@.len(),
                sv == self@,
                result == spec_sum_sizes(sv.take(k as int)),
                spec_sum_sizes(sv) <= usize::MAX,
                sums_nonneg(sv),
            decreases self.0@.len() - k,
        {
            proof {
                assert(sv.take(k + 1).drop_last() =~= sv.take(k as int));
                assert(sv.take(k + 1).last() == sv[k as int]);
                assert(sv[k as int] == (self.0@[k as int].0@, self.0@[k as int].1 as int));
                lemma_sum_prefix_le(sv, k + 1);
            }
            result = result + self.0[k].1;
            k += 1;
        }
        proof {
            assert(sv.take(self.0@.len() as int) =~= sv);
        }
        result
    }

    /// The languages and their aggregate sizes, in first-seen order.
    pub fn entries(&self) -> (r: &Vec<(LanguageOld, usize)>)
        ensures
            r@.len() == self@.len(),
            forall|i: int|
                0 <= i < self@.len() ==> (#[trigger] r@[i].0)@ == self@[i].0 && r@[i].1
                    == self@[i].1,
    {
        &self.0
    }
}

/// A non-negative summary's prefix sums never exceed the whole sum.
proof fn lemma_sum_prefix_le(s: Seq<(LanguageView, int)>, i: int)
    requires
        sums_nonneg(s),
        0 <= i <= s.len(),
    ensures
        spec_sum_sizes(s.take(i)) <= spec_sum_sizes(s),
        spec_sum_sizes(s.take(i)) >= 0,
    decreases s.len() - i,
{
    if i == s.len() {
        assert(s.take(i) =~= s);
        lemma_sum_nonneg(s);
    } else {
        lemma_sum_prefix_le(s, i + 1);
        assert(s.take(i + 1).drop_last() =~= s.take(i));
        assert(s.take(i + 1).last() == s[i]);
        assert(sums_nonneg(s.take(i))) by {
            assert(forall|m: int| 0 <= m < i ==> s.take(i)[m] == #[trigger] s[m]);
        }
        lemma_sum_nonneg(s.take(i));
    }
}

} // verus!

verus! {

/// No language stands in two rows.
pub open spec fn langs_distinct(s: Seq<(LanguageView, int)>) -> bool {
    forall|i: int, j: int| 0 <= i < j < s.len() ==> (#[trigger] s[i].0) != (#[trigger] s[j].0)
}

proof fn lemma_find_lang_none(s: Seq<(LanguageView, int)>, l: LanguageView, i: int)
    requires
        0 <= i,
    ensures
        find_lang_from(s, l, i) is None ==> forall|j: int| i <= j < s.len() ==> (#[trigger] s[j].0)
            != l,
    decreases s.len() - i,
{
    if 0 <= i < s.len() && s[i].0 != l {
        lemma_find_lang_none(s, l, i + 1);
    }
}

proof fn lemma_bump_distinct(s: Seq<(LanguageView, int)>, l: LanguageView, size: int)
    requires
        langs_distinct(s),
    ensures
        langs_distinct(spec_bump(s, l, size)),
{
    match find_lang_from(s, l, 0) {
        Option::Some(j) => {
            lemma_find_lang_in_range(s, l, 0);
        },
        Option::None => {
            lemma_find_lang_none(s, l, 0);
        },
    }
}

/// A summary groups by language: each language has exactly one row.
pub proof fn lemma_summary_languages_distinct(a: Seq<(Seq<char>, EntryView)>, all: bool)
    ensures
        langs_distinct(spec_summary(a, all)),
    decreases a.len(),
{
    if a.len() > 0 {
        lemma_summary_languages_distinct(a.drop_last(), all);
        let e = a.last().1;
        if all || e.detectable {
            lemma_bump_distinct(spec_summary(a.drop_last(), all), e.language, e.size);
        }
    }
}

} // verus!
