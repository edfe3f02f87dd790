//! Verified helpers over slash-separated relative paths: the final path
//! component and the final dot-delimited suffix.

use vstd::prelude::*;

verus! {

/// The final path component: everything after the last `/`, or the whole
/// path when it holds no `/`.
pub open spec fn spec_filename(p: Seq<char>) -> Seq<char>
    decreases p.len(),
{
    if p.len() == 0 {
        p
    } else if p.last() == '/' {
        Seq::empty()
    } else {
        spec_filename(p.drop_last()).push(p.last())
    }
}

/// The position just after the last `.` of a sequence, if it holds one.
pub open spec fn spec_last_dot(f: Seq<char>) -> Option<int>
    decreases f.len(),
{
    if f.len() == 0 {
        Option::None
    } else if f.last() == '.' {
        Option::Some(f.len() - 1)
    } else {
        spec_last_dot(f.drop_last())
    }
}

/// The extension of a path: the suffix of its final component after the
/// last `.`, provided that dot is not the component's first character.
pub open spec fn spec_extension(p: Seq<char>) -> Option<Seq<char>> {
    let f = spec_filename(p);
    match spec_last_dot(f) {
        Option::Some(d) => if d > 0 {
            Option::Some(f.skip(d + 1))
        } else {
            Option::None
        },
        Option::None => Option::None,
    }
}

/// The extension of a path, or the empty sequence when it has none.
pub open spec fn spec_extension_or_empty(p: Seq<char>) -> Seq<char> {
    match spec_extension(p) {
        Option::Some(e) => e,
        Option::None => Seq::empty(),
    }
}

proof fn lemma_filename_at(p: Seq<char>, s: int)
    requires
        0 <= s <= p.len(),
        s > 0 ==> p[s - 1] == '/',
        forall|k: int| s <= k < p.len() ==> p[k] != '/',
    ensures
        spec_filename(p) == p.subrange(s, p.len() as int),
    decreases p.len(),
{
    if p.len() == 0 {
        assert(spec_filename(p) =~= p.subrange(0, 0));
    } else if p.last() == '/' {
        assert(s == p.len());
        assert(spec_filename(p) =~= p.subrange(s, p.len() as int));
    } else {
        assert(s < p.len());
        lemma_filename_at(p.drop_last(), s);
        assert(p.drop_last().subrange(s, p.len() - 1) =~= p.subrange(s, p.len() - 1));
        assert(p.subrange(s, p.len() - 1).push(p.last()) =~= p.subrange(s, p.len() as int));
    }
}

proof fn lemma_last_dot_at(f: Seq<char>, d: int)
    requires
        0 <= d < f.len(),
        f[d] == '.',
        forall|k: int| d < k < f.len() ==> f[k] != '.',
    ensures
        spec_last_dot(f) == Option::<int>::Some(d),
    decreases f.len(),
{
    if d == f.len() - 1 {
    } else {
        assert(f.last() != '.');
        lemma_last_dot_at(f.drop_last(), d);
    }
}

proof fn lemma_no_dot(f: Seq<char>)
    requires
        forall|k: int| 0 <= k < f.len() ==> f[k] != '.',
    ensures
        spec_last_dot(f) == Option::<int>::None,
    decreases f.len(),
{
    if f.len() > 0 {
        lemma_no_dot(f.drop_last());
    }
}

/// Returns the final path component of a slash-separated path.
pub fn path_filename(path: &str) -> (r: String)
    ensures
        r@ == spec_filename(path@),
{
    let n = path.unicode_len();
    let mut start: usize = 0;
    let mut j: usize = 0;
    while j < n
        invariant
            n == path@.len(),
            start <= j <= n,
            start > 0 ==> path@[start - 1] == '/',
            forall|k: int| start <= k < j ==> path@[k] != '/',
        decreases n - j,
    {
        if path.get_char(j) == '/' {
            start = j + 1;
        }
        j += 1;
    }
    proof {
        lemma_filename_at(path@, start as int);
    }
    let f = path.substring_char(start, n);
    f.to_owned()
}

/// Returns the extension of a path, or the empty string when it has none.
pub fn path_extension(path: &str) -> (r: String)
    ensures
        r@ == spec_extension_or_empty(path@),
{
    let f = path_filename(path);
    let fs = f.as_str();
    let m = fs.unicode_len();
    let mut dot: usize = 0;
    let mut have_dot = false;
    let mut j: usize = 0;
    while j < m
        invariant
            m == fs@.len(),
            fs@ == spec_filename(path@),
            j <= m,
            have_dot ==> dot < j && fs@[dot as int] == '.',
            have_dot ==> forall|k: int| dot < k < j ==> fs@[k] != '.',
            !have_dot ==> forall|k: int| 0 <= k < j ==> fs@[k] != '.',
        decreases m - j,
    {
        if fs.get_char(j) == '.' {
            dot = j;
            have_dot = true;
        }
        j += 1;
    }
    if have_dot && dot > 0 {
        proof {
            lemma_last_dot_at(fs@, dot as int);
        }
        let e = fs.substring_char(dot + 1, m);
        e.to_owned()
    } else {
        proof {
            if have_dot {
                lemma_last_dot_at(fs@, dot as int);
            } else {
                lemma_no_dot(fs@);
            }
        }
        String::new()
    }
}

} // verus!
