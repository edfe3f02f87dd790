//! Verified parsing of a shebang line.
//!
//! The first line of a file, capped at 50 bytes and stripped of trailing
//! whitespace, names an interpreter when it has the shape
//! `#!` + (`/usr` | `/usr/local` | nothing) + `/bin/` + optional `env`
//! indirection + a token of ASCII word bytes.

use vstd::prelude::*;

verus! {

/// The number of bytes before the first line feed, or the whole length.
pub open spec fn spec_line_len(c: Seq<u8>) -> int
    decreases c.len(),
{
    if c.len() == 0 {
        0
    } else if c[0] == 10 {
        0
    } else {
        1 + spec_line_len(c.drop_first())
    }
}

/// A byte that counts as whitespace inside a line: space, tab, vertical
/// tab, form feed or carriage return.
pub open spec fn is_line_ws(b: u8) -> bool {
    b == 32 || b == 9 || b == 11 || b == 12 || b == 13
}

/// An ASCII word byte: a letter, a digit or an underscore.
pub open spec fn is_word_byte(b: u8) -> bool {
    (97 <= b <= 122) || (65 <= b <= 90) || (48 <= b <= 57) || b == 95
}

/// The length that remains after trailing whitespace is dropped.
pub open spec fn spec_trim_len(l: Seq<u8>) -> int
    decreases l.len(),
{
    if l.len() == 0 {
        0
    } else if is_line_ws(l.last()) {
        spec_trim_len(l.drop_last())
    } else {
        l.len() as int
    }
}

/// The first line of a file, capped at 50 bytes, with trailing whitespace
/// dropped.
pub open spec fn spec_shebang_line(c: Seq<u8>) -> Seq<u8> {
    let line = c.take(spec_line_len(c));
    let capped = if line.len() > 50 { line.take(50) } else { line };
    capped.take(spec_trim_len(capped))
}

/// What follows the `/bin/` part, when the line starts with `/bin/`,
/// `/usr/bin/` or `/usr/local/bin/`.
pub open spec fn spec_bin_rest(l: Seq<u8>) -> Option<Seq<u8>> {
    // "/bin/"
    if l.len() >= 5 && l[0] == 47 && l[1] == 98 && l[2] == 105 && l[3] == 110 && l[4] == 47 {
        Option::Some(l.skip(5))
    // "/usr/bin/"
    } else if l.len() >= 9 && l[0] == 47 && l[1] == 117 && l[2] == 115 && l[3] == 114 && l[4]
        == 47 && l[5] == 98 && l[6] == 105 && l[7] == 110 && l[8] == 47 {
        Option::Some(l.skip(9))
    // "/usr/local/bin/"
    } else if l.len() >= 15 && l[0] == 47 && l[1] == 117 && l[2] == 115 && l[3] == 114 && l[4]
        == 47 && l[5] == 108 && l[6] == 111 && l[7] == 99 && l[8] == 97 && l[9] == 108 && l[10]
        == 47 && l[11] == 98 && l[12] == 105 && l[13] == 110 && l[14] == 47 {
        Option::Some(l.skip(15))
    } else {
        Option::None
    }
}

/// Drops leading whitespace.
pub open spec fn spec_skip_ws(l: Seq<u8>) -> Seq<u8>
    decreases l.len(),
{
    if l.len() > 0 && is_line_ws(l[0]) {
        spec_skip_ws(l.drop_first())
    } else {
        l
    }
}

/// Strips an `env` indirection: `env` followed by at least one whitespace
/// byte, then any further whitespace.
pub open spec fn spec_env_rest(l: Seq<u8>) -> Seq<u8> {
    // "env" + whitespace
    if l.len() >= 4 && l[0] == 101 && l[1] == 110 && l[2] == 118 && is_line_ws(l[3]) {
        spec_skip_ws(l.skip(3))
    } else {
        l
    }
}

pub open spec fn all_word_bytes(l: Seq<u8>) -> bool {
    forall|i: int| 0 <= i < l.len() ==> is_word_byte(l[i])
}

/// The interpreter a file's shebang line names, if any.
pub open spec fn spec_shebang_interpreter(c: Seq<u8>) -> Option<Seq<u8>> {
    let l = spec_shebang_line(c);
    // "#!"
    if l.len() >= 2 && l[0] == 35 && l[1] == 33 {
        match spec_bin_rest(l.skip(2)) {
            Option::Some(rest) => {
                let tok = spec_env_rest(rest);
                if tok.len() > 0 && all_word_bytes(tok) {
                    Option::Some(tok)
                } else {
                    Option::None
                }
            },
            Option::None => Option::None,
        }
    } else {
        Option::None
    }
}

pub proof fn lemma_line_len_at(c: Seq<u8>, i: int)
    requires
        0 <= i <= c.len(),
        forall|j: int| 0 <= j < i ==> c[j] != 10,
        i < c.len() ==> c[i] == 10,
    ensures
        spec_line_len(c) == i,
    decreases i,
{
    if i == 0 {
    } else {
        lemma_line_len_at(c.drop_first(), i - 1);
    }
}

proof fn lemma_trim_len_at(l: Seq<u8>, j: int)
    requires
        0 <= j <= l.len(),
        forall|k: int| j <= k < l.len() ==> is_line_ws(l[k]),
        j > 0 ==> !is_line_ws(l[j - 1]),
    ensures
        spec_trim_len(l) == j,
    decreases l.len(),
{
    if l.len() == 0 {
    } else if is_line_ws(l.last()) {
        assert(j < l.len());
        lemma_trim_len_at(l.drop_last(), j);
    } else {
        assert(j == l.len());
    }
}

proof fn lemma_skip_ws_at(l: Seq<u8>, k: int)
    requires
        0 <= k <= l.len(),
        forall|m: int| 0 <= m < k ==> is_line_ws(l[m]),
        k < l.len() ==> !is_line_ws(l[k]),
    ensures
        spec_skip_ws(l) == l.skip(k),
    decreases k,
{
    if k == 0 {
        assert(l.skip(0) =~= l);
    } else {
        lemma_skip_ws_at(l.drop_first(), k - 1);
        assert(l.drop_first().skip(k - 1) =~= l.skip(k));
    }
}

/// Extracts the interpreter named by a file's shebang line, if any.
#[verifier::loop_isolation(false)]
#[verifier::rlimit(60)]
pub fn shebang_interpreter(contents: &[u8]) -> (r: Option<Vec<u8>>)
    ensures
        r.deep_view() == spec_shebang_interpreter(contents@),
{
    // Find the end of the first line.
    let mut line_end: usize = 0;
    while line_end < contents.len() && contents[line_end] != 10
        invariant
            line_end <= contents.len(),
            forall|j: int| 0 <= j < line_end ==> contents@[j] != 10,
        decreases contents.len() - line_end,
    {
        line_end += 1;
    }
    proof {
        lemma_line_len_at(contents@, line_end as int);
    }
    // Cap at 50 bytes.
    let capped_end: usize = if line_end > 50 { 50 } else { line_end };
    let ghost capped = contents@.take(spec_line_len(contents@)).take(capped_end as int);
    proof {
        assert(capped =~= contents@.subrange(0, capped_end as int));
    }
    // Drop trailing whitespace.
    let mut trim: usize = capped_end;
    while trim > 0 && is_ws_byte(contents[trim - 1])
        invariant
            trim <= capped_end,
            capped_end <= contents.len(),
            capped == contents@.subrange(0, capped_end as int),
            forall|k: int| trim <= k < capped_end ==> is_line_ws(capped[k]),
        decreases trim,
    {
        trim -= 1;
    }
    proof {
        lemma_trim_len_at(capped, trim as int);
    }
    let line = slice_range(contents, 0, trim);
    proof {
        assert(line@ =~= capped.take(trim as int));
        assert(line@ == spec_shebang_line(contents@));
    }

    // "#!"
    if !(line.len() >= 2 && line[0] == 35 && line[1] == 33) {
        return Option::None;
    }
    let after = slice_range(line, 2, line.len());
    proof {
        assert(after@ =~= line@.skip(2));
    }
    // "/bin/", "/usr/bin/" or "/usr/local/bin/"
    let rest_start: usize = if after.len() >= 5 && after[0] == 47 && after[1] == 98 && after[2]
        == 105 && after[3] == 110 && after[4] == 47 {
        5
    } else if after.len() >= 9 && after[0] == 47 && after[1] == 117 && after[2] == 115 && after[3]
        == 114 && after[4] == 47 && after[5] == 98 && after[6] == 105 && after[7] == 110
        && after[8] == 47 {
        9
    } else if after.len() >= 15 && after[0] == 47 && after[1] == 117 && after[2] == 115 && after[3]
        == 114 && after[4] == 47 && after[5] == 108 && after[6] == 111 && after[7] == 99
        && after[8] == 97 && after[9] == 108 && after[10] == 47 && after[11] == 98 && after[12]
        == 105 && after[13] == 110 && after[14] == 47 {
        15
    } else {
        return Option::None;
    };
    let rest = slice_range(after, rest_start, after.len());
    proof {
        assert(rest@ =~= after@.skip(rest_start as int));
        assert(spec_bin_rest(after@) == Option::Some(rest@));
    }

    // Optional "env" + whitespace indirection.
    let tok: &[u8] = if rest.len() >= 4 && rest[0] == 101 && rest[1] == 110 && rest[2] == 118
        && is_ws_byte(rest[3]) {
        let after_env = slice_range(rest, 3, rest.len());
        proof {
            assert(after_env@ =~= rest@.skip(3));
        }
        let mut k: usize = 0;
        while k < after_env.len() && is_ws_byte(after_env[k])
            invariant
                k <= after_env.len(),
                forall|m: int| 0 <= m < k ==> is_line_ws(after_env@[m]),
        decreases after_env.len() - k,
        {
            k += 1;
        }
        proof {
            lemma_skip_ws_at(after_env@, k as int);
        }
        let t = slice_range(after_env, k, after_env.len());
        proof {
            assert(t@ =~= after_env@.skip(k as int));
            assert(spec_env_rest(rest@) == t@);
        }
        t
    } else {
        proof {
            assert(spec_env_rest(rest@) == rest@);
        }
        rest
    };

    // The interpreter token: at least one byte, all word bytes.
    if tok.len() == 0 {
        return Option::None;
    }
    let mut w: usize = 0;
    while w < tok.len()
        invariant
            w <= tok.len(),
            forall|m: int| 0 <= m < w ==> is_word_byte(tok@[m]),
        decreases tok.len() - w,
    {
        if !is_word_byte_exec(tok[w]) {
            proof {
                assert(!all_word_bytes(tok@)) by {
                    assert(!is_word_byte(tok@[w as int]));
                }
            }
            return Option::None;
        }
        w += 1;
    }
    let out = vstd::slice::slice_to_vec(tok);
    Option::Some(out)
}

/// Whether a byte counts as whitespace inside a line.
fn is_ws_byte(b: u8) -> (r: bool)
    ensures
        r == is_line_ws(b),
{
    b == 32 || b == 9 || b == 11 || b == 12 || b == 13
}

/// Whether a byte is an ASCII word byte.
fn is_word_byte_exec(b: u8) -> (r: bool)
    ensures
        r == is_word_byte(b),
{
    (97 <= b && b <= 122) || (65 <= b && b <= 90) || (48 <= b && b <= 57) || b == 95
}

/// Takes the subslice from `i` (inclusive) to `j` (exclusive).
fn slice_range<'a>(s: &'a [u8], i: usize, j: usize) -> (r: &'a [u8])
    requires
        0 <= i <= j <= s@.len(),
    ensures
        r@ == s@.subrange(i as int, j as int),
{
    vstd::slice::slice_subrange(s, i, j)
}

} // verus!
