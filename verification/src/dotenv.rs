//! Line-by-line lookup in `.env` file content.
//!
//! Blank lines and `#` comments are skipped; a line `NAME=value` matches
//! when `NAME`, trimmed, equals the wanted variable; the value is trimmed,
//! surrounding quotes are stripped, and an empty value never matches.

use vstd::prelude::*;

verus! {

use vstd::string::{StrSliceExecFns, StringExecFns};

pub open spec fn is_space(c: char) -> bool {
    c == ' ' || c == '\t' || c == '\r'
}

pub open spec fn drop_leading_ws(s: Seq<char>) -> Seq<char>
    decreases s.len(),
{
    if s.len() > 0 && is_space(s[0]) {
        drop_leading_ws(s.drop_first())
    } else {
        s
    }
}

pub open spec fn drop_trailing_ws(s: Seq<char>) -> Seq<char>
    decreases s.len(),
{
    if s.len() > 0 && is_space(s.last()) {
        drop_trailing_ws(s.drop_last())
    } else {
        s
    }
}

pub open spec fn spec_trim(s: Seq<char>) -> Seq<char> {
    drop_trailing_ws(drop_leading_ws(s))
}

pub open spec fn drop_leading_char(s: Seq<char>, c: char) -> Seq<char>
    decreases s.len(),
{
    if s.len() > 0 && s[0] == c {
        drop_leading_char(s.drop_first(), c)
    } else {
        s
    }
}

pub open spec fn drop_trailing_char(s: Seq<char>, c: char) -> Seq<char>
    decreases s.len(),
{
    if s.len() > 0 && s.last() == c {
        drop_trailing_char(s.drop_last(), c)
    } else {
        s
    }
}

pub open spec fn spec_trim_matches(s: Seq<char>, c: char) -> Seq<char> {
    drop_trailing_char(drop_leading_char(s, c), c)
}

/// The value a quoted assignment carries: surrounding double quotes are
/// stripped, then surrounding single quotes.
pub open spec fn spec_unquote(s: Seq<char>) -> Seq<char> {
    spec_trim_matches(spec_trim_matches(s, '"'), '\'')
}

/// First position at or after `from` where `c` stands.
pub open spec fn spec_find_ch(s: Seq<char>, from: nat, c: char) -> Option<nat>
    decreases s.len() - from,
{
    if from >= s.len() {
        None
    } else if s[from as int] == c {
        Some(from)
    } else {
        spec_find_ch(s, from + 1, c)
    }
}

/// What one line yields for a wanted variable: the unquoted, non-empty value
/// of a matching `NAME=value` assignment.
pub open spec fn spec_dotenv_line(line: Seq<char>, var: Seq<char>) -> Option<Seq<char>> {
    let t = spec_trim(line);
    if t.len() == 0 || t[0] == '#' {
        None
    } else {
        match spec_find_ch(t, 0, '=') {
            None => None,
            Some(eq) => {
                if eq >= t.len() {
                    None
                } else {
                    let k = spec_trim(t.subrange(0, eq as int));
                    if k == var {
                        let v = spec_unquote(spec_trim(t.subrange(eq as int + 1, t.len() as int)));
                        if v.len() > 0 {
                            Some(v)
                        } else {
                            None
                        }
                    } else {
                        None
                    }
                }
            },
        }
    }
}

/// What the whole content yields: the first line with a non-empty value for
/// the wanted variable.
pub open spec fn spec_dotenv_lookup_from(content: Seq<char>, p: nat, var: Seq<char>) -> Option<
    Seq<char>,
>
    decreases content.len() - p,
{
    if p > content.len() {
        None
    } else {
        let lineend = match spec_find_ch(content, p, '\n') {
            Some(j) => j,
            None => content.len(),
        };
        if lineend < p || lineend > content.len() {
            None
        } else {
            let line = content.subrange(p as int, lineend as int);
            match spec_dotenv_line(line, var) {
                Some(v) => Some(v),
                None => {
                    if lineend >= content.len() {
                        None
                    } else {
                        spec_dotenv_lookup_from(content, lineend + 1, var)
                    }
                },
            }
        }
    }
}

pub open spec fn spec_dotenv_lookup(content: Seq<char>, var: Seq<char>) -> Option<Seq<char>> {
    spec_dotenv_lookup_from(content, 0, var)
}

pub proof fn lemma_find_ch_props(s: Seq<char>, from: nat, c: char)
    requires
        from <= s.len(),
    ensures
        match spec_find_ch(s, from, c) {
            Some(j) => from <= j < s.len() && s[j as int] == c && forall|k: int|
                from <= k < j ==> s[k] != c,
            None => forall|k: int| from <= k < s.len() ==> s[k] != c,
        },
    decreases s.len() - from,
{
    if from >= s.len() {
    } else if s[from as int] == c {
    } else {
        lemma_find_ch_props(s, from + 1, c);
    }
}

pub fn find_ch(s: &str, from: usize, c: char) -> (r: Option<usize>)
    requires
        from <= s@.len(),
    ensures
        match r {
            Some(j) => spec_find_ch(s@, from as nat, c) == Some(j as nat),
            None => spec_find_ch(s@, from as nat, c) == None::<nat>,
        },
{
    let n = s.unicode_len();
    let mut i: usize = from;
    while i < n
        invariant
            n == s@.len(),
            from <= i <= n,
            spec_find_ch(s@, from as nat, c) == spec_find_ch(s@, i as nat, c),
        decreases n - i,
    {
        if s.get_char(i) == c {
            return Some(i);
        }
        i = i + 1;
    }
    None
}

/// Indices of `s[from..to]` once surrounding whitespace is gone.
fn trim_region(s: &str, from: usize, to: usize) -> (r: (usize, usize))
    requires
        from <= to <= s@.len(),
    ensures
        from <= r.0 <= r.1 <= to,
        s@.subrange(r.0 as int, r.1 as int) == spec_trim(s@.subrange(from as int, to as int)),
{
    let ghost whole = s@.subrange(from as int, to as int);
    let mut lo: usize = from;
    loop
        invariant
            from <= lo <= to <= s@.len(),
            drop_leading_ws(whole) == drop_leading_ws(s@.subrange(lo as int, to as int)),
        ensures
            from <= lo <= to,
            drop_leading_ws(whole) == drop_leading_ws(s@.subrange(lo as int, to as int)),
            lo >= to || !is_space(s@[lo as int]),
        decreases to - lo,
    {
        if lo >= to {
            break;
        }
        let c = s.get_char(lo);
        if !(c == ' ' || c == '\t' || c == '\r') {
            break;
        }
        proof {
            assert(s@.subrange(lo as int, to as int).drop_first() =~= s@.subrange(lo + 1, to as int));
        }
        lo = lo + 1;
    }
    proof {
        assert(drop_leading_ws(s@.subrange(lo as int, to as int)) == s@.subrange(lo as int, to as int));
    }
    let mut hi: usize = to;
    loop
        invariant
            from <= lo <= hi <= to <= s@.len(),
            drop_leading_ws(whole) == s@.subrange(lo as int, to as int),
            drop_trailing_ws(s@.subrange(lo as int, to as int)) == drop_trailing_ws(
                s@.subrange(lo as int, hi as int),
            ),
        ensures
            from <= lo <= hi <= to,
            drop_trailing_ws(s@.subrange(lo as int, to as int)) == drop_trailing_ws(
                s@.subrange(lo as int, hi as int),
            ),
            hi <= lo || !is_space(s@[hi - 1]),
        decreases hi,
    {
        if hi <= lo {
            break;
        }
        let c = s.get_char(hi - 1);
        if !(c == ' ' || c == '\t' || c == '\r') {
            break;
        }
        proof {
            assert(s@.subrange(lo as int, hi as int).drop_last() =~= s@.subrange(lo as int, hi - 1));
        }
        hi = hi - 1;
    }
    proof {
        assert(drop_trailing_ws(s@.subrange(lo as int, hi as int)) == s@.subrange(lo as int, hi as int));
    }
    (lo, hi)
}

/// Indices of `s[from..to]` once surrounding `c` characters are gone.
fn trim_matches_region(s: &str, from: usize, to: usize, c: char) -> (r: (usize, usize))
    requires
        from <= to <= s@.len(),
    ensures
        from <= r.0 <= r.1 <= to,
        s@.subrange(r.0 as int, r.1 as int) == spec_trim_matches(
            s@.subrange(from as int, to as int),
            c,
        ),
{
    let ghost whole = s@.subrange(from as int, to as int);
    let mut lo: usize = from;
    while lo < to && s.get_char(lo) == c
        invariant
            from <= lo <= to <= s@.len(),
            drop_leading_char(whole, c) == drop_leading_char(s@.subrange(lo as int, to as int), c),
        decreases to - lo,
    {
        proof {
            assert(s@.subrange(lo as int, to as int).drop_first() =~= s@.subrange(lo + 1, to as int));
        }
        lo = lo + 1;
    }
    proof {
        assert(drop_leading_char(s@.subrange(lo as int, to as int), c) == s@.subrange(
            lo as int,
            to as int,
        ));
    }
    let mut hi: usize = to;
    while hi > lo && s.get_char(hi - 1) == c
        invariant
            from <= lo <= hi <= to <= s@.len(),
            drop_leading_char(whole, c) == s@.subrange(lo as int, to as int),
            drop_trailing_char(s@.subrange(lo as int, to as int), c) == drop_trailing_char(
                s@.subrange(lo as int, hi as int),
                c,
            ),
        decreases hi,
    {
        proof {
            assert(s@.subrange(lo as int, hi as int).drop_last() =~= s@.subrange(lo as int, hi - 1));
        }
        hi = hi - 1;
    }
    proof {
        assert(drop_trailing_char(s@.subrange(lo as int, hi as int), c) == s@.subrange(
            lo as int,
            hi as int,
        ));
    }
    (lo, hi)
}

fn region_eq_string(s: &str, from: usize, to: usize, want: &String) -> (r: bool)
    requires
        from <= to <= s@.len(),
    ensures
        r == (s@.subrange(from as int, to as int) == want@),
{
    let wn = want.as_str().unicode_len();
    if to - from != wn {
        proof {
            assert(s@.subrange(from as int, to as int).len() != want@.len());
        }
        return false;
    }
    let mut i: usize = 0;
    while i < wn
        invariant
            from <= to <= s@.len(),
            wn == want@.len(),
            to - from == wn,
            i <= wn,
            forall|k: int| 0 <= k < i ==> s@.subrange(from as int, to as int)[k] == want@[k],
        decreases wn - i,
    {
        if s.get_char(from + i) != want.as_str().get_char(i) {
            proof {
                assert(s@.subrange(from as int, to as int)[i as int] != want@[i as int]);
            }
            return false;
        }
        i = i + 1;
        proof {
            assert(s@.subrange(from as int, to as int)[i - 1] == want@[i - 1]);
        }
    }
    proof {
        assert(s@.subrange(from as int, to as int) =~= want@);
    }
    true
}

fn copy_region(s: &str, from: usize, to: usize) -> (r: String)
    requires
        from <= to <= s@.len(),
    ensures
        r@ == s@.subrange(from as int, to as int),
{
    let mut out = String::new();
    let mut i: usize = from;
    while i < to
        invariant
            from <= i <= to <= s@.len(),
            out@ == s@.subrange(from as int, i as int),
        decreases to - i,
    {
        crate::casing::push_char(&mut out, s.get_char(i));
        i = i + 1;
        proof {
            assert(out@ =~= s@.subrange(from as int, i as int));
        }
    }
    proof {
        assert(s@.subrange(from as int, from as int) =~= Seq::<char>::empty());
    }
    out
}

/// Evaluate one line region for the wanted variable.
#[verifier::loop_isolation(false)]
fn dotenv_line(s: &str, from: usize, to: usize, var: &String) -> (r: Option<String>)
    requires
        from <= to <= s@.len(),
    ensures
        match r {
            Some(v) => spec_dotenv_line(s@.subrange(from as int, to as int), var@) == Some(v@),
            None => spec_dotenv_line(s@.subrange(from as int, to as int), var@) == None::<Seq<char>>,
        },
{
    let ghost line = s@.subrange(from as int, to as int);
    let (lo, hi) = trim_region(s, from, to);
    let ghost t = spec_trim(line);
    proof {
        assert(s@.subrange(lo as int, hi as int) == t);
    }
    if lo == hi {
        proof {
            assert(t.len() == 0);
        }
        return None;
    }
    if s.get_char(lo) == '#' {
        proof {
            assert(t[0] == '#');
        }
        return None;
    }
    proof {
        assert(t[0] != '#');
        lemma_find_ch_props(s@, lo as nat, '=');
    }
    let eq = match find_ch(s, lo, '=') {
        Some(j) if j < hi => j,
        _ => {
            proof {
                assert forall|k: int| 0 <= k < t.len() implies t[k] != '=' by {
                    assert(t[k] == s@[lo + k]);
                }
                lemma_find_none(t, 0, '=');
            }
            return None;
        },
    };
    proof {
        assert(s@[eq as int] == '=');
        assert(t[eq - lo] == '=');
        assert forall|k: int| 0 <= k < eq - lo implies t[k] != '=' by {
            assert(t[k] == s@[lo + k]);
        }
        lemma_find_at(t, 0, (eq - lo) as nat, '=');
        assert(t.subrange(0, eq - lo) =~= s@.subrange(lo as int, eq as int));
    }
    let (klo, khi) = trim_region(s, lo, eq);
    if !region_eq_string(s, klo, khi, var) {
        return None;
    }
    proof {
        assert(t.subrange(eq - lo + 1, t.len() as int) =~= s@.subrange(eq + 1, hi as int));
    }
    let (vlo0, vhi0) = trim_region(s, eq + 1, hi);
    let (vlo1, vhi1) = trim_matches_region(s, vlo0, vhi0, '"');
    let (vlo, vhi) = trim_matches_region(s, vlo1, vhi1, '\'');
    if vlo == vhi {
        return None;
    }
    Some(copy_region(s, vlo, vhi))
}

proof fn lemma_find_none(s: Seq<char>, from: nat, c: char)
    requires
        from <= s.len(),
        forall|k: int| from <= k < s.len() ==> s[k] != c,
    ensures
        spec_find_ch(s, from, c) == None::<nat>,
    decreases s.len() - from,
{
    if from < s.len() {
        lemma_find_none(s, from + 1, c);
    }
}

proof fn lemma_find_at(s: Seq<char>, from: nat, j: nat, c: char)
    requires
        from <= j < s.len(),
        s[j as int] == c,
        forall|k: int| from <= k < j ==> s[k] != c,
    ensures
        spec_find_ch(s, from, c) == Some(j),
    decreases j - from,
{
    if from < j {
        lemma_find_at(s, from + 1, j, c);
    }
}

/// Look a variable up in `.env` content: the first matching, non-empty
/// assignment wins.
#[verifier::loop_isolation(false)]
pub fn dotenv_lookup(content: &str, var: &str) -> (r: Option<String>)
    ensures
        match r {
            Some(v) => spec_dotenv_lookup(content@, var@) == Some(v@),
            None => spec_dotenv_lookup(content@, var@) == None::<Seq<char>>,
        },
{
    let n = content.unicode_len();
    let var_s = String::from_str(var);
    let mut p: usize = 0;
    loop
        invariant
            p <= n,
            n == content@.len(),
            var_s@ == var@,
            spec_dotenv_lookup(content@, var@) == spec_dotenv_lookup_from(content@, p as nat, var@),
        decreases n - p,
    {
        proof {
            lemma_find_ch_props(content@, p as nat, '\n');
        }
        let lineend = match find_ch(content, p, '\n') {
            Some(j) => j,
            None => n,
        };
        match dotenv_line(content, p, lineend, &var_s) {
            Some(v) => {
                return Some(v);
            },
            None => {},
        }
        if lineend >= n {
            return None;
        }
        p = lineend + 1;
    }
}

} // verus!
