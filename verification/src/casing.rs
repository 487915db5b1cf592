//! Case folding for keys and provider names.
//!
//! Lookup keys are matched case-insensitively and environment variable names
//! are synthesized in upper case. Unicode case mapping is the standard
//! library's; its results are named here and used exactly in contracts.

use vstd::prelude::*;

verus! {

/// What `str::to_lowercase` returns: the lowercase mapping of `s`.
pub uninterp spec fn lower_of(s: Seq<char>) -> Seq<char>;

/// What `str::to_uppercase` returns: the uppercase mapping of `s`.
pub uninterp spec fn upper_of(s: Seq<char>) -> Seq<char>;

/// Relies on str::to_lowercase: the result depends on the characters alone.
#[verifier::external_body]
pub fn lower(s: &str) -> (r: String)
    ensures
        r@ == lower_of(s@),
{
    s.to_lowercase()
}

/// Relies on str::to_uppercase: the result depends on the characters alone.
#[verifier::external_body]
pub fn upper(s: &str) -> (r: String)
    ensures
        r@ == upper_of(s@),
{
    s.to_uppercase()
}

/// `s` with every hyphen replaced by an underscore.
pub open spec fn spec_underscored(s: Seq<char>) -> Seq<char> {
    s.map(|i: int, c: char| if c == '-' { '_' } else { c })
}

/// Replace hyphens with underscores, as environment variable names require.
pub fn underscore_hyphens(s: &str) -> (r: String)
    ensures
        r@ == spec_underscored(s@),
{
    let ghost target = spec_underscored(s@);
    let mut out = String::new();
    let n = s.unicode_len();
    let mut i: usize = 0;
    while i < n
        invariant
            n == s@.len(),
            i <= n,
            target == spec_underscored(s@),
            out@ == target.subrange(0, i as int),
        decreases n - i,
    {
        let c = s.get_char(i);
        if c == '-' {
            out.append("_");
            proof {
                reveal_strlit("_");
            }
        } else {
            push_char(&mut out, c);
        }
        i = i + 1;
        proof {
            assert(out@ =~= target.subrange(0, i as int));
        }
    }
    proof {
        assert(target.subrange(0, target.len() as int) =~= target);
    }
    out
}

/// Relies on String::push: appends one character.
#[verifier::external_body]
pub(crate) fn push_char(s: &mut String, c: char)
    ensures
        final(s)@ == old(s)@ + seq![c],
{
    s.push(c);
}

/// The environment variable name a key is tried under: the upper-cased key,
/// hyphens as underscores, with `_API_KEY` appended.
pub open spec fn spec_api_key_var(key: Seq<char>) -> Seq<char> {
    spec_underscored(upper_of(key)) + "_API_KEY"@
}

/// Synthesize `{UPPER(key)}_API_KEY`, with hyphens replaced by underscores.
pub fn api_key_var(key: &str) -> (r: String)
    ensures
        r@ == spec_api_key_var(key@),
{
    let up = upper(key);
    let mut out = underscore_hyphens(up.as_str());
    out.append("_API_KEY");
    out
}

} // verus!
