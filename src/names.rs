//! Comparisons of display names, character by character.
use vstd::prelude::*;
use vstd::string::*;

verus! {

/// `suf` is the end of `s`.
pub open spec fn has_suffix(s: Seq<char>, suf: Seq<char>) -> bool {
    suf.len() <= s.len() && s.subrange(s.len() - suf.len(), s.len() as int) == suf
}

/// `pre` is the start of `s`.
pub open spec fn has_prefix(s: Seq<char>, pre: Seq<char>) -> bool {
    pre.len() <= s.len() && s.subrange(0, pre.len() as int) == pre
}

/// Whether the characters of `s`, from `start` on, begin with those of `pat`.
fn matches_at(s: &str, start: usize, pat: &str) -> (r: bool)
    requires
        start + pat@.len() <= s@.len(),
    ensures
        r == (s@.subrange(start as int, start + pat@.len()) == pat@),
{
    let total = s.unicode_len();
    let n = pat.unicode_len();
    let mut i: usize = 0;
    while i < n
        invariant
            n == pat@.len(),
            total == s@.len(),
            start + n <= s@.len(),
            i <= n,
            forall|k: int| 0 <= k < i ==> s@[start + k] == pat@[k],
        decreases n - i,
    {
        if s.get_char(start + i) != pat.get_char(i) {
            assert(s@.subrange(start as int, start + n)[i as int] != pat@[i as int]);
            return false;
        }
        i = i + 1;
    }
    assert(s@.subrange(start as int, start + n) =~= pat@);
    true
}

/// Whether `a` and `b` hold the same characters.
pub fn same_text(a: &str, b: &str) -> (r: bool)
    ensures
        r == (a@ == b@),
{
    let n = a.unicode_len();
    if n != b.unicode_len() {
        return false;
    }
    let r = matches_at(a, 0, b);
    assert(a@.subrange(0, n as int) =~= a@);
    r
}

/// Whether `s` ends with `suf`.
pub fn ends_with(s: &str, suf: &str) -> (r: bool)
    ensures
        r == has_suffix(s@, suf@),
{
    let n = s.unicode_len();
    let m = suf.unicode_len();
    if m > n {
        return false;
    }
    matches_at(s, n - m, suf)
}

/// Whether `s` starts with `pre`.
pub fn starts_with(s: &str, pre: &str) -> (r: bool)
    ensures
        r == has_prefix(s@, pre@),
{
    let n = s.unicode_len();
    let m = pre.unicode_len();
    if m > n {
        return false;
    }
    matches_at(s, 0, pre)
}

} // verus!
