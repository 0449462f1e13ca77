//! Small verified helpers over `&str` viewed as sequences of characters.

use vstd::prelude::*;

verus! {

/// `s` ends with the suffix `suf`.
pub open spec fn spec_ends_with(s: Seq<char>, suf: Seq<char>) -> bool {
    s.len() >= suf.len() && s.subrange(s.len() - suf.len(), s.len() as int) == suf
}

/// `s` starts with the prefix `pre`.
pub open spec fn spec_starts_with(s: Seq<char>, pre: Seq<char>) -> bool {
    s.len() >= pre.len() && s.subrange(0, pre.len() as int) == pre
}

/// Character-wise string equality.
pub fn str_eq(a: &str, b: &str) -> (r: bool)
    ensures
        r == (a@ == b@),
{
    let la = a.unicode_len();
    let lb = b.unicode_len();
    if la != lb {
        return false;
    }
    let mut i: usize = 0;
    while i < la
        invariant
            la == a@.len(),
            la == b@.len(),
            i <= la,
            forall|j: int| 0 <= j < i ==> a@[j] == b@[j],
        decreases la - i,
    {
        if a.get_char(i) != b.get_char(i) {
            return false;
        }
        i += 1;
    }
    proof {
        assert(a@ =~= b@);
    }
    true
}

/// Whether `s` ends with `suf`, by characters.
pub fn ends_with(s: &str, suf: &str) -> (r: bool)
    ensures
        r == spec_ends_with(s@, suf@),
{
    let ls = s.unicode_len();
    let lsuf = suf.unicode_len();
    if ls < lsuf {
        return false;
    }
    let tail = s.substring_char(ls - lsuf, ls);
    str_eq(tail, suf)
}

/// Whether `s` starts with `pre`, by characters.
pub fn starts_with(s: &str, pre: &str) -> (r: bool)
    ensures
        r == spec_starts_with(s@, pre@),
{
    let ls = s.unicode_len();
    let lpre = pre.unicode_len();
    if ls < lpre {
        return false;
    }
    let head = s.substring_char(0, lpre);
    str_eq(head, pre)
}

/// A fresh `String` holding the first `n` characters of `s`.
pub fn take_chars(s: &str, n: usize) -> (r: String)
    requires
        n <= s@.len(),
    ensures
        r@ == s@.subrange(0, n as int),
{
    let head = s.substring_char(0, n);
    String::from_str(head)
}

} // verus!
