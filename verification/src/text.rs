//! Character-level helpers shared by the parsing modules.

use vstd::prelude::*;

verus! {

/// Character-by-character equality of two string slices.
pub fn str_eq(a: &str, b: &str) -> (r: bool)
    ensures
        r == (a@ == b@),
{
    let alen = a.unicode_len();
    let blen = b.unicode_len();
    if alen != blen {
        return false;
    }
    let mut i: usize = 0;
    while i < alen
        invariant
            i <= alen,
            alen == a@.len(),
            blen == b@.len(),
            alen == blen,
            forall|j: int| 0 <= j < i ==> a@[j] == b@[j],
        decreases alen - i,
    {
        if a.get_char(i) != b.get_char(i) {
            return false;
        }
        i += 1;
    }
    proof {
        assert(a@ =~= b@);
    }
    true
}

/// Copies the characters of a string slice into a vector.
pub fn to_chars(s: &str) -> (r: Vec<char>)
    ensures
        r@ == s@,
{
    let n = s.unicode_len();
    let mut v: Vec<char> = Vec::new();
    let mut i: usize = 0;
    while i < n
        invariant
            i <= n,
            n == s@.len(),
            v@ == s@.subrange(0, i as int),
        decreases n - i,
    {
        let c = s.get_char(i);
        v.push(c);
        proof {
            assert(s@.subrange(0, i + 1 as int) =~= s@.subrange(0, i as int).push(s@[i as int]));
        }
        i += 1;
    }
    proof {
        assert(v@ =~= s@);
    }
    v
}

/// The character sequences of a sequence of strings.
pub open spec fn strings_value(s: Seq<String>) -> Seq<Seq<char>> {
    Seq::new(s.len(), |i: int| s[i]@)
}

/// True when `sub` occurs as a contiguous run inside `s` starting at `at`.
pub open spec fn occurs_at(s: Seq<char>, sub: Seq<char>, at: int) -> bool {
    0 <= at && at + sub.len() <= s.len() && s.subrange(at, at + sub.len()) == sub
}

/// True when `sub` occurs as a contiguous run anywhere inside `s`.
pub open spec fn contains_seq(s: Seq<char>, sub: Seq<char>) -> bool {
    exists|at: int| occurs_at(s, sub, at)
}

/// True when `s` ends with `suffix`.
pub open spec fn ends_with_seq(s: Seq<char>, suffix: Seq<char>) -> bool {
    s.len() >= suffix.len() && s.subrange(s.len() - suffix.len(), s.len() as int) == suffix
}

/// Checks whether `sub` occurs in `s` starting at index `at`.
pub fn chars_occur_at(s: &Vec<char>, sub: &str, at: usize) -> (r: bool)
    ensures
        r == occurs_at(s@, sub@, at as int),
{
    let sublen = sub.unicode_len();
    let n = s.len();
    if at > n || sublen > n - at {
        proof {
            assert(!occurs_at(s@, sub@, at as int));
        }
        return false;
    }
    let mut i: usize = 0;
    while i < sublen
        invariant
            i <= sublen,
            sublen == sub@.len(),
            n == s@.len(),
            at + sublen <= n,
            forall|j: int| 0 <= j < i ==> s@[at + j] == sub@[j],
        decreases sublen - i,
    {
        if s[at + i] != sub.get_char(i) {
            proof {
                assert(s@.subrange(at as int, at + sub@.len())[i as int] != sub@[i as int]);
            }
            return false;
        }
        i += 1;
    }
    proof {
        assert(s@.subrange(at as int, at + sub@.len()) =~= sub@);
    }
    true
}

/// Checks whether `sub` occurs anywhere in `s`.
pub fn chars_contain(s: &Vec<char>, sub: &str) -> (r: bool)
    ensures
        r == contains_seq(s@, sub@),
{
    let n = s.len();
    let mut at: usize = 0;
    while at < n
        invariant
            at <= n,
            n == s@.len(),
            forall|k: int| 0 <= k < at ==> !occurs_at(s@, sub@, k),
        decreases n - at,
    {
        if chars_occur_at(s, sub, at) {
            return true;
        }
        at += 1;
    }
    if chars_occur_at(s, sub, n) {
        return true;
    }
    proof {
        assert(forall|k: int| occurs_at(s@, sub@, k) ==> 0 <= k <= s@.len());
    }
    false
}

/// Checks whether the string `s` contains `sub`.
pub fn str_contains(s: &str, sub: &str) -> (r: bool)
    ensures
        r == contains_seq(s@, sub@),
{
    let cs = to_chars(s);
    chars_contain(&cs, sub)
}

/// Checks whether the string `s` ends with `suffix`.
pub fn str_ends_with(s: &str, suffix: &str) -> (r: bool)
    ensures
        r == ends_with_seq(s@, suffix@),
{
    let cs = to_chars(s);
    let sublen = suffix.unicode_len();
    let n = cs.len();
    if sublen > n {
        return false;
    }
    chars_occur_at(&cs, suffix, n - sublen)
}

/// Checks whether the string `s` starts with `prefix`.
pub fn str_starts_with(s: &str, prefix: &str) -> (r: bool)
    ensures
        r == occurs_at(s@, prefix@, 0),
{
    let cs = to_chars(s);
    chars_occur_at(&cs, prefix, 0)
}

} // verus!
