//! Semantic-version handling for catalog records.
//!
//! Release link texts yield version strings drawn from the characters
//! `0`-`9`, `.` and `+`. Over that alphabet, a well-formed version is
//! `major.minor.patch`, optionally followed by `+` and build metadata;
//! the numeric components carry no leading zeros and fit in a `u64`.
//! Parsing is delegated to the `semver` crate and specified exactly over
//! this alphabet; ordering of catalog records compares the numeric triple
//! only, as semantic-version precedence ignores build metadata.

use vstd::prelude::*;

verus! {

/// The numeric components of a parsed version.
#[derive(Clone, Copy, Debug, PartialEq, Eq, Structural)]
pub struct VersionTriple {
    pub major: u64,
    pub minor: u64,
    pub patch: u64,
}

pub open spec fn is_digit(c: char) -> bool {
    48 <= (c as u32) && (c as u32) <= 57
}

/// The characters that may appear in a version string taken from a
/// release link text.
pub open spec fn is_version_char(c: char) -> bool {
    is_digit(c) || (c as u32) == 46 || (c as u32) == 43
}

pub open spec fn all_version_chars(s: Seq<char>) -> bool {
    forall|i: int| 0 <= i < s.len() ==> is_version_char(#[trigger] s[i])
}

pub open spec fn digit_val(c: char) -> nat {
    ((c as u32) - 48) as nat
}

/// Value of a run of decimal digits.
pub open spec fn digits_val(s: Seq<char>) -> nat
    decreases s.len(),
{
    if s.len() == 0 {
        0
    } else {
        digits_val(s.drop_last()) * 10 + digit_val(s.last())
    }
}

/// A numeric version component: a nonempty digit run without leading
/// zeros whose value fits in a `u64`.
pub open spec fn valid_numeric(s: Seq<char>) -> bool {
    &&& s.len() > 0
    &&& forall|i: int| 0 <= i < s.len() ==> is_digit(#[trigger] s[i])
    &&& (s.len() > 1 ==> s[0] != '0')
    &&& digits_val(s) <= u64::MAX
}

/// First index at or after `from` holding a non-digit, or the length of
/// `s` when only digits follow.
pub open spec fn end_of_digits(s: Seq<char>, from: int) -> int
    decreases s.len() - from when 0 <= from <= s.len()
{
    if from < s.len() && is_digit(s[from]) {
        end_of_digits(s, from + 1)
    } else {
        from
    }
}

/// Build metadata over the restricted alphabet: nonempty, no `+`, and
/// dot-separated nonempty identifiers.
pub open spec fn valid_build(b: Seq<char>) -> bool {
    &&& b.len() > 0
    &&& forall|i: int| 0 <= i < b.len() ==> (is_digit(#[trigger] b[i]) || b[i] == '.')
    &&& b[0] != '.'
    &&& b[b.len() - 1] != '.'
    &&& forall|i: int| 0 <= i < b.len() - 1 ==> !(#[trigger] b[i] == '.' && b[i + 1] == '.')
}

/// The parse of a version string over the restricted alphabet:
/// `major.minor.patch` with optional `+build`.
pub open spec fn version_triple_of(s: Seq<char>) -> Option<VersionTriple> {
    let i = end_of_digits(s, 0);
    if i >= s.len() || s[i] != '.' {
        None
    } else {
        let j = end_of_digits(s, i + 1);
        if j >= s.len() || s[j] != '.' {
            None
        } else {
            let k = end_of_digits(s, j + 1);
            let major = s.subrange(0, i);
            let minor = s.subrange(i + 1, j);
            let patch = s.subrange(j + 1, k);
            if !(valid_numeric(major) && valid_numeric(minor) && valid_numeric(patch)) {
                None
            } else if k == s.len() {
                Some(VersionTriple {
                    major: digits_val(major) as u64,
                    minor: digits_val(minor) as u64,
                    patch: digits_val(patch) as u64,
                })
            } else if s[k] == '+' && valid_build(s.subrange(k + 1, s.len() as int)) {
                Some(VersionTriple {
                    major: digits_val(major) as u64,
                    minor: digits_val(minor) as u64,
                    patch: digits_val(patch) as u64,
                })
            } else {
                None
            }
        }
    }
}

/// Relies on `semver::Version::parse`: over text made of digits, dots and
/// plus signs it accepts exactly `major.minor.patch` with optional build
/// metadata — numeric components without leading zeros that fit in `u64`,
/// build identifiers nonempty and dot-separated — and yields the three
/// numeric components.
#[verifier::external_body]
pub(crate) fn parse_version_triple(s: &str) -> (r: Option<VersionTriple>)
    ensures
        all_version_chars(s@) ==> r == version_triple_of(s@),
{
    match semver::Version::parse(s) {
        Ok(v) => Some(VersionTriple { major: v.major, minor: v.minor, patch: v.patch }),
        Err(_) => None,
    }
}

/// Lexicographic strict order on version triples, newest greatest.
pub open spec fn triple_lt(a: VersionTriple, b: VersionTriple) -> bool {
    ||| a.major < b.major
    ||| (a.major == b.major && a.minor < b.minor)
    ||| (a.major == b.major && a.minor == b.minor && a.patch < b.patch)
}

pub open spec fn triple_ge(a: VersionTriple, b: VersionTriple) -> bool {
    !triple_lt(a, b)
}

/// Compares two version triples, lexicographically by component.
pub fn triple_is_lt(a: &VersionTriple, b: &VersionTriple) -> (r: bool)
    ensures
        r == triple_lt(*a, *b),
{
    if a.major != b.major {
        a.major < b.major
    } else if a.minor != b.minor {
        a.minor < b.minor
    } else {
        a.patch < b.patch
    }
}

} // verus!
