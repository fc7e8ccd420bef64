//! Release catalog records and their token grammar.
//!
//! A release is identified by edition, operating system and version, with
//! a download link. Edition and operating-system tokens parse
//! case-insensitively over ASCII.

use vstd::prelude::*;

verus! {

/// The hardware edition of a release.
#[derive(Clone, Copy, Debug, PartialEq, Eq, Structural)]
pub enum Edition {
    Cpu,
    Gpu,
}

/// The operating system a release targets.
#[derive(Clone, Copy, Debug, PartialEq, Eq, Structural)]
pub enum Os {
    Windows,
    Mac,
}

/// One downloadable release as the catalog page offers it.
#[derive(Clone, Debug)]
pub struct DownloadInfo {
    pub edition: Edition,
    pub os: Os,
    pub version: String,
    pub link: String,
}

/// ASCII lower-casing on code points; other characters are unchanged.
pub open spec fn lower_u32(c: char) -> int {
    if 65 <= (c as u32) && (c as u32) <= 90 {
        (c as u32) + 32
    } else {
        (c as u32) as int
    }
}

/// ASCII-case-insensitive equality of character sequences.
pub open spec fn ci_eq(a: Seq<char>, b: Seq<char>) -> bool {
    a.len() == b.len() && forall|i: int| 0 <= i < a.len() ==> lower_u32(#[trigger] a[i]) == lower_u32(b[i])
}

pub open spec fn edition_token_of(s: Seq<char>) -> Option<Edition> {
    if ci_eq(s, "cpu"@) {
        Some(Edition::Cpu)
    } else if ci_eq(s, "gpu"@) {
        Some(Edition::Gpu)
    } else {
        None
    }
}

pub open spec fn os_token_of(s: Seq<char>) -> Option<Os> {
    if ci_eq(s, "windows"@) {
        Some(Os::Windows)
    } else if ci_eq(s, "mac"@) {
        Some(Os::Mac)
    } else {
        None
    }
}

/// Compares two strings ASCII-case-insensitively.
pub fn ci_str_eq(a: &str, b: &str) -> (r: bool)
    ensures
        r == ci_eq(a@, b@),
{
    let alen = a.unicode_len();
    let blen = b.unicode_len();
    if alen != blen {
        return false;
    }
    let mut i: usize = 0;
    while i < alen
        invariant
            i <= alen,
            alen == a@.len(),
            blen == b@.len(),
            alen == blen,
            forall|j: int| 0 <= j < i ==> lower_u32(a@[j]) == lower_u32(b@[j]),
        decreases alen - i,
    {
        let ca = a.get_char(i) as u32;
        let cb = b.get_char(i) as u32;
        let la = if 65 <= ca && ca <= 90 { ca + 32 } else { ca };
        let lb = if 65 <= cb && cb <= 90 { cb + 32 } else { cb };
        if la != lb {
            return false;
        }
        i += 1;
    }
    true
}

impl Edition {
    /// Parses an edition token, ignoring ASCII case.
    pub fn parse_token(s: &str) -> (r: Option<Edition>)
        ensures
            r == edition_token_of(s@),
    {
        if ci_str_eq(s, "cpu") {
            Some(Edition::Cpu)
        } else if ci_str_eq(s, "gpu") {
            Some(Edition::Gpu)
        } else {
            None
        }
    }
}

impl Os {
    /// Parses an operating-system token, ignoring ASCII case.
    pub fn parse_token(s: &str) -> (r: Option<Os>)
        ensures
            r == os_token_of(s@),
    {
        if ci_str_eq(s, "windows") {
            Some(Os::Windows)
        } else if ci_str_eq(s, "mac") {
            Some(Os::Mac)
        } else {
            None
        }
    }
}

} // verus!
