//! The grammar of release link texts.
//!
//! The current-downloads table names releases
//! `COEIROINK-{EDITION}-v.{version}({OS})` with upper-case tokens; the
//! older-versions table names them `v.{version}-{os}-{edition}` in lower
//! case. A link text matches when the pattern occurs anywhere inside it;
//! the leftmost occurrence wins and the version run is maximal.

use vstd::prelude::*;
use crate::catalog::{Edition, Os};
use crate::text::occurs_at;
use crate::version::{is_digit, is_version_char};

verus! {

/// Which of the two link-text patterns to match.
#[derive(Clone, Copy, Debug, PartialEq, Eq, Structural)]
pub enum PatternKind {
    Current,
    Legacy,
}

/// A successful match: the tokens recognized and the span of the version
/// run inside the text.
pub struct LinkMatch {
    pub edition: Edition,
    pub os: Os,
    pub vstart: int,
    pub vend: int,
}

/// The characters admitted in a legacy version run.
pub open spec fn is_legacy_version_char(c: char) -> bool {
    is_digit(c) || (c as u32) == 46
}

pub open spec fn version_char_ok(kind: PatternKind, c: char) -> bool {
    match kind {
        PatternKind::Current => is_version_char(c),
        PatternKind::Legacy => is_legacy_version_char(c),
    }
}

/// End of the maximal run of version characters starting at `from`.
pub open spec fn end_of_version_run(kind: PatternKind, s: Seq<char>, from: int) -> int
    decreases s.len() - from when 0 <= from <= s.len()
{
    if from < s.len() && version_char_ok(kind, s[from]) {
        end_of_version_run(kind, s, from + 1)
    } else {
        from
    }
}

/// The match of the current-downloads pattern anchored at `i`.
pub open spec fn match_current_at(s: Seq<char>, i: int) -> Option<LinkMatch> {
    if !occurs_at(s, "COEIROINK-"@, i) {
        None
    } else {
        let ed = if occurs_at(s, "CPU"@, i + 10) {
            Some(Edition::Cpu)
        } else if occurs_at(s, "GPU"@, i + 10) {
            Some(Edition::Gpu)
        } else {
            None
        };
        match ed {
            None => None,
            Some(edition) => {
                if !occurs_at(s, "-v."@, i + 13) {
                    None
                } else {
                    let v0 = i + 16;
                    let vend = end_of_version_run(PatternKind::Current, s, v0);
                    if vend == v0 || vend >= s.len() || s[vend] != '(' {
                        None
                    } else {
                        let osr = if occurs_at(s, "Windows"@, vend + 1) {
                            Some((Os::Windows, vend + 8))
                        } else if occurs_at(s, "Mac"@, vend + 1) {
                            Some((Os::Mac, vend + 4))
                        } else {
                            None
                        };
                        match osr {
                            None => None,
                            Some((os, q)) => {
                                if q < s.len() && s[q] == ')' {
                                    Some(LinkMatch { edition, os, vstart: v0, vend })
                                } else {
                                    None
                                }
                            },
                        }
                    }
                }
            },
        }
    }
}

/// The match of the older-versions pattern anchored at `i`.
pub open spec fn match_legacy_at(s: Seq<char>, i: int) -> Option<LinkMatch> {
    if !occurs_at(s, "v."@, i) {
        None
    } else {
        let v0 = i + 2;
        let vend = end_of_version_run(PatternKind::Legacy, s, v0);
        if vend == v0 || vend >= s.len() || s[vend] != '-' {
            None
        } else {
            let osr = if occurs_at(s, "windows"@, vend + 1) {
                Some((Os::Windows, vend + 8))
            } else if occurs_at(s, "mac"@, vend + 1) {
                Some((Os::Mac, vend + 4))
            } else {
                None
            };
            match osr {
                None => None,
                Some((os, q)) => {
                    if !(q < s.len() && s[q] == '-') {
                        None
                    } else {
                        let ed = if occurs_at(s, "cpu"@, q + 1) {
                            Some(Edition::Cpu)
                        } else if occurs_at(s, "gpu"@, q + 1) {
                            Some(Edition::Gpu)
                        } else {
                            None
                        };
                        match ed {
                            None => None,
                            Some(edition) => Some(LinkMatch { edition, os, vstart: v0, vend }),
                        }
                    }
                },
            }
        }
    }
}

pub open spec fn match_at(kind: PatternKind, s: Seq<char>, i: int) -> Option<LinkMatch> {
    match kind {
        PatternKind::Current => match_current_at(s, i),
        PatternKind::Legacy => match_legacy_at(s, i),
    }
}

/// The leftmost match at or after `from`.
pub open spec fn find_match(kind: PatternKind, s: Seq<char>, from: int) -> Option<LinkMatch>
    decreases s.len() - from when 0 <= from <= s.len()
{
    if from >= s.len() {
        None
    } else if match_at(kind, s, from) is Some {
        match_at(kind, s, from)
    } else {
        find_match(kind, s, from + 1)
    }
}

/// Every character of a matched version run belongs to the pattern's
/// version class.
pub proof fn lemma_version_run_chars(kind: PatternKind, s: Seq<char>, from: int, k: int)
    requires
        0 <= from <= s.len(),
        from <= k < end_of_version_run(kind, s, from),
    ensures
        version_char_ok(kind, s[k]),
        end_of_version_run(kind, s, from) <= s.len(),
    decreases s.len() - from,
{
    if from < s.len() && version_char_ok(kind, s[from]) {
        if k > from {
            lemma_version_run_chars(kind, s, from + 1, k);
        } else {
            lemma_version_run_bounds(kind, s, from);
        }
    }
}

/// The end of a version run lies between `from` and the text's length.
pub proof fn lemma_version_run_bounds(kind: PatternKind, s: Seq<char>, from: int)
    requires
        0 <= from <= s.len(),
    ensures
        from <= end_of_version_run(kind, s, from) <= s.len(),
    decreases s.len() - from,
{
    if from < s.len() && version_char_ok(kind, s[from]) {
        lemma_version_run_bounds(kind, s, from + 1);
    }
}

/// A successful match yields a version span inside the text whose
/// characters all belong to the pattern's version class.
pub proof fn lemma_match_at_props(kind: PatternKind, s: Seq<char>, i: int)
    requires
        0 <= i <= s.len(),
        match_at(kind, s, i) is Some,
    ensures
        match_at(kind, s, i) matches Some(m) ==> 0 <= m.vstart <= m.vend <= s.len() && (forall|
            k: int,
        |
            m.vstart <= k < m.vend ==> version_char_ok(kind, #[trigger] s[k])),
{
    reveal_strlit("COEIROINK-");
    reveal_strlit("-v.");
    reveal_strlit("v.");
    let m = match_at(kind, s, i)->Some_0;
    lemma_version_run_bounds(kind, s, m.vstart);
    assert forall|k: int| m.vstart <= k < m.vend implies version_char_ok(kind, #[trigger] s[k]) by {
        lemma_version_run_chars(kind, s, m.vstart, k);
    }
}

/// The leftmost match, wherever found, has the span properties of
/// [`lemma_match_at_props`].
pub proof fn lemma_find_match_props(kind: PatternKind, s: Seq<char>, from: int)
    requires
        0 <= from <= s.len(),
    ensures
        find_match(kind, s, from) matches Some(m) ==> 0 <= m.vstart <= m.vend <= s.len() && (
        forall|k: int| m.vstart <= k < m.vend ==> version_char_ok(kind, #[trigger] s[k])),
    decreases s.len() - from,
{
    if from < s.len() {
        if match_at(kind, s, from) is Some {
            lemma_match_at_props(kind, s, from);
        } else {
            lemma_find_match_props(kind, s, from + 1);
        }
    }
}

/// An exec-side match: the tokens and the version span as indices.
pub struct LinkSpan {
    pub edition: Edition,
    pub os: Os,
    pub vstart: usize,
    pub vend: usize,
}

pub open spec fn span_matches(r: Option<LinkSpan>, m: Option<LinkMatch>) -> bool {
    match r {
        Some(sp) => m matches Some(lm) && lm.edition == sp.edition && lm.os == sp.os
            && lm.vstart == sp.vstart as int && lm.vend == sp.vend as int,
        None => m is None,
    }
}

/// Computes the end of the maximal version run starting at `from`.
fn scan_version_run(kind: PatternKind, s: &Vec<char>, from: usize) -> (r: usize)
    requires
        from <= s@.len(),
    ensures
        r as int == end_of_version_run(kind, s@, from as int),
{
    let n = s.len();
    let mut i: usize = from;
    while i < n
        invariant
            from <= i <= n,
            n == s@.len(),
            end_of_version_run(kind, s@, from as int) == end_of_version_run(kind, s@, i as int),
        decreases n - i,
    {
        let c = s[i] as u32;
        let ok = match kind {
            PatternKind::Current => (48 <= c && c <= 57) || c == 46 || c == 43,
            PatternKind::Legacy => (48 <= c && c <= 57) || c == 46,
        };
        if !ok {
            return i;
        }
        i += 1;
    }
    n
}

/// Tries the pattern anchored at `i`.
fn try_match_at(kind: PatternKind, s: &Vec<char>, i: usize) -> (r: Option<LinkSpan>)
    requires
        i <= s@.len(),
    ensures
        span_matches(r, match_at(kind, s@, i as int)),
{
    match kind {
        PatternKind::Current => try_match_current(s, i),
        PatternKind::Legacy => try_match_legacy(s, i),
    }
}

fn try_match_current(s: &Vec<char>, i: usize) -> (r: Option<LinkSpan>)
    requires
        i <= s@.len(),
    ensures
        span_matches(r, match_current_at(s@, i as int)),
{
    proof {
        reveal_strlit("COEIROINK-");
        reveal_strlit("CPU");
        reveal_strlit("GPU");
        reveal_strlit("-v.");
        reveal_strlit("Windows");
        reveal_strlit("Mac");
    }
    let n = s.len();
    if !crate::text::chars_occur_at(s, "COEIROINK-", i) {
        return None;
    }
    let edition = if crate::text::chars_occur_at(s, "CPU", i + 10) {
        Edition::Cpu
    } else if crate::text::chars_occur_at(s, "GPU", i + 10) {
        Edition::Gpu
    } else {
        return None;
    };
    if !crate::text::chars_occur_at(s, "-v.", i + 13) {
        return None;
    }
    let v0 = i + 16;
    let vend = scan_version_run(PatternKind::Current, s, v0);
    proof {
        lemma_version_run_bounds(PatternKind::Current, s@, v0 as int);
    }
    if vend == v0 || vend >= s.len() || s[vend] != '(' {
        return None;
    }
    let (os, q) = if crate::text::chars_occur_at(s, "Windows", vend + 1) {
        (Os::Windows, vend + 8)
    } else if crate::text::chars_occur_at(s, "Mac", vend + 1) {
        (Os::Mac, vend + 4)
    } else {
        return None;
    };
    if q < s.len() && s[q] == ')' {
        Some(LinkSpan { edition, os, vstart: v0, vend })
    } else {
        None
    }
}

fn try_match_legacy(s: &Vec<char>, i: usize) -> (r: Option<LinkSpan>)
    requires
        i <= s@.len(),
    ensures
        span_matches(r, match_legacy_at(s@, i as int)),
{
    proof {
        reveal_strlit("v.");
        reveal_strlit("windows");
        reveal_strlit("mac");
        reveal_strlit("cpu");
        reveal_strlit("gpu");
    }
    let n = s.len();
    if !crate::text::chars_occur_at(s, "v.", i) {
        return None;
    }
    let v0 = i + 2;
    let vend = scan_version_run(PatternKind::Legacy, s, v0);
    proof {
        lemma_version_run_bounds(PatternKind::Legacy, s@, v0 as int);
    }
    if vend == v0 || vend >= s.len() || s[vend] != '-' {
        return None;
    }
    let (os, q) = if crate::text::chars_occur_at(s, "windows", vend + 1) {
        (Os::Windows, vend + 8)
    } else if crate::text::chars_occur_at(s, "mac", vend + 1) {
        (Os::Mac, vend + 4)
    } else {
        return None;
    };
    if !(q < s.len() && s[q] == '-') {
        return None;
    }
    let edition = if crate::text::chars_occur_at(s, "cpu", q + 1) {
        Edition::Cpu
    } else if crate::text::chars_occur_at(s, "gpu", q + 1) {
        Edition::Gpu
    } else {
        return None;
    };
    Some(LinkSpan { edition, os, vstart: v0, vend })
}

/// Finds the leftmost match of the pattern in the text.
pub fn find_link_match(kind: PatternKind, s: &Vec<char>) -> (r: Option<LinkSpan>)
    ensures
        span_matches(r, find_match(kind, s@, 0)),
{
    let n = s.len();
    let mut i: usize = 0;
    while i < n
        invariant
            i <= n,
            n == s@.len(),
            find_match(kind, s@, 0) == find_match(kind, s@, i as int),
        decreases n - i,
    {
        let m = try_match_at(kind, s, i);
        if m.is_some() {
            return m;
        }
        i += 1;
    }
    None
}

} // verus!
