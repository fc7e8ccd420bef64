//! The two-stage archive format.
//!
//! The outer container's entry paths are defended against directory
//! traversal before any entry is written. The nested multi-volume
//! archive is located by its first-volume suffix, its contents are read
//! from the external archiver's tabular listing, and its extraction
//! progress from the archiver's line-oriented output. The archiver's
//! output is treated as ASCII-delimited text: fields are split on ASCII
//! whitespace.

use vstd::prelude::*;
use crate::errors::InstallError;
use crate::text::{contains_seq, ends_with_seq, occurs_at, strings_value};

verus! {

/// An entry path is safe when no parent-directory marker occurs in it.
pub open spec fn safe_entry_path(p: Seq<char>) -> bool {
    !contains_seq(p, ".."@)
}

/// Checks one entry path for a parent-directory marker.
pub fn is_safe_entry_path(p: &str) -> (r: bool)
    ensures
        r == safe_entry_path(p@),
{
    !crate::text::str_contains(p, "..")
}

/// Index of the first unsafe entry path at or after `from`.
pub open spec fn first_unsafe_idx(ps: Seq<Seq<char>>, from: int) -> Option<int>
    decreases ps.len() - from when 0 <= from <= ps.len()
{
    if from >= ps.len() {
        None
    } else if !safe_entry_path(ps[from]) {
        Some(from)
    } else {
        first_unsafe_idx(ps, from + 1)
    }
}

/// No entry is unsafe exactly when every entry is safe; a found index
/// points at an unsafe entry.
pub proof fn lemma_unsafe_entry_detected(ps: Seq<Seq<char>>, from: int)
    requires
        0 <= from <= ps.len(),
    ensures
        first_unsafe_idx(ps, from) is None <==> (forall|k: int|
            from <= k < ps.len() ==> safe_entry_path(#[trigger] ps[k])),
        first_unsafe_idx(ps, from) matches Some(i) ==> from <= i < ps.len() && !safe_entry_path(
            ps[i],
        ),
    decreases ps.len() - from,
{
    if from < ps.len() && safe_entry_path(ps[from]) {
        lemma_unsafe_entry_detected(ps, from + 1);
    }
}

/// Validates every entry path of the outer container before anything is
/// written: one parent-directory marker anywhere aborts the whole
/// extraction.
pub fn validate_entry_paths(paths: &Vec<String>) -> (r: Result<(), InstallError>)
    ensures
        match first_unsafe_idx(strings_value(paths@), 0) {
            None => r is Ok,
            Some(i) => r matches Err(e) && e matches InstallError::UnsafePath(p) && p@
                == strings_value(paths@)[i],
        },
{
    let ghost pv = strings_value(paths@);
    let n = paths.len();
    let mut i: usize = 0;
    while i < n
        invariant
            i <= n,
            n == paths@.len(),
            pv == strings_value(paths@),
            first_unsafe_idx(pv, 0) == first_unsafe_idx(pv, i as int),
        decreases n - i,
    {
        proof {
            assert(pv[i as int] == paths@[i as int]@);
        }
        if !is_safe_entry_path(paths[i].as_str()) {
            return Err(InstallError::UnsafePath(paths[i].clone()));
        }
        i += 1;
    }
    Ok(())
}

/// The suffix that names the first volume of the inner archive.
pub open spec fn first_volume_suffix() -> Seq<char> {
    ".001"@
}

/// Index of the first file name carrying the first-volume suffix.
pub open spec fn first_volume_idx(names: Seq<Seq<char>>, from: int) -> Option<int>
    decreases names.len() - from when 0 <= from <= names.len()
{
    if from >= names.len() {
        None
    } else if ends_with_seq(names[from], first_volume_suffix()) {
        Some(from)
    } else {
        first_volume_idx(names, from + 1)
    }
}

/// Picks the first listed file that is a first volume of the inner
/// archive; without one the container is not a release bundle.
pub fn find_first_volume(names: &Vec<String>) -> (r: Result<usize, InstallError>)
    ensures
        match first_volume_idx(strings_value(names@), 0) {
            Some(i) => r matches Ok(j) && j as int == i,
            None => r matches Err(e) && e == InstallError::MissingInnerArchive,
        },
{
    let ghost nv = strings_value(names@);
    let n = names.len();
    let mut i: usize = 0;
    while i < n
        invariant
            i <= n,
            n == names@.len(),
            nv == strings_value(names@),
            first_volume_idx(nv, 0) == first_volume_idx(nv, i as int),
        decreases n - i,
    {
        proof {
            assert(nv[i as int] == names@[i as int]@);
        }
        if crate::text::str_ends_with(names[i].as_str(), ".001") {
            return Ok(i);
        }
        i += 1;
    }
    Err(InstallError::MissingInnerArchive)
}

/// ASCII whitespace as it occurs inside one line of archiver output.
pub open spec fn is_line_ws(c: char) -> bool {
    (c as u32) == 32 || (c as u32) == 9 || (c as u32) == 13 || (c as u32) == 11 || (c as u32) == 12
}

/// First index at or after `from` holding a line-whitespace character.
pub open spec fn first_ws_idx(s: Seq<char>, from: int) -> int
    decreases s.len() - from when 0 <= from <= s.len()
{
    if from < s.len() && !is_line_ws(s[from]) {
        first_ws_idx(s, from + 1)
    } else {
        from
    }
}

/// First index at or after `from` past a run of line whitespace.
pub open spec fn end_of_ws(s: Seq<char>, from: int) -> int
    decreases s.len() - from when 0 <= from <= s.len()
{
    if from < s.len() && is_line_ws(s[from]) {
        end_of_ws(s, from + 1)
    } else {
        from
    }
}

proof fn lemma_first_ws_bounds(s: Seq<char>, from: int)
    requires
        0 <= from <= s.len(),
    ensures
        from <= first_ws_idx(s, from) <= s.len(),
        from <= end_of_ws(s, from) <= s.len(),
    decreases s.len() - from,
{
    if from < s.len() {
        lemma_first_ws_bounds(s, from + 1);
    }
}

/// Start of the last whitespace-delimited field after at most `n`
/// splits: the listing's entry path is whatever follows the columns.
pub open spec fn last_field_start(s: Seq<char>, from: int, n: nat) -> int
    decreases n when 0 <= from <= s.len()
{
    if n == 0 {
        from
    } else {
        let i = first_ws_idx(s, from);
        if i >= s.len() {
            from
        } else {
            last_field_start(s, end_of_ws(s, i), (n - 1) as nat)
        }
    }
}

proof fn lemma_last_field_start_bounds(s: Seq<char>, from: int, n: nat)
    requires
        0 <= from <= s.len(),
    ensures
        from <= last_field_start(s, from, n) <= s.len(),
    decreases n,
{
    if n > 0 {
        let i = first_ws_idx(s, from);
        lemma_first_ws_bounds(s, from);
        if i < s.len() {
            lemma_first_ws_bounds(s, i);
            lemma_last_field_start_bounds(s, end_of_ws(s, i), (n - 1) as nat);
        }
    }
}

/// The last whitespace-delimited field of a listing line, out of at most
/// six fields.
pub open spec fn last_field(s: Seq<char>) -> Seq<char> {
    s.subrange(last_field_start(s, 0, 5), s.len() as int)
}

/// Decides line whitespace for one character.
fn char_is_ws(c: char) -> (r: bool)
    ensures
        r == is_line_ws(c),
{
    let u = c as u32;
    u == 32 || u == 9 || u == 13 || u == 11 || u == 12
}

/// Scans for the next line-whitespace character.
fn scan_first_ws(cs: &Vec<char>, from: usize) -> (r: usize)
    requires
        from <= cs@.len(),
    ensures
        r as int == first_ws_idx(cs@, from as int),
{
    let n = cs.len();
    let mut i = from;
    while i < n && !char_is_ws(cs[i])
        invariant
            from <= i <= n,
            n == cs@.len(),
            first_ws_idx(cs@, from as int) == first_ws_idx(cs@, i as int),
        decreases n - i,
    {
        i += 1;
    }
    i
}

/// Scans past the current run of line whitespace.
fn scan_end_of_ws(cs: &Vec<char>, from: usize) -> (r: usize)
    requires
        from <= cs@.len(),
    ensures
        r as int == end_of_ws(cs@, from as int),
{
    let n = cs.len();
    let mut i = from;
    while i < n && char_is_ws(cs[i])
        invariant
            from <= i <= n,
            n == cs@.len(),
            end_of_ws(cs@, from as int) == end_of_ws(cs@, i as int),
        decreases n - i,
    {
        i += 1;
    }
    i
}

/// Extracts the entry-path field of one listing line.
pub fn line_last_field(l: &str) -> (r: String)
    ensures
        r@ == last_field(l@),
{
    let cs = crate::text::to_chars(l);
    let n = cs.len();
    let mut from: usize = 0;
    let mut splits: usize = 0;
    let mut stop = false;
    while splits < 5 && !stop
        invariant
            0 <= from <= n,
            n == l@.len(),
            cs@ == l@,
            splits <= 5,
            last_field_start(l@, 0, 5) == last_field_start(l@, from as int, (5 - splits) as nat),
            stop ==> last_field_start(l@, from as int, (5 - splits) as nat) == from as int,
        decreases 5 - splits + (if stop { 0int } else { 1int }),
    {
        let i = scan_first_ws(&cs, from);
        if i >= n {
            stop = true;
        } else {
            proof {
                lemma_first_ws_bounds(l@, i as int);
            }
            let j = scan_end_of_ws(&cs, i);
            proof {
                assert(last_field_start(l@, from as int, (5 - splits) as nat)
                    == last_field_start(l@, j as int, (5 - (splits + 1)) as nat));
            }
            from = j;
            splits += 1;
        }
    }
    proof {
        assert(last_field_start(l@, 0, 5) == from as int);
    }
    String::from_str(l.substring_char(from, l.unicode_len()))
}

/// First index at or after `from` holding a newline.
pub open spec fn first_nl_idx(s: Seq<char>, from: int) -> int
    decreases s.len() - from when 0 <= from <= s.len()
{
    if from < s.len() && (s[from] as u32) != 10 {
        first_nl_idx(s, from + 1)
    } else {
        from
    }
}

proof fn lemma_first_nl_bounds(s: Seq<char>, from: int)
    requires
        0 <= from <= s.len(),
    ensures
        from <= first_nl_idx(s, from) <= s.len(),
    decreases s.len() - from,
{
    if from < s.len() && (s[from] as u32) != 10 {
        lemma_first_nl_bounds(s, from + 1);
    }
}

/// A line with its trailing carriage return removed.
pub open spec fn strip_cr(l: Seq<char>) -> Seq<char> {
    if l.len() > 0 && (l[l.len() - 1] as u32) == 13 {
        l.drop_last()
    } else {
        l
    }
}

/// The lines of a text, split on newlines, trailing carriage returns
/// removed, without a final empty line.
pub open spec fn split_lines_from(s: Seq<char>, from: int) -> Seq<Seq<char>>
    decreases s.len() - from when 0 <= from <= s.len() via split_lines_from_dec
{
    if from >= s.len() {
        Seq::empty()
    } else {
        let i = first_nl_idx(s, from);
        if i >= s.len() {
            seq![strip_cr(s.subrange(from, s.len() as int))]
        } else {
            seq![strip_cr(s.subrange(from, i))] + split_lines_from(s, i + 1)
        }
    }
}

#[via_fn]
proof fn split_lines_from_dec(s: Seq<char>, from: int) {
    if 0 <= from <= s.len() {
        lemma_first_nl_bounds(s, from);
    }
}

/// Scans for the next newline.
fn scan_first_nl(cs: &Vec<char>, from: usize) -> (r: usize)
    requires
        from <= cs@.len(),
    ensures
        r as int == first_nl_idx(cs@, from as int),
{
    let n = cs.len();
    let mut i = from;
    while i < n && (cs[i] as u32) != 10
        invariant
            from <= i <= n,
            n == cs@.len(),
            first_nl_idx(cs@, from as int) == first_nl_idx(cs@, i as int),
        decreases n - i,
    {
        i += 1;
    }
    i
}

/// Splits a text into lines as the listing parser reads them.
pub fn split_lines(out: &str) -> (r: Vec<String>)
    ensures
        strings_value(r@) == split_lines_from(out@, 0),
{
    let cs = crate::text::to_chars(out);
    let n = cs.len();
    let mut acc: Vec<String> = Vec::new();
    let mut from: usize = 0;
    while from < n
        invariant
            from <= n,
            n == out@.len(),
            cs@ == out@,
            split_lines_from(out@, 0) == strings_value(acc@) + split_lines_from(
                out@,
                from as int,
            ),
        decreases n - from,
    {
        let i = scan_first_nl(&cs, from);
        proof {
            lemma_first_nl_bounds(out@, from as int);
        }
        let end = if i > from && (cs[i - 1] as u32) == 13 {
            i - 1
        } else {
            i
        };
        let line = String::from_str(out.substring_char(from, end));
        proof {
            if i > from && (cs@[i - 1] as u32) == 13 {
                assert(strip_cr(out@.subrange(from as int, i as int)) =~= out@.subrange(
                    from as int,
                    end as int,
                ));
            } else {
                assert(strip_cr(out@.subrange(from as int, i as int)) =~= out@.subrange(
                    from as int,
                    end as int,
                ));
            }
        }
        let ghost prev = acc@;
        acc.push(line);
        proof {
            assert(strings_value(acc@) =~= strings_value(prev) + seq![line@]);
            if i < n {
                assert(strings_value(acc@) + split_lines_from(out@, i + 1 as int)
                    =~= strings_value(prev) + (seq![line@] + split_lines_from(out@, i + 1 as int)));
            } else {
                assert(strings_value(acc@) + split_lines_from(out@, n as int) =~= strings_value(
                    prev,
                ) + seq![line@]);
            }
        }
        if i >= n {
            from = n;
        } else {
            from = i + 1;
        }
    }
    proof {
        assert(strings_value(acc@) + Seq::<Seq<char>>::empty() =~= strings_value(acc@));
    }
    acc
}

/// A rule line opens and closes the listing's table.
pub open spec fn is_rule_line(l: Seq<char>) -> bool {
    occurs_at(l, "----------"@, 0)
}

/// First rule line at or after `from`, or the line count.
pub open spec fn first_rule_idx(lines: Seq<Seq<char>>, from: int) -> int
    decreases lines.len() - from when 0 <= from <= lines.len()
{
    if from < lines.len() && !is_rule_line(lines[from]) {
        first_rule_idx(lines, from + 1)
    } else {
        from
    }
}

/// Whether a listed entry survives the exclusion filters: bytecode
/// caches always drop, and the protected subtree drops when present in
/// the target.
pub open spec fn keep_listed_file(f: Seq<char>, exclude_protected: bool) -> bool {
    !contains_seq(f, "__pycache__"@) && !(exclude_protected && contains_seq(f, "speaker_info"@))
}

/// The kept entry paths of the table region `[lo, hi)`.
pub open spec fn region_files(
    lines: Seq<Seq<char>>,
    lo: int,
    hi: int,
    exclude_protected: bool,
) -> Seq<Seq<char>>
    decreases hi - lo when lo <= hi
{
    if lo >= hi {
        Seq::empty()
    } else {
        region_files(lines, lo, hi - 1, exclude_protected) + (if keep_listed_file(
            last_field(lines[hi - 1]),
            exclude_protected,
        ) {
            seq![last_field(lines[hi - 1])]
        } else {
            Seq::empty()
        })
    }
}

/// The entry paths the archiver's listing reports: the last field of
/// each line between the first two rule lines, filtered.
pub open spec fn listing_files(out: Seq<char>, exclude_protected: bool) -> Seq<Seq<char>> {
    let lines = split_lines_from(out, 0);
    let a = first_rule_idx(lines, 0);
    if a >= lines.len() {
        Seq::empty()
    } else {
        let b = first_rule_idx(lines, a + 1);
        region_files(lines, a + 1, b, exclude_protected)
    }
}

/// Parses the external archiver's tabular listing into entry paths,
/// applying the exclusion filters.
pub fn parse_archive_listing(output: &str, exclude_protected: bool) -> (r: Vec<String>)
    ensures
        strings_value(r@) == listing_files(output@, exclude_protected),
{
    let lines = split_lines(output);
    let ghost lv = strings_value(lines@);
    let n = lines.len();
    let mut a: usize = 0;
    while a < n && !crate::text::str_starts_with(lines[a].as_str(), "----------")
        invariant
            a <= n,
            n == lines@.len(),
            lv == strings_value(lines@),
            first_rule_idx(lv, 0) == first_rule_idx(lv, a as int),
        decreases n - a,
    {
        proof {
            assert(lv[a as int] == lines@[a as int]@);
        }
        a += 1;
    }
    proof {
        if a < n {
            assert(lv[a as int] == lines@[a as int]@);
        }
        assert(first_rule_idx(lv, 0) == a as int);
    }
    if a >= n {
        return Vec::new();
    }
    let mut out: Vec<String> = Vec::new();
    let mut i = a + 1;
    while i < n && !crate::text::str_starts_with(lines[i].as_str(), "----------")
        invariant
            a + 1 <= i <= n,
            n == lines@.len(),
            lv == strings_value(lines@),
            first_rule_idx(lv, a + 1 as int) == first_rule_idx(lv, i as int),
            strings_value(out@) == region_files(lv, a + 1 as int, i as int, exclude_protected),
        decreases n - i,
    {
        proof {
            assert(lv[i as int] == lines@[i as int]@);
        }
        let f = line_last_field(lines[i].as_str());
        let keep = !crate::text::str_contains(f.as_str(), "__pycache__") && !(exclude_protected
            && crate::text::str_contains(f.as_str(), "speaker_info"));
        let ghost prev = out@;
        if keep {
            out.push(f);
        }
        proof {
            if keep {
                assert(strings_value(out@) =~= strings_value(prev) + seq![
                    last_field(lv[i as int]),
                ]);
            }
            assert(region_files(lv, a + 1 as int, i + 1 as int, exclude_protected)
                == region_files(lv, a + 1 as int, i as int, exclude_protected) + (
            if keep_listed_file(last_field(lv[i as int]), exclude_protected) {
                seq![last_field(lv[i as int])]
            } else {
                Seq::empty()
            }));
            if !keep {
                assert(strings_value(out@) =~= region_files(
                    lv,
                    a + 1 as int,
                    i + 1 as int,
                    exclude_protected,
                ));
            }
        }
        i += 1;
    }
    proof {
        if i < n {
            assert(lv[i as int] == lines@[i as int]@);
        }
        assert(first_rule_idx(lv, a + 1 as int) == i as int);
    }
    out
}

/// ASCII whitespace as trimmed from an extracted entry name.
pub open spec fn is_trim_ws(c: char) -> bool {
    is_line_ws(c) || (c as u32) == 10
}

/// First index at or after `from` holding a non-trimmable character.
pub open spec fn first_non_trim(s: Seq<char>, from: int) -> int
    decreases s.len() - from when 0 <= from <= s.len()
{
    if from < s.len() && is_trim_ws(s[from]) {
        first_non_trim(s, from + 1)
    } else {
        from
    }
}

/// Last index before `upto` past the trailing trimmable run.
pub open spec fn end_trim(s: Seq<char>, upto: int) -> int
    decreases upto when 0 <= upto <= s.len()
{
    if upto > 0 && is_trim_ws(s[upto - 1]) {
        end_trim(s, upto - 1)
    } else {
        upto
    }
}

/// A text with ASCII whitespace removed from both ends.
pub open spec fn trim_ws(s: Seq<char>) -> Seq<char> {
    let b = first_non_trim(s, 0);
    let e = end_trim(s, s.len() as int);
    if b >= e {
        Seq::empty()
    } else {
        s.subrange(b, e)
    }
}

/// The entry name a line of archiver extraction output announces, if
/// any: lines opening with the extracted-entry marker carry one.
pub open spec fn extract_line_entry(l: Seq<char>) -> Option<Seq<char>> {
    if occurs_at(l, "- "@, 0) {
        Some(trim_ws(l.subrange(2, l.len() as int)))
    } else {
        None
    }
}

/// Reads one line of the archiver's extraction output.
pub fn parse_extract_line(l: &str) -> (r: Option<String>)
    ensures
        match r {
            Some(s) => extract_line_entry(l@) == Some(s@),
            None => extract_line_entry(l@) is None,
        },
{
    proof {
        reveal_strlit("- ");
    }
    if !crate::text::str_starts_with(l, "- ") {
        return None;
    }
    let cs = crate::text::to_chars(l);
    let n = cs.len();
    let ghost rest = l@.subrange(2, l@.len() as int);
    let mut b: usize = 2;
    while b < n && char_is_trim(cs[b])
        invariant
            2 <= b <= n,
            n == l@.len(),
            cs@ == l@,
            rest == l@.subrange(2, l@.len() as int),
            first_non_trim(rest, 0) == first_non_trim(rest, b - 2),
        decreases n - b,
    {
        proof {
            assert(rest[b - 2] == l@[b as int]);
        }
        b += 1;
    }
    proof {
        if b < n {
            assert(rest[b - 2] == l@[b as int]);
        }
        assert(first_non_trim(rest, 0) == b - 2);
    }
    let mut e: usize = n;
    while e > b && char_is_trim(cs[e - 1])
        invariant
            2 <= b <= e <= n,
            n == l@.len(),
            cs@ == l@,
            rest == l@.subrange(2, l@.len() as int),
            forall|k: int| e - 2 <= k < rest.len() ==> is_trim_ws(#[trigger] rest[k]),
        decreases e,
    {
        proof {
            assert(rest[e - 3] == l@[e - 1]);
        }
        e -= 1;
    }
    proof {
        assert(rest.len() == n - 2);
        if e > b {
            assert(!is_trim_ws(rest[e - 3]));
        }
        lemma_trim_ws_result(rest, b - 2, e - 2);
    }
    let trimmed = if b >= e {
        String::new()
    } else {
        String::from_str(l.substring_char(b, e))
    };
    proof {
        if b >= e {
            assert(trimmed@ =~= trim_ws(rest));
        } else {
            assert(trimmed@ =~= rest.subrange(b - 2, e - 2));
        }
    }
    Some(trimmed)
}

/// Decides trim whitespace for one character.
fn char_is_trim(c: char) -> (r: bool)
    ensures
        r == is_trim_ws(c),
{
    let u = c as u32;
    u == 32 || u == 9 || u == 13 || u == 11 || u == 12 || u == 10
}

/// The scan positions reached by the exec trimmer realize [`trim_ws`].
proof fn lemma_trim_ws_result(s: Seq<char>, b: int, e: int)
    requires
        0 <= b <= e <= s.len(),
        first_non_trim(s, 0) == b,
        b == e || !is_trim_ws(s[e - 1]),
        forall|k: int| e <= k < s.len() ==> is_trim_ws(#[trigger] s[k]),
    ensures
        b >= e ==> trim_ws(s) == Seq::<char>::empty(),
        b < e ==> trim_ws(s) == s.subrange(b, e),
{
    lemma_first_non_trim_all(s, 0, b);
    if b < e {
        lemma_end_trim_upto(s, s.len() as int, e);
    } else {
        assert(forall|k: int| 0 <= k < s.len() ==> is_trim_ws(#[trigger] s[k]));
        lemma_end_trim_low(s, s.len() as int);
    }
}

/// Characters before the first non-trimmable index are trimmable.
proof fn lemma_first_non_trim_all(s: Seq<char>, from: int, b: int)
    requires
        0 <= from <= s.len(),
        first_non_trim(s, from) == b,
        from <= b,
    ensures
        forall|k: int| from <= k < b ==> is_trim_ws(#[trigger] s[k]),
        b <= s.len(),
        b < s.len() ==> !is_trim_ws(s[b]),
    decreases s.len() - from,
{
    if from < s.len() && is_trim_ws(s[from]) {
        lemma_first_non_trim_bounds(s, from + 1);
        lemma_first_non_trim_all(s, from + 1, b);
    }
}

proof fn lemma_first_non_trim_bounds(s: Seq<char>, from: int)
    requires
        0 <= from <= s.len(),
    ensures
        from <= first_non_trim(s, from) <= s.len(),
    decreases s.len() - from,
{
    if from < s.len() && is_trim_ws(s[from]) {
        lemma_first_non_trim_bounds(s, from + 1);
    }
}

/// The right scan stops exactly where the trailing trim run begins.
proof fn lemma_end_trim_upto(s: Seq<char>, upto: int, e: int)
    requires
        0 < e <= upto <= s.len(),
        forall|k: int| e <= k < s.len() ==> is_trim_ws(#[trigger] s[k]),
        !is_trim_ws(s[e - 1]),
    ensures
        end_trim(s, upto) == e,
    decreases upto,
{
    if upto > e {
        lemma_end_trim_upto(s, upto - 1, e);
    }
}

/// A fully trimmable prefix scans down to zero.
proof fn lemma_end_trim_low(s: Seq<char>, upto: int)
    requires
        0 <= upto <= s.len(),
        forall|k: int| 0 <= k < s.len() ==> is_trim_ws(#[trigger] s[k]),
    ensures
        end_trim(s, upto) == 0,
    decreases upto,
{
    if upto > 0 {
        lemma_end_trim_low(s, upto - 1);
    }
}

/// The arguments of an archiver listing invocation.
pub fn archiver_list_args(archive: &str) -> (r: Vec<String>)
    ensures
        r@.len() == 2,
        r@[0]@ == "l"@,
        r@[1]@ == archive@,
{
    let mut v: Vec<String> = Vec::new();
    v.push(String::from_str("l"));
    v.push(String::from_str(archive));
    v
}

/// The arguments of an archiver extraction invocation: destination,
/// overwrite, verbose entry reporting, and the exclusion patterns
/// mirroring the listing filters.
pub fn archiver_extract_args(dest: &str, archive: &str, exclude_protected: bool) -> (r: Vec<
    String,
>)
    ensures
        r@[0]@ == "x"@,
        r@[1]@ == "-o"@ + dest@,
        r@[2]@ == "-y"@,
        r@[3]@ == "-bb3"@,
        r@[4]@ == "-xr!__pycache__"@,
        exclude_protected ==> r@.len() == 7 && r@[5]@ == "-xr!speaker_info"@ && r@[6]@
            == archive@,
        !exclude_protected ==> r@.len() == 6 && r@[5]@ == archive@,
{
    let mut v: Vec<String> = Vec::new();
    v.push(String::from_str("x"));
    v.push(String::from_str("-o").concat(dest));
    v.push(String::from_str("-y"));
    v.push(String::from_str("-bb3"));
    v.push(String::from_str("-xr!__pycache__"));
    if exclude_protected {
        v.push(String::from_str("-xr!speaker_info"));
    }
    v.push(String::from_str(archive));
    v
}

} // verus!
