//! Building the release catalog from a scanned download page.
//!
//! Anchors from the two tables are matched against the link-text
//! grammar, their versions parsed, the combined records sorted by
//! version newest-first, and the result filtered to the platform of
//! interest (Windows, major version 2).

use vstd::prelude::*;
use crate::catalog::{DownloadInfo, Edition, Os};
use crate::errors::{CatalogFault, InstallError};
use crate::page::{Anchor, AnchorSection, AnchorValue, SectionValue};
use crate::page::{anchors_value, find_labeled, find_labeled_idx, sections_value};
use crate::pattern::{find_match, PatternKind, version_char_ok};
use crate::version::{version_triple_of, VersionTriple, triple_ge, triple_lt};

verus! {

/// One catalog record as mathematics: tokens plus the version and link
/// texts.
pub struct RecordValue {
    pub edition: Edition,
    pub os: Os,
    pub version: Seq<char>,
    pub link: Seq<char>,
}

pub open spec fn rec_value(d: DownloadInfo) -> RecordValue {
    RecordValue { edition: d.edition, os: d.os, version: d.version@, link: d.link@ }
}

pub open spec fn recs_value(s: Seq<DownloadInfo>) -> Seq<RecordValue> {
    Seq::new(s.len(), |i: int| rec_value(s[i]))
}

pub open spec fn pairs_value(s: Seq<(DownloadInfo, VersionTriple)>) -> Seq<
    (RecordValue, VersionTriple),
> {
    Seq::new(s.len(), |i: int| (rec_value(s[i].0), s[i].1))
}

/// What one anchor contributes to the catalog.
pub enum AnchorOutcome {
    /// The anchor carries no text node: the page is malformed.
    NoText,
    /// The text matches neither pattern occurrence: the anchor is not a
    /// release link and is passed over.
    Skip,
    /// The matched anchor carries no destination: the page is malformed.
    NoHref,
    /// The matched version text is not well formed.
    BadVersion,
    /// A release record and its parsed version.
    Rec(RecordValue, VersionTriple),
}

pub open spec fn anchor_outcome(kind: PatternKind, a: AnchorValue) -> AnchorOutcome {
    match a.text {
        None => AnchorOutcome::NoText,
        Some(t) => match find_match(kind, t, 0) {
            None => AnchorOutcome::Skip,
            Some(m) => match a.href {
                None => AnchorOutcome::NoHref,
                Some(h) => {
                    let ver = t.subrange(m.vstart, m.vend);
                    match version_triple_of(ver) {
                        None => AnchorOutcome::BadVersion,
                        Some(tr) => AnchorOutcome::Rec(
                            RecordValue { edition: m.edition, os: m.os, version: ver, link: h },
                            tr,
                        ),
                    }
                },
            },
        },
    }
}

/// The records a table's anchors yield, in order, or the first fault.
pub open spec fn records_of(kind: PatternKind, anchors: Seq<AnchorValue>) -> Result<
    Seq<(RecordValue, VersionTriple)>,
    CatalogFault,
>
    decreases anchors.len(),
{
    if anchors.len() == 0 {
        Ok(Seq::empty())
    } else {
        match records_of(kind, anchors.drop_last()) {
            Err(f) => Err(f),
            Ok(rs) => match anchor_outcome(kind, anchors.last()) {
                AnchorOutcome::NoText => Err(CatalogFault::LinkText),
                AnchorOutcome::Skip => Ok(rs),
                AnchorOutcome::NoHref => Err(CatalogFault::LinkHref),
                AnchorOutcome::BadVersion => Err(CatalogFault::Version),
                AnchorOutcome::Rec(r, t) => Ok(rs.push((r, t))),
            },
        }
    }
}

/// A fault in a prefix of the anchors is the fault of the whole table.
proof fn lemma_records_prefix_err(kind: PatternKind, anchors: Seq<AnchorValue>, i: int)
    requires
        0 <= i <= anchors.len(),
        records_of(kind, anchors.subrange(0, i)) is Err,
    ensures
        records_of(kind, anchors) == records_of(kind, anchors.subrange(0, i)),
    decreases anchors.len(),
{
    if i == anchors.len() {
        assert(anchors.subrange(0, i) =~= anchors);
    } else {
        let s1 = anchors.drop_last();
        assert(anchors.subrange(0, i) =~= s1.subrange(0, i));
        lemma_records_prefix_err(kind, s1, i);
    }
}

/// Matches every anchor of a table, accumulating records onto `out`.
fn anchors_to_records(
    kind: PatternKind,
    anchors: &Vec<Anchor>,
    out: &mut Vec<(DownloadInfo, VersionTriple)>,
) -> (r: Result<(), CatalogFault>)
    ensures
        match records_of(kind, anchors_value(anchors@)) {
            Ok(rs) => r is Ok && pairs_value(final(out)@) == pairs_value(old(out)@) + rs,
            Err(f) => r == Result::<(), CatalogFault>::Err(f),
        },
{
    let ghost av = anchors_value(anchors@);
    let ghost base = pairs_value(old(out)@);
    let n = anchors.len();
    let mut i: usize = 0;
    while i < n
        invariant
            i <= n,
            n == anchors@.len(),
            av == anchors_value(anchors@),
            base == pairs_value(old(out)@),
            records_of(kind, av.subrange(0, i as int)) matches Ok(rs) && pairs_value(out@) == base
                + rs,
        decreases n - i,
    {
        let ghost prefix = av.subrange(0, i as int);
        let ghost prefix1 = av.subrange(0, i + 1 as int);
        proof {
            assert(prefix1.drop_last() =~= prefix);
            assert(prefix1.last() == av[i as int]);
            assert(av[i as int] == crate::page::anchor_value(anchors@[i as int]));
        }
        let a = &anchors[i];
        match &a.text {
            None => {
                proof {
                    lemma_records_prefix_err(kind, av, i + 1 as int);
                }
                return Err(CatalogFault::LinkText);
            },
            Some(t) => {
                let cs = crate::text::to_chars(t.as_str());
                match crate::pattern::find_link_match(kind, &cs) {
                    None => {
                        // not a release link; passed over
                    },
                    Some(span) => {
                        proof {
                            crate::pattern::lemma_find_match_props(kind, t@, 0);
                        }
                        match &a.href {
                            None => {
                                proof {
                                    lemma_records_prefix_err(kind, av, i + 1 as int);
                                }
                                return Err(CatalogFault::LinkHref);
                            },
                            Some(h) => {
                                let vstr = t.as_str().substring_char(span.vstart, span.vend);
                                proof {
                                    let m = find_match(kind, t@, 0)->Some_0;
                                    assert forall|k: int| 0 <= k < vstr@.len() implies
                                        crate::version::is_version_char(#[trigger] vstr@[k]) by {
                                        assert(vstr@[k] == t@[m.vstart + k]);
                                        assert(version_char_ok(kind, t@[m.vstart + k]));
                                    }
                                }
                                match crate::version::parse_version_triple(vstr) {
                                    None => {
                                        proof {
                                            lemma_records_prefix_err(kind, av, i + 1 as int);
                                        }
                                        return Err(CatalogFault::Version);
                                    },
                                    Some(tr) => {
                                        let rec = DownloadInfo {
                                            edition: span.edition,
                                            os: span.os,
                                            version: String::from_str(vstr),
                                            link: h.clone(),
                                        };
                                        let ghost recv = rec_value(rec);
                                        let ghost prev = out@;
                                        out.push((rec, tr));
                                        proof {
                                            let rs = records_of(kind, prefix)->Ok_0;
                                            let m = find_match(kind, t@, 0)->Some_0;
                                            assert(recv.version == t@.subrange(m.vstart, m.vend));
                                            assert(recv.link == h@);
                                            assert(anchor_outcome(kind, av[i as int])
                                                == AnchorOutcome::Rec(recv, tr));
                                            assert(records_of(kind, prefix1) == Ok::<
                                                _,
                                                CatalogFault,
                                            >(rs.push((recv, tr))));
                                            let target = base + rs.push((recv, tr));
                                            assert(pairs_value(prev).len() == prev.len());
                                            assert(prev.len() == base.len() + rs.len());
                                            assert(out@.len() == prev.len() + 1);
                                            assert(rec_value(out@[prev.len() as int].0) == recv);
                                            assert(out@[prev.len() as int].1 == tr);
                                            assert forall|j: int| 0 <= j < pairs_value(out@).len()
                                                implies pairs_value(out@)[j] == target[j] by {
                                                assert(pairs_value(out@)[j] == (
                                                    rec_value(out@[j].0),
                                                    out@[j].1,
                                                ));
                                                if j < prev.len() {
                                                    assert(out@[j] == prev[j]);
                                                    assert(pairs_value(prev)[j] == (base + rs)[j]);
                                                    assert(target[j] == (base + rs)[j]);
                                                } else {
                                                    assert(j == prev.len());
                                                    assert(target[j] == rs.push((recv, tr))[
                                                        rs.len() as int
                                                    ]);
                                                    assert(target[j] == (recv, tr));
                                                }
                                            }
                                            assert(pairs_value(out@) =~= target);
                                        }
                                    },
                                }
                            },
                        }
                    },
                }
            },
        }
        i += 1;
    }
    proof {
        assert(av.subrange(0, n as int) =~= av);
    }
    Ok(())
}

/// Inserts a record into a newest-first sequence, after any record of
/// the same version: later-listed records of equal versions keep their
/// order.
pub open spec fn insert_desc(
    x: (RecordValue, VersionTriple),
    s: Seq<(RecordValue, VersionTriple)>,
) -> Seq<(RecordValue, VersionTriple)>
    decreases s.len(),
{
    if s.len() == 0 {
        seq![x]
    } else if triple_lt(s[0].1, x.1) {
        seq![x] + s
    } else {
        seq![s[0]] + insert_desc(x, s.subrange(1, s.len() as int))
    }
}

/// Stable sort of records by parsed version, newest first.
pub open spec fn sort_desc(s: Seq<(RecordValue, VersionTriple)>) -> Seq<
    (RecordValue, VersionTriple),
>
    decreases s.len(),
{
    if s.len() == 0 {
        Seq::empty()
    } else {
        insert_desc(s.last(), sort_desc(s.drop_last()))
    }
}

/// Inserting before the first strictly-older record realizes
/// [`insert_desc`].
proof fn lemma_insert_desc_split(
    x: (RecordValue, VersionTriple),
    s: Seq<(RecordValue, VersionTriple)>,
    pos: int,
)
    requires
        0 <= pos <= s.len(),
        forall|j: int| 0 <= j < pos ==> !triple_lt(#[trigger] s[j].1, x.1),
        pos < s.len() ==> triple_lt(s[pos].1, x.1),
    ensures
        insert_desc(x, s) == s.subrange(0, pos) + seq![x] + s.subrange(pos, s.len() as int),
    decreases pos,
{
    if s.len() == 0 {
        assert(insert_desc(x, s) =~= s.subrange(0, pos) + seq![x] + s.subrange(
            pos,
            s.len() as int,
        ));
    } else if pos == 0 {
        assert(insert_desc(x, s) =~= s.subrange(0, pos) + seq![x] + s.subrange(
            pos,
            s.len() as int,
        ));
    } else {
        let tail = s.subrange(1, s.len() as int);
        assert(forall|j: int| 0 <= j < pos - 1 ==> !triple_lt(#[trigger] tail[j].1, x.1));
        lemma_insert_desc_split(x, tail, pos - 1);
        assert(insert_desc(x, s) == seq![s[0]] + (tail.subrange(0, pos - 1) + seq![x]
            + tail.subrange(pos - 1, tail.len() as int)));
        assert(seq![s[0]] + (tail.subrange(0, pos - 1) + seq![x] + tail.subrange(
            pos - 1,
            tail.len() as int,
        )) =~= s.subrange(0, pos) + seq![x] + s.subrange(pos, s.len() as int));
    }
}

/// Inserts one record into a sorted vector at its stable position.
fn insert_pair(out: &mut Vec<(DownloadInfo, VersionTriple)>, x: (DownloadInfo, VersionTriple))
    ensures
        pairs_value(final(out)@) == insert_desc(
            (rec_value(x.0), x.1),
            pairs_value(old(out)@),
        ),
{
    let ghost xs = pairs_value(old(out)@);
    let ghost xv = (rec_value(x.0), x.1);
    let n = out.len();
    let mut pos: usize = 0;
    let mut found = false;
    while pos < n && !found
        invariant
            pos <= n,
            n == out@.len(),
            out@ == old(out)@,
            xs == pairs_value(out@),
            xv == (rec_value(x.0), x.1),
            forall|j: int| 0 <= j < pos ==> !triple_lt(#[trigger] xs[j].1, xv.1),
            found ==> pos < n && triple_lt(xs[pos as int].1, xv.1),
        decreases n - pos + (if found { 0int } else { 1int }),
    {
        proof {
            assert(pairs_value(out@)[pos as int] == (
                rec_value(out@[pos as int].0),
                out@[pos as int].1,
            ));
            assert(xs == pairs_value(out@));
            assert(xs[pos as int].1 == out@[pos as int].1);
        }
        if crate::version::triple_is_lt(&out[pos].1, &x.1) {
            found = true;
        } else {
            pos += 1;
        }
    }
    proof {
        lemma_insert_desc_split(xv, xs, pos as int);
    }
    let ghost prev = out@;
    out.insert(pos, x);
    proof {
        let target = xs.subrange(0, pos as int) + seq![xv] + xs.subrange(
            pos as int,
            xs.len() as int,
        );
        assert(out@ == prev.insert(pos as int, x));
        assert(pairs_value(out@).len() == target.len());
        assert forall|j: int| 0 <= j < pairs_value(out@).len() implies pairs_value(out@)[j]
            == target[j] by {
            assert(pairs_value(out@)[j] == (rec_value(out@[j].0), out@[j].1));
            if j < pos {
                assert(out@[j] == prev[j]);
                assert(pairs_value(prev)[j] == xs[j]);
                assert(target[j] == xs[j]);
            } else if j == pos {
                assert(out@[j] == x);
                assert(target[j] == xv);
            } else {
                assert(out@[j] == prev[j - 1]);
                assert(pairs_value(prev)[j - 1] == xs[j - 1]);
                assert(target[j] == xs[j - 1]);
            }
        }
        assert(pairs_value(out@) =~= target);
    }
}

/// Sorts records by parsed version, newest first; records of equal
/// versions keep their listed order.
fn sort_pairs(input: Vec<(DownloadInfo, VersionTriple)>) -> (r: Vec<(DownloadInfo, VersionTriple)>)
    ensures
        pairs_value(r@) == sort_desc(pairs_value(input@)),
{
    let ghost orig = pairs_value(input@);
    let mut rest = input;
    let mut out: Vec<(DownloadInfo, VersionTriple)> = Vec::new();
    let ghost mut k: int = 0;
    while rest.len() > 0
        invariant
            0 <= k <= orig.len(),
            pairs_value(rest@) =~= orig.subrange(k, orig.len() as int),
            pairs_value(out@) == sort_desc(orig.subrange(0, k)),
        decreases rest@.len(),
    {
        proof {
            assert(pairs_value(rest@).len() == orig.subrange(k, orig.len() as int).len());
            assert(k < orig.len());
        }
        let ghost prev_rest = rest@;
        let x = rest.remove(0);
        proof {
            assert(rest@ == prev_rest.remove(0));
            assert forall|j: int| 0 <= j < rest@.len() implies pairs_value(rest@)[j]
                == orig.subrange(k + 1, orig.len() as int)[j] by {
                assert(rest@[j] == prev_rest[j + 1]);
                assert(pairs_value(prev_rest)[j + 1] == orig.subrange(k, orig.len() as int)[j + 1]);
            }
            assert(pairs_value(rest@) =~= orig.subrange(k + 1, orig.len() as int));
            assert(x == prev_rest[0]);
            assert(pairs_value(prev_rest)[0] == orig.subrange(k, orig.len() as int)[0]);
            assert((rec_value(x.0), x.1) == orig[k]);
        }
        insert_pair(&mut out, x);
        proof {
            assert(orig.subrange(0, k + 1).drop_last() =~= orig.subrange(0, k));
            assert(orig.subrange(0, k + 1).last() == orig[k]);
            k = k + 1;
        }
    }
    proof {
        assert(orig.subrange(0, k) =~= orig);
    }
    out
}

/// The current product-line scoping: Windows releases of the 2.x line.
pub open spec fn keep_record(p: (RecordValue, VersionTriple)) -> bool {
    p.0.os == Os::Windows && crate::text::occurs_at(p.0.version, "2."@, 0)
}

/// Drops records outside the product-line scoping, keeping order.
pub open spec fn windows_current(s: Seq<(RecordValue, VersionTriple)>) -> Seq<RecordValue>
    decreases s.len(),
{
    if s.len() == 0 {
        Seq::empty()
    } else {
        windows_current(s.drop_last()) + (if keep_record(s.last()) {
            seq![s.last().0]
        } else {
            Seq::empty()
        })
    }
}

/// Filters records to the platform of interest.
fn filter_records(input: Vec<(DownloadInfo, VersionTriple)>) -> (r: Vec<DownloadInfo>)
    ensures
        recs_value(r@) == windows_current(pairs_value(input@)),
{
    let ghost orig = pairs_value(input@);
    let mut rest = input;
    let mut out: Vec<DownloadInfo> = Vec::new();
    let ghost mut k: int = 0;
    while rest.len() > 0
        invariant
            0 <= k <= orig.len(),
            pairs_value(rest@) =~= orig.subrange(k, orig.len() as int),
            recs_value(out@) == windows_current(orig.subrange(0, k)),
        decreases rest@.len(),
    {
        proof {
            assert(pairs_value(rest@).len() == orig.subrange(k, orig.len() as int).len());
            assert(k < orig.len());
        }
        let ghost prev_rest = rest@;
        let x = rest.remove(0);
        proof {
            assert(rest@ == prev_rest.remove(0));
            assert forall|j: int| 0 <= j < rest@.len() implies pairs_value(rest@)[j]
                == orig.subrange(k + 1, orig.len() as int)[j] by {
                assert(rest@[j] == prev_rest[j + 1]);
                assert(pairs_value(prev_rest)[j + 1] == orig.subrange(k, orig.len() as int)[j + 1]);
            }
            assert(pairs_value(rest@) =~= orig.subrange(k + 1, orig.len() as int));
            assert(x == prev_rest[0]);
            assert(pairs_value(prev_rest)[0] == orig.subrange(k, orig.len() as int)[0]);
            assert((rec_value(x.0), x.1) == orig[k]);
            assert(orig.subrange(0, k + 1).drop_last() =~= orig.subrange(0, k));
            assert(orig.subrange(0, k + 1).last() == orig[k]);
        }
        let keep = x.0.os == Os::Windows && crate::text::str_starts_with(
            x.0.version.as_str(),
            "2.",
        );
        proof {
            assert(keep == keep_record(orig[k]));
        }
        if keep {
            let ghost prev_out = out@;
            let ghost xr = rec_value(x.0);
            out.push(x.0);
            proof {
                let target = windows_current(orig.subrange(0, k)) + seq![xr];
                assert forall|j: int| 0 <= j < recs_value(out@).len() implies recs_value(out@)[j]
                    == target[j] by {
                    assert(recs_value(out@)[j] == rec_value(out@[j]));
                    if j < prev_out.len() {
                        assert(out@[j] == prev_out[j]);
                        assert(recs_value(prev_out)[j] == windows_current(orig.subrange(0, k))[j]);
                    } else {
                        assert(out@[j] == x.0);
                    }
                }
                assert(recs_value(out@) =~= target);
                assert(windows_current(orig.subrange(0, k + 1)) == target);
            }
        } else {
            proof {
                assert(windows_current(orig.subrange(0, k + 1)) =~= windows_current(
                    orig.subrange(0, k),
                ));
            }
        }
        proof {
            k = k + 1;
        }
    }
    proof {
        assert(orig.subrange(0, k) =~= orig);
    }
    out
}

/// The label of the current-downloads heading.
pub open spec fn download_heading() -> Seq<char> {
    "DropBoxからダウンロード"@
}

/// The label of the older-versions heading.
pub open spec fn legacy_heading() -> Seq<char> {
    "旧バージョン"@
}

/// The catalog a scanned page yields: records of both tables, sorted by
/// version newest first, filtered to the platform of interest — or the
/// first structural fault found.
pub open spec fn catalog_of(cur: Seq<SectionValue>, leg: Seq<SectionValue>) -> Result<
    Seq<RecordValue>,
    CatalogFault,
> {
    match find_labeled_idx(cur, download_heading(), 0) {
        None => Err(CatalogFault::DownloadHeader),
        Some(ci) => match cur[ci].anchors {
            None => Err(CatalogFault::DownloadTable),
            Some(ca) => match records_of(PatternKind::Current, ca) {
                Err(f) => Err(f),
                Ok(rs1) => match find_labeled_idx(leg, legacy_heading(), 0) {
                    None => Err(CatalogFault::LegacyHeader),
                    Some(li) => match leg[li].anchors {
                        None => Err(CatalogFault::LegacyTable),
                        Some(la) => match records_of(PatternKind::Legacy, la) {
                            Err(f) => Err(f),
                            Ok(rs2) => Ok(windows_current(sort_desc(rs1 + rs2))),
                        },
                    },
                },
            },
        },
    }
}

/// Builds the catalog from the two scanned sections of a page.
pub fn build_catalog(cur: &Vec<AnchorSection>, leg: &Vec<AnchorSection>) -> (r: Result<
    Vec<DownloadInfo>,
    InstallError,
>)
    ensures
        catalog_of(sections_value(cur@), sections_value(leg@)) matches Ok(rs) ==> (r matches Ok(v)
            && recs_value(v@) == rs),
        catalog_of(sections_value(cur@), sections_value(leg@)) matches Err(f) ==> (r matches Err(e)
            && e == InstallError::CatalogParse(f)),
{
    let ci = match find_labeled(cur, "DropBoxからダウンロード") {
        Some(i) => i,
        None => {
            return Err(InstallError::CatalogParse(CatalogFault::DownloadHeader));
        },
    };
    let ca = match &cur[ci].anchors {
        Some(v) => v,
        None => {
            proof {
                assert(sections_value(cur@)[ci as int].anchors is None);
            }
            return Err(InstallError::CatalogParse(CatalogFault::DownloadTable));
        },
    };
    proof {
        assert(sections_value(cur@)[ci as int].anchors == Some(anchors_value(ca@)));
    }
    let mut pairs: Vec<(DownloadInfo, VersionTriple)> = Vec::new();
    match anchors_to_records(PatternKind::Current, ca, &mut pairs) {
        Err(f) => {
            return Err(InstallError::CatalogParse(f));
        },
        Ok(_) => {},
    }
    let ghost rs1 = records_of(PatternKind::Current, anchors_value(ca@))->Ok_0;
    proof {
        assert(pairs_value(pairs@) =~= rs1);
    }
    let li = match find_labeled(leg, "旧バージョン") {
        Some(i) => i,
        None => {
            return Err(InstallError::CatalogParse(CatalogFault::LegacyHeader));
        },
    };
    let la = match &leg[li].anchors {
        Some(v) => v,
        None => {
            proof {
                assert(sections_value(leg@)[li as int].anchors is None);
            }
            return Err(InstallError::CatalogParse(CatalogFault::LegacyTable));
        },
    };
    proof {
        assert(sections_value(leg@)[li as int].anchors == Some(anchors_value(la@)));
    }
    match anchors_to_records(PatternKind::Legacy, la, &mut pairs) {
        Err(f) => {
            return Err(InstallError::CatalogParse(f));
        },
        Ok(_) => {},
    }
    let ghost rs2 = records_of(PatternKind::Legacy, anchors_value(la@))->Ok_0;
    proof {
        assert(pairs_value(pairs@) == rs1 + rs2);
    }
    let sorted = sort_pairs(pairs);
    let out = filter_records(sorted);
    Ok(out)
}

/// Resolves the catalog offered by a download page.
pub fn resolve_downloads(html: &str) -> (r: Result<Vec<DownloadInfo>, InstallError>)
    ensures
        catalog_of(
            crate::page::download_sections_of(html@),
            crate::page::legacy_sections_of(html@),
        ) matches Ok(rs) ==> (r matches Ok(v) && recs_value(v@) == rs),
        catalog_of(
            crate::page::download_sections_of(html@),
            crate::page::legacy_sections_of(html@),
        ) matches Err(f) ==> (r matches Err(e) && e == InstallError::CatalogParse(f)),
{
    let cur = crate::page::scan_download_sections(html);
    let leg = crate::page::scan_legacy_sections(html);
    build_catalog(&cur, &leg)
}

/// Index of the first record matching the requested edition and version.
pub open spec fn find_release_idx(
    s: Seq<RecordValue>,
    ed: Edition,
    ver: Seq<char>,
    from: int,
) -> Option<int>
    decreases s.len() - from when 0 <= from <= s.len()
{
    if from >= s.len() {
        None
    } else if s[from].edition == ed && s[from].version == ver {
        Some(from)
    } else {
        find_release_idx(s, ed, ver, from + 1)
    }
}

/// Looks up the requested release in the catalog; the first matching
/// record wins.
pub fn find_download(catalog: &Vec<DownloadInfo>, edition: Edition, version: &str) -> (r: Result<
    DownloadInfo,
    InstallError,
>)
    ensures
        match find_release_idx(recs_value(catalog@), edition, version@, 0) {
            Some(i) => r matches Ok(d) && rec_value(d) == recs_value(catalog@)[i],
            None => r matches Err(e) && e == InstallError::ReleaseNotFound(edition),
        },
{
    let n = catalog.len();
    let ghost rv = recs_value(catalog@);
    let mut i: usize = 0;
    while i < n
        invariant
            i <= n,
            n == catalog@.len(),
            rv == recs_value(catalog@),
            find_release_idx(rv, edition, version@, 0) == find_release_idx(
                rv,
                edition,
                version@,
                i as int,
            ),
        decreases n - i,
    {
        proof {
            assert(rv[i as int] == rec_value(catalog@[i as int]));
        }
        let d = &catalog[i];
        if d.edition == edition && crate::text::str_eq(d.version.as_str(), version) {
            let picked = DownloadInfo {
                edition: d.edition,
                os: d.os,
                version: d.version.clone(),
                link: d.link.clone(),
            };
            return Ok(picked);
        }
        i += 1;
    }
    Err(InstallError::ReleaseNotFound(edition))
}

/// The newest catalog entry's version, when the catalog is nonempty.
pub fn latest_version(catalog: &Vec<DownloadInfo>) -> (r: Option<String>)
    ensures
        catalog@.len() == 0 ==> r is None,
        catalog@.len() > 0 ==> (r matches Some(v) && v@ == catalog@[0].version@),
{
    if catalog.len() > 0 {
        Some(catalog[0].version.clone())
    } else {
        None
    }
}

/// Records in newest-first order: no later record has a newer version.
pub open spec fn pairs_sorted(s: Seq<(RecordValue, VersionTriple)>) -> bool {
    forall|i: int, j: int| 0 <= i < j < s.len() ==> !triple_lt(#[trigger] s[i].1, #[trigger] s[j].1)
}

/// Each record's parsed version is the triple it is paired with.
pub open spec fn pairs_wf(s: Seq<(RecordValue, VersionTriple)>) -> bool {
    forall|i: int| 0 <= i < s.len() ==> version_triple_of(#[trigger] s[i].0.version) == Some(
        s[i].1,
    )
}

/// The parsed version of a catalog record.
pub open spec fn record_triple(r: RecordValue) -> Option<VersionTriple> {
    version_triple_of(r.version)
}

/// A catalog in newest-first order: every record's version parses and no
/// later record has a newer version.
pub open spec fn catalog_ordered(rs: Seq<RecordValue>) -> bool {
    forall|i: int, j: int| 0 <= i < j < rs.len() ==> (record_triple(#[trigger] rs[i]) matches Some(
        a,
    ) && record_triple(#[trigger] rs[j]) matches Some(b) && triple_ge(a, b))
}

proof fn lemma_insert_desc_le(
    x: (RecordValue, VersionTriple),
    s: Seq<(RecordValue, VersionTriple)>,
    b: VersionTriple,
)
    requires
        !triple_lt(b, x.1),
        forall|i: int| 0 <= i < s.len() ==> !triple_lt(b, #[trigger] s[i].1),
    ensures
        forall|k: int| 0 <= k < insert_desc(x, s).len() ==> !triple_lt(
            b,
            #[trigger] insert_desc(x, s)[k].1,
        ),
    decreases s.len(),
{
    if s.len() == 0 {
        assert(insert_desc(x, s)[0] == x);
    } else if triple_lt(s[0].1, x.1) {
        assert forall|k: int| 0 <= k < insert_desc(x, s).len() implies !triple_lt(
            b,
            #[trigger] insert_desc(x, s)[k].1,
        ) by {
            if k > 0 {
                assert(insert_desc(x, s)[k] == s[k - 1]);
            } else {
                assert(insert_desc(x, s)[k] == x);
            }
        }
    } else {
        let tail = s.subrange(1, s.len() as int);
        lemma_insert_desc_le(x, tail, b);
        assert forall|k: int| 0 <= k < insert_desc(x, s).len() implies !triple_lt(
            b,
            #[trigger] insert_desc(x, s)[k].1,
        ) by {
            if k > 0 {
                assert(insert_desc(x, s)[k] == insert_desc(x, tail)[k - 1]);
            } else {
                assert(insert_desc(x, s)[k] == s[0]);
            }
        }
    }
}

proof fn lemma_insert_desc_sorted(
    x: (RecordValue, VersionTriple),
    s: Seq<(RecordValue, VersionTriple)>,
)
    requires
        pairs_sorted(s),
    ensures
        pairs_sorted(insert_desc(x, s)),
    decreases s.len(),
{
    if s.len() == 0 {
    } else if triple_lt(s[0].1, x.1) {
        let r = seq![x] + s;
        assert forall|i: int, j: int| 0 <= i < j < r.len() implies !triple_lt(r[i].1, r[j].1) by {
            if i == 0 {
                assert(!triple_lt(s[0].1, s[j - 1].1) || j - 1 == 0);
            }
        }
    } else {
        let tail = s.subrange(1, s.len() as int);
        lemma_insert_desc_sorted(x, tail);
        lemma_insert_desc_le(x, tail, s[0].1);
        let r = seq![s[0]] + insert_desc(x, tail);
        assert forall|i: int, j: int| 0 <= i < j < r.len() implies !triple_lt(r[i].1, r[j].1) by {
            if i > 0 {
                assert(!triple_lt(insert_desc(x, tail)[i - 1].1, insert_desc(x, tail)[j - 1].1));
            } else {
                assert(!triple_lt(s[0].1, insert_desc(x, tail)[j - 1].1));
            }
        }
    }
}

proof fn lemma_insert_desc_wf(x: (RecordValue, VersionTriple), s: Seq<(RecordValue, VersionTriple)>)
    requires
        version_triple_of(x.0.version) == Some(x.1),
        pairs_wf(s),
    ensures
        pairs_wf(insert_desc(x, s)),
    decreases s.len(),
{
    if s.len() == 0 {
    } else if triple_lt(s[0].1, x.1) {
    } else {
        let tail = s.subrange(1, s.len() as int);
        lemma_insert_desc_wf(x, tail);
    }
}

/// The stable sort leaves the records ordered newest first, and keeps
/// each record paired with its own parsed version.
pub proof fn lemma_sort_desc_sorted(s: Seq<(RecordValue, VersionTriple)>)
    requires
        pairs_wf(s),
    ensures
        pairs_sorted(sort_desc(s)),
        pairs_wf(sort_desc(s)),
    decreases s.len(),
{
    if s.len() > 0 {
        let s1 = s.drop_last();
        assert(pairs_wf(s1));
        lemma_sort_desc_sorted(s1);
        lemma_insert_desc_sorted(s.last(), sort_desc(s1));
        lemma_insert_desc_wf(s.last(), sort_desc(s1));
    }
}

proof fn lemma_windows_le(s: Seq<(RecordValue, VersionTriple)>, b: VersionTriple)
    requires
        pairs_wf(s),
        forall|i: int| 0 <= i < s.len() ==> !triple_lt(#[trigger] s[i].1, b),
    ensures
        forall|k: int| 0 <= k < windows_current(s).len() ==> (record_triple(
            #[trigger] windows_current(s)[k],
        ) matches Some(a) && !triple_lt(a, b)),
    decreases s.len(),
{
    if s.len() > 0 {
        let s1 = s.drop_last();
        lemma_windows_le(s1, b);
    }
}

/// Filtering a sorted, well-paired record list leaves an ordered
/// catalog.
proof fn lemma_windows_sorted(s: Seq<(RecordValue, VersionTriple)>)
    requires
        pairs_sorted(s),
        pairs_wf(s),
    ensures
        catalog_ordered(windows_current(s)),
    decreases s.len(),
{
    if s.len() > 0 {
        let s1 = s.drop_last();
        assert(pairs_sorted(s1));
        assert(pairs_wf(s1));
        lemma_windows_sorted(s1);
        let w1 = windows_current(s1);
        let w = windows_current(s);
        if keep_record(s.last()) {
            assert(forall|i: int| 0 <= i < s1.len() ==> !triple_lt(#[trigger] s1[i].1, s.last().1));
            lemma_windows_le(s1, s.last().1);
            assert forall|i: int, j: int| 0 <= i < j < w.len() implies (record_triple(
                #[trigger] w[i],
            ) matches Some(a) && record_triple(#[trigger] w[j]) matches Some(b) && !triple_lt(a, b))
                by {
                if j < w1.len() {
                    assert(w[i] == w1[i] && w[j] == w1[j]);
                } else {
                    assert(w[j] == s.last().0);
                    assert(w[i] == w1[i]);
                }
            }
        } else {
            assert(w =~= w1);
        }
    }
}

/// Every record a table contributes is paired with its parsed version.
proof fn lemma_records_of_wf(kind: PatternKind, anchors: Seq<AnchorValue>)
    ensures
        records_of(kind, anchors) matches Ok(rs) ==> pairs_wf(rs),
    decreases anchors.len(),
{
    if anchors.len() > 0 {
        lemma_records_of_wf(kind, anchors.drop_last());
    }
}

/// The resolved catalog is ordered by parsed semantic version, newest
/// first: every record's version parses, and no later record is newer.
pub proof fn lemma_catalog_sorted(cur: Seq<SectionValue>, leg: Seq<SectionValue>)
    ensures
        catalog_of(cur, leg) matches Ok(rs) ==> catalog_ordered(rs),
{
    if catalog_of(cur, leg) is Ok {
        let ci = find_labeled_idx(cur, download_heading(), 0)->Some_0;
        let ca = cur[ci].anchors->Some_0;
        let rs1 = records_of(PatternKind::Current, ca)->Ok_0;
        let li = find_labeled_idx(leg, legacy_heading(), 0)->Some_0;
        let la = leg[li].anchors->Some_0;
        let rs2 = records_of(PatternKind::Legacy, la)->Ok_0;
        lemma_records_of_wf(PatternKind::Current, ca);
        lemma_records_of_wf(PatternKind::Legacy, la);
        assert(pairs_wf(rs1 + rs2));
        lemma_sort_desc_sorted(rs1 + rs2);
        lemma_windows_sorted(sort_desc(rs1 + rs2));
    }
}

/// Where no two catalog records share a parsed version, the order is
/// strictly descending.
pub proof fn lemma_catalog_strictly_sorted(rs: Seq<RecordValue>)
    requires
        catalog_ordered(rs),
        forall|i: int, j: int| 0 <= i < j < rs.len() ==> record_triple(#[trigger] rs[i])
            != record_triple(#[trigger] rs[j]),
    ensures
        forall|i: int, j: int| 0 <= i < j < rs.len() ==> (record_triple(#[trigger] rs[i]) matches
            Some(a) && record_triple(#[trigger] rs[j]) matches Some(b) && triple_lt(b, a)),
{
}

/// Whether an installed version equals the catalog's newest entry: only
/// then is the active install root pointer updated.
pub fn should_mark_active(catalog: &Vec<DownloadInfo>, version: &str) -> (r: bool)
    ensures
        r == (catalog@.len() > 0 && catalog@[0].version@ == version@),
{
    if catalog.len() > 0 {
        crate::text::str_eq(catalog[0].version.as_str(), version)
    } else {
        false
    }
}

} // verus!
