//! Reconciling the extracted payload into the install target.
//!
//! The extracted tree has one top-level directory whose children are the
//! payload. Reconciliation deletes the target's existing entries, then
//! moves the payload in; when preservation is requested, the protected
//! subtree is neither deleted nor overwritten, so user data survives the
//! upgrade.

use vstd::prelude::*;
use crate::errors::InstallError;

verus! {

/// One immediate child of a directory.
#[derive(Clone, Debug)]
pub struct FsEntry {
    pub name: String,
    pub is_dir: bool,
}

pub struct FsEntryValue {
    pub name: Seq<char>,
    pub is_dir: bool,
}

pub open spec fn entry_value(e: FsEntry) -> FsEntryValue {
    FsEntryValue { name: e.name@, is_dir: e.is_dir }
}

pub open spec fn entries_value(s: Seq<FsEntry>) -> Seq<FsEntryValue> {
    Seq::new(s.len(), |i: int| entry_value(s[i]))
}

/// The name of the protected subtree inside the install target.
pub open spec fn protected_name() -> Seq<char> {
    "speaker_info"@
}

/// The entries that remain after dropping the protected subtree when
/// preservation is requested; without preservation, all of them.
pub open spec fn drop_protected(s: Seq<FsEntryValue>, preserve: bool) -> Seq<FsEntryValue>
    decreases s.len(),
{
    if s.len() == 0 {
        Seq::empty()
    } else {
        drop_protected(s.drop_last(), preserve) + (if preserve && s.last().name
            == protected_name() {
            Seq::empty()
        } else {
            seq![s.last()]
        })
    }
}

/// The two halves of a reconciliation: entries of the existing target to
/// delete, and payload entries to move in.
pub struct ReconcilePlan {
    pub deletions: Vec<FsEntry>,
    pub moves: Vec<FsEntry>,
}

/// Lists the entries that survive the protection filter.
fn drop_protected_entries(input: &Vec<FsEntry>, preserve: bool) -> (r: Vec<FsEntry>)
    ensures
        entries_value(r@) == drop_protected(entries_value(input@), preserve),
{
    let ghost iv = entries_value(input@);
    let n = input.len();
    let mut out: Vec<FsEntry> = Vec::new();
    let mut i: usize = 0;
    while i < n
        invariant
            i <= n,
            n == input@.len(),
            iv == entries_value(input@),
            entries_value(out@) == drop_protected(iv.subrange(0, i as int), preserve),
        decreases n - i,
    {
        proof {
            assert(iv[i as int] == entry_value(input@[i as int]));
            assert(iv.subrange(0, i + 1 as int).drop_last() =~= iv.subrange(0, i as int));
            assert(iv.subrange(0, i + 1 as int).last() == iv[i as int]);
        }
        let e = &input[i];
        let skip = preserve && crate::text::str_eq(e.name.as_str(), "speaker_info");
        if !skip {
            let kept = FsEntry { name: e.name.clone(), is_dir: e.is_dir };
            let ghost prev = out@;
            out.push(kept);
            proof {
                assert(entry_value(kept) == iv[i as int]);
                assert forall|j: int| 0 <= j < entries_value(out@).len() implies entries_value(
                    out@,
                )[j] == (drop_protected(iv.subrange(0, i as int), preserve) + seq![iv[i as int]])[j]
                    by {
                    assert(entries_value(out@)[j] == entry_value(out@[j]));
                    if j < prev.len() {
                        assert(out@[j] == prev[j]);
                        assert(entries_value(prev)[j] == drop_protected(
                            iv.subrange(0, i as int),
                            preserve,
                        )[j]);
                    } else {
                        assert(out@[j] == kept);
                    }
                }
                assert(entries_value(out@) =~= drop_protected(iv.subrange(0, i as int), preserve)
                    + seq![iv[i as int]]);
            }
        } else {
            proof {
                assert(drop_protected(iv.subrange(0, i + 1 as int), preserve) =~= drop_protected(
                    iv.subrange(0, i as int),
                    preserve,
                ));
            }
        }
        i += 1;
    }
    proof {
        assert(iv.subrange(0, n as int) =~= iv);
    }
    out
}

/// Plans a reconciliation: which existing entries to delete and which
/// payload entries to move into the target. With preservation requested,
/// the protected subtree is left out of both.
pub fn plan_reconciliation(
    existing: &Vec<FsEntry>,
    payload: &Vec<FsEntry>,
    preserve: bool,
) -> (r: ReconcilePlan)
    ensures
        entries_value(r.deletions@) == drop_protected(entries_value(existing@), preserve),
        entries_value(r.moves@) == drop_protected(entries_value(payload@), preserve),
{
    let deletions = drop_protected_entries(existing, preserve);
    let moves = drop_protected_entries(payload, preserve);
    ReconcilePlan { deletions, moves }
}

/// The single top-level directory of the extracted tree, whose children
/// are the payload.
pub fn payload_root(entries: &Vec<FsEntry>) -> (r: Result<FsEntry, InstallError>)
    ensures
        entries@.len() == 0 ==> (r matches Err(e) && e matches InstallError::Reconciliation(_)),
        entries@.len() > 0 ==> (r matches Ok(d) && entry_value(d) == entry_value(entries@[0])),
{
    if entries.len() == 0 {
        Err(
            InstallError::Reconciliation(
                String::from_str("Could not find actual extracted dir"),
            ),
        )
    } else {
        let e = &entries[0];
        Ok(FsEntry { name: e.name.clone(), is_dir: e.is_dir })
    }
}

/// Reconciling with preservation leaves the protected subtree untouched
/// — it is neither deleted nor moved over — while every other existing
/// entry is deleted and exactly the non-protected payload entries move
/// in: the target becomes the new payload plus the old protected
/// subtree.
pub proof fn lemma_preserve_protected(existing: Seq<FsEntryValue>, payload: Seq<FsEntryValue>)
    ensures
        forall|k: int| 0 <= k < drop_protected(existing, true).len() ==> (#[trigger] drop_protected(
            existing,
            true,
        )[k]).name != protected_name(),
        forall|k: int| 0 <= k < drop_protected(payload, true).len() ==> (#[trigger] drop_protected(
            payload,
            true,
        )[k]).name != protected_name(),
        forall|k: int|
            0 <= k < existing.len() && (#[trigger] existing[k]).name != protected_name()
                ==> drop_protected(existing, true).contains(existing[k]),
        forall|k: int|
            0 <= k < payload.len() && (#[trigger] payload[k]).name != protected_name()
                ==> drop_protected(payload, true).contains(payload[k]),
        forall|k: int| 0 <= k < drop_protected(existing, true).len() ==> existing.contains(
            #[trigger] drop_protected(existing, true)[k],
        ),
        forall|k: int| 0 <= k < drop_protected(payload, true).len() ==> payload.contains(
            #[trigger] drop_protected(payload, true)[k],
        ),
{
    lemma_drop_protected_props(existing);
    lemma_drop_protected_props(payload);
}

/// Without preservation nothing is spared: every entry is kept by the
/// filter, so every existing entry is deleted and every payload entry
/// moves.
pub proof fn lemma_no_preservation_all(s: Seq<FsEntryValue>)
    ensures
        drop_protected(s, false) == s,
    decreases s.len(),
{
    if s.len() > 0 {
        lemma_no_preservation_all(s.drop_last());
        assert(drop_protected(s, false) =~= s);
    }
}

proof fn lemma_drop_protected_props(s: Seq<FsEntryValue>)
    ensures
        forall|k: int| 0 <= k < drop_protected(s, true).len() ==> (#[trigger] drop_protected(
            s,
            true,
        )[k]).name != protected_name(),
        forall|k: int| 0 <= k < s.len() && (#[trigger] s[k]).name != protected_name()
            ==> drop_protected(s, true).contains(s[k]),
        forall|k: int| 0 <= k < drop_protected(s, true).len() ==> s.contains(
            #[trigger] drop_protected(s, true)[k],
        ),
    decreases s.len(),
{
    if s.len() > 0 {
        let s1 = s.drop_last();
        lemma_drop_protected_props(s1);
        let d1 = drop_protected(s1, true);
        let d = drop_protected(s, true);
        assert forall|k: int| 0 <= k < d.len() implies (#[trigger] d[k]).name != protected_name()
            by {
            if k < d1.len() {
                assert(d[k] == d1[k]);
            } else {
                assert(d[k] == s.last());
            }
        }
        assert forall|k: int| 0 <= k < s.len() && (#[trigger] s[k]).name != protected_name()
            implies d.contains(s[k]) by {
            if k < s.len() - 1 {
                assert(s1[k] == s[k]);
                assert(d1.contains(s1[k]));
                let j = choose|j: int| 0 <= j < d1.len() && d1[j] == s1[k];
                assert(d[j] == s[k]);
            } else {
                assert(d[d.len() - 1] == s.last());
            }
        }
        assert forall|k: int| 0 <= k < d.len() implies s.contains(#[trigger] d[k]) by {
            if k < d1.len() {
                assert(d[k] == d1[k]);
                assert(s1.contains(d1[k]));
                let j = choose|j: int| 0 <= j < s1.len() && s1[j] == d1[k];
                assert(s[j] == d[k]);
            } else {
                assert(d[k] == s.last());
                assert(s[s.len() - 1] == s.last());
            }
        }
    }
}

} // verus!
