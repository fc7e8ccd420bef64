//! Judging a destination directory before installing into it.
//!
//! A directory is safe to install into when it does not exist yet or
//! holds nothing but what an earlier install left there; it is an
//! existing install when it holds all of an install's required entries.

use vstd::prelude::*;
use crate::text::strings_value;

verus! {

/// The entries an earlier install may have left in the target.
pub open spec fn allowed_name(n: Seq<char>) -> bool {
    n == "COEIROINKv2.exe"@ || n == "engine"@ || n == "speaker_info"@
}

/// A listing holds `name` somewhere.
pub open spec fn listing_has(ns: Seq<Seq<char>>, name: Seq<char>) -> bool {
    exists|i: int| 0 <= i < ns.len() && ns[i] == name
}

/// Whether a listing holds the given name.
fn listing_contains(entries: &Vec<String>, name: &str) -> (r: bool)
    ensures
        r == listing_has(strings_value(entries@), name@),
{
    let n = entries.len();
    let mut i: usize = 0;
    while i < n
        invariant
            i <= n,
            n == entries@.len(),
            forall|k: int| 0 <= k < i ==> strings_value(entries@)[k] != name@,
        decreases n - i,
    {
        proof {
            assert(strings_value(entries@)[i as int] == entries@[i as int]@);
        }
        if crate::text::str_eq(entries[i].as_str(), name) {
            return true;
        }
        i += 1;
    }
    false
}

/// A directory is safe to install into when it does not exist, or every
/// entry in it is one an install would have put there.
pub fn is_safe_to_install(target_exists: bool, entries: &Vec<String>) -> (r: bool)
    ensures
        r == (!target_exists || (forall|k: int|
            0 <= k < entries@.len() ==> allowed_name(#[trigger] strings_value(entries@)[k]))),
{
    if !target_exists {
        return true;
    }
    let n = entries.len();
    let mut i: usize = 0;
    while i < n
        invariant
            target_exists,
            i <= n,
            n == entries@.len(),
            forall|k: int| 0 <= k < i ==> allowed_name(#[trigger] strings_value(entries@)[k]),
        decreases n - i,
    {
        proof {
            assert(strings_value(entries@)[i as int] == entries@[i as int]@);
        }
        let e = entries[i].as_str();
        let ok = crate::text::str_eq(e, "COEIROINKv2.exe") || crate::text::str_eq(e, "engine")
            || crate::text::str_eq(e, "speaker_info");
        if !ok {
            proof {
                assert(!allowed_name(strings_value(entries@)[i as int]));
            }
            return false;
        }
        i += 1;
    }
    true
}

/// A directory is an existing install when it exists and holds every
/// required entry.
pub fn is_coeiroink_dir(target_exists: bool, entries: &Vec<String>) -> (r: bool)
    ensures
        r == (target_exists && listing_has(strings_value(entries@), "COEIROINKv2.exe"@)
            && listing_has(strings_value(entries@), "engine"@) && listing_has(
            strings_value(entries@),
            "speaker_info"@,
        )),
{
    if !target_exists {
        return false;
    }
    let a = listing_contains(entries, "COEIROINKv2.exe");
    let b = listing_contains(entries, "engine");
    let c = listing_contains(entries, "speaker_info");
    a && b && c
}

} // verus!
