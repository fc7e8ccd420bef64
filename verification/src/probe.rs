//! Interpreting the version/edition probe of an installed tree.
//!
//! The native version query reads the installed executable's embedded
//! version string; the hardware edition is inferred from the presence of
//! the GPU runtime library under a fixed relative path. The native call
//! itself lives outside; these functions fix the paths it uses and
//! interpret what it returns.

use vstd::prelude::*;
use crate::catalog::Edition;

verus! {

/// The installed version and inferred edition.
#[derive(Clone, Debug)]
pub struct VersionInfo {
    pub version: String,
    pub edition: Edition,
}

/// The name of the installed executable whose version resource is read.
pub fn executable_name() -> (r: String)
    ensures
        r@ == "COEIROINKv2.exe"@,
{
    String::from_str("COEIROINKv2.exe")
}

/// The relative path, inside the install root, whose presence implies
/// the GPU edition.
pub fn gpu_runtime_components() -> (r: Vec<String>)
    ensures
        r@.len() == 4,
        r@[0]@ == "engine"@,
        r@[1]@ == "torch"@,
        r@[2]@ == "lib"@,
        r@[3]@ == "cudnn64_8.dll"@,
{
    let mut v: Vec<String> = Vec::new();
    v.push(String::from_str("engine"));
    v.push(String::from_str("torch"));
    v.push(String::from_str("lib"));
    v.push(String::from_str("cudnn64_8.dll"));
    v
}

/// The edition is inferred, not stored: the GPU runtime's presence
/// implies GPU, its absence CPU.
pub fn infer_edition(gpu_runtime_present: bool) -> (r: Edition)
    ensures
        r == (if gpu_runtime_present {
            Edition::Gpu
        } else {
            Edition::Cpu
        }),
{
    if gpu_runtime_present {
        Edition::Gpu
    } else {
        Edition::Cpu
    }
}

/// Last index before `upto` past the trailing run of NUL characters.
pub open spec fn end_of_nul_run(s: Seq<char>, upto: int) -> int
    decreases upto when 0 <= upto <= s.len()
{
    if upto > 0 && (s[upto - 1] as u32) == 0 {
        end_of_nul_run(s, upto - 1)
    } else {
        upto
    }
}

/// A version string as the native query hands it over, with its trailing
/// NUL padding removed.
pub open spec fn version_text_of(s: Seq<char>) -> Seq<char> {
    s.subrange(0, end_of_nul_run(s, s.len() as int))
}

proof fn lemma_end_of_nul_bounds(s: Seq<char>, upto: int)
    requires
        0 <= upto <= s.len(),
    ensures
        0 <= end_of_nul_run(s, upto) <= upto,
    decreases upto,
{
    if upto > 0 && (s[upto - 1] as u32) == 0 {
        lemma_end_of_nul_bounds(s, upto - 1);
    }
}

/// Strips the trailing NUL padding from a raw version string.
pub fn clean_version_text(raw: &str) -> (r: String)
    ensures
        r@ == version_text_of(raw@),
{
    let n = raw.unicode_len();
    let mut e: usize = n;
    while e > 0 && (raw.get_char(e - 1) as u32) == 0
        invariant
            0 <= e <= n,
            n == raw@.len(),
            end_of_nul_run(raw@, n as int) == end_of_nul_run(raw@, e as int),
        decreases e,
    {
        e -= 1;
    }
    String::from_str(raw.substring_char(0, e))
}

/// Assembles the probe's result from the cleaned version text and the
/// GPU runtime's presence.
pub fn build_version_info(version: String, gpu_runtime_present: bool) -> (r: VersionInfo)
    ensures
        r.version == version,
        r.edition == (if gpu_runtime_present {
            Edition::Gpu
        } else {
            Edition::Cpu
        }),
{
    VersionInfo { version, edition: infer_edition(gpu_runtime_present) }
}

} // verus!
