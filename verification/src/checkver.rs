//! The update check: the latest published versions of the two programs.

use vstd::prelude::*;
use crate::errors::InstallError;

verus! {

/// The latest versions found by the update check; a fetch that failed
/// leaves its slot empty.
#[derive(Clone, Debug)]
pub struct CheckVersionResult {
    pub coeiroink: Option<String>,
    pub coeirobottle: Option<String>,
}

/// Combines the two fetch outcomes: an error becomes an empty slot,
/// never a failure of the whole check.
pub fn check_version(
    coeiroink: Result<String, InstallError>,
    coeirobottle: Result<String, InstallError>,
) -> (r: CheckVersionResult)
    ensures
        r.coeiroink == (match coeiroink {
            Ok(v) => Some(v),
            Err(_) => None::<String>,
        }),
        r.coeirobottle == (match coeirobottle {
            Ok(v) => Some(v),
            Err(_) => None::<String>,
        }),
{
    CheckVersionResult {
        coeiroink: match coeiroink {
            Ok(v) => Some(v),
            Err(_) => None,
        },
        coeirobottle: match coeirobottle {
            Ok(v) => Some(v),
            Err(_) => None,
        },
    }
}

/// The installer's own latest published version; its feed does not exist
/// yet, so the check reports a fixed null version.
pub fn fetch_latest_coeirobottle_version() -> (r: String)
    ensures
        r@ == "0.0.0"@,
{
    String::from_str("0.0.0")
}

} // verus!
