//! Checks shared by every record kind.

use vstd::prelude::*;

verus! {

/// Every identifier is accepted; the check is kept as a seam for future
/// rules, so that callers already thread its result through.
pub fn id_validator(id: u32) -> (r: Result<(), String>)
    ensures
        r is Ok,
{
    let _ = id;
    Ok(())
}

} // verus!
