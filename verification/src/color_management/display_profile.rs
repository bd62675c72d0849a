//! The colour profile of the display, where the platform reports one.
use vstd::prelude::*;

verus! {

/// The display's profile name and ICC bytes. This build reads no display profile, so
/// there is none.
pub fn detect_display_profile() -> (r: Option<(String, Vec<u8>)>)
    ensures
        r is None,
{
    None
}

} // verus!
