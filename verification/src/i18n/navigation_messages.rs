//! The warnings shown after moving to a neighbouring archive.
use crate::document::archive_navigator::NavigationResult;
use crate::i18n::localizer::Localizer;
use crate::text::replace_all;
use vstd::prelude::*;

verus! {

broadcast use vstd::string::group_string_axioms;

/// The warnings for a move by `step`: one per folder passed over, in order, then, where
/// the search wrapped around, that the first (moving forward) or last (moving back)
/// archive was reached again.
pub fn neighbor_warnings(localizer: &Localizer, result: &NavigationResult, step: i32) -> (r: Vec<
    String,
>)
    ensures
        r@.len() == result.skipped_folders@.len() + (if result.looped {
            1int
        } else {
            0int
        }),
        forall|i: int|
            0 <= i < result.skipped_folders@.len() ==> (#[trigger] r@[i])@ == replace_all(
                localizer.lang_data().toast.nav_skipped_empty@,
                "{0}"@,
                result.skipped_folders@[i]@,
            ),
        result.looped ==> r@[r@.len() - 1]@ == (if step > 0 {
            localizer.lang_data().toast.nav_looped_first@
        } else {
            localizer.lang_data().toast.nav_looped_last@
        }),
{
    let mut out: Vec<String> = Vec::new();
    let mut i: usize = 0;
    while i < result.skipped_folders.len()
        invariant
            i <= result.skipped_folders@.len(),
            out@.len() == i,
            forall|k: int|
                0 <= k < i ==> (#[trigger] out@[k])@ == replace_all(
                    localizer.lang_data().toast.nav_skipped_empty@,
                    "{0}"@,
                    result.skipped_folders@[k]@,
                ),
        decreases result.skipped_folders@.len() - i,
    {
        out.push(localizer.nav_skipped_empty(result.skipped_folders[i].as_str()));
        i = i + 1;
    }
    if result.looped {
        let msg = if step > 0 {
            localizer.nav_looped_first()
        } else {
            localizer.nav_looped_last()
        };
        out.push(msg.to_string());
    }
    out
}

} // verus!
