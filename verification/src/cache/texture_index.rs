//! The index from page to uploaded texture of the document on screen.
use crate::types::{MipLevel, PageId};
use std::collections::HashMap;
use std::sync::Arc;
use vstd::prelude::*;

verus! {

broadcast use vstd::std_specs::hash::group_hash_axioms;

/// Records `image` as the texture of `page_id`, where the upload belongs to the document
/// on screen; an upload for another document leaves the index as it is.
pub fn map_to_page<T>(
    index: &mut HashMap<PageId, Arc<T>>,
    current_doc_id: u64,
    result_doc_id: u64,
    page_id: PageId,
    image: Arc<T>,
)
    ensures
        final(index)@ == if result_doc_id == current_doc_id {
            old(index)@.insert(page_id, image)
        } else {
            old(index)@
        },
{
    if result_doc_id == current_doc_id {
        index.insert(page_id, image);
    }
}

/// Whether the uploaded texture of a page serves a request at level `requested_mip`: an
/// animated page is kept at full resolution only, so any texture serves it; another page
/// needs a texture at that level. No texture serves nothing.
pub fn has_optimal_mip(texture_mip: Option<MipLevel>, requested_mip: MipLevel, is_animated: bool) -> (r: bool)
    ensures
        r == match texture_mip {
            Some(m) => is_animated || m == requested_mip,
            None => false,
        },
{
    match texture_mip {
        Some(m) => is_animated || m == requested_mip,
        None => false,
    }
}

} // verus!
