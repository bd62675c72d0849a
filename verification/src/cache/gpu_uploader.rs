//! The key under which an uploaded page texture is cached.
use crate::hashing::{hash_page_key, page_key_digest};
use crate::types::MipLevel;
use vstd::prelude::*;

verus! {

/// Cache key of page `page_name` of document `doc_id` at level `mip`: the digest of the
/// three, the level taken by its number.
pub fn cache_key(doc_id: u64, page_name: &str, mip: MipLevel) -> (r: u64)
    ensures
        r == page_key_digest(doc_id, page_name@, mip.spec_code()),
{
    hash_page_key(doc_id, page_name, mip.code())
}

} // verus!
