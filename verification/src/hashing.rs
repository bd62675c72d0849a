//! Digests computed with the standard library's `DefaultHasher`.
use std::hash::{DefaultHasher, Hash, Hasher};
use vstd::prelude::*;

verus! {

/// Digest of a text: a fresh `DefaultHasher` (made by `new`, so unseeded) fed the text
/// with `Hash::hash`, then `finish`.
pub uninterp spec fn text_digest(s: Seq<char>) -> u64;

/// Hashes a text with a fresh `DefaultHasher`.
/// Claimed: the result is `text_digest` of the text. The standard library documents that
/// every `DefaultHasher` made by `new` is the same, so equal texts give equal digests;
/// which value comes out is left unsaid.
#[verifier::external_body]
pub(crate) fn hash_text(s: &str) -> (r: u64)
    ensures
        r == text_digest(s@),
{
    let mut hasher = DefaultHasher::new();
    s.hash(&mut hasher);
    hasher.finish()
}

/// Digest of a page key: a fresh `DefaultHasher` fed, in order, the document id, the page
/// name and the mip level number, then `finish`.
pub uninterp spec fn page_key_digest(doc_id: u64, page_name: Seq<char>, mip_code: u8) -> u64;

/// Hashes a page key with a fresh `DefaultHasher`.
/// Claimed: the result is `page_key_digest` of the three values; which value comes out is
/// left unsaid.
#[verifier::external_body]
pub(crate) fn hash_page_key(doc_id: u64, page_name: &str, mip_code: u8) -> (r: u64)
    ensures
        r == page_key_digest(doc_id, page_name@, mip_code),
{
    let mut hasher = DefaultHasher::new();
    doc_id.hash(&mut hasher);
    page_name.hash(&mut hasher);
    mip_code.hash(&mut hasher);
    hasher.finish()
}

} // verus!
