//! Protection of the sliding window in the caches: every level of every page near the
//! reader is keyed with the page's priority.
use crate::cache::gpu_uploader::cache_key;
use crate::cache::prefetch::SlidingWindowPriority;
use crate::document::PageMeta;
use crate::hashing::page_key_digest;
use crate::types::MipLevel;
use std::collections::HashMap;
use vstd::prelude::*;

verus! {

broadcast use vstd::std_specs::hash::group_hash_axioms;

/// The cache key of page `name` of document `doc_id` at the level numbered `code`.
pub open spec fn level_key(doc_id: u64, name: Seq<char>, code: u8) -> u64 {
    page_key_digest(doc_id, name, code)
}

/// `m` with the four levels of the window page `p` keyed with its priority, when the page
/// belongs to the document; `m` unchanged otherwise.
pub open spec fn protect_page(
    m: Map<u64, usize>,
    doc_id: u64,
    p: SlidingWindowPriority,
    pages: Seq<PageMeta>,
) -> Map<u64, usize> {
    if p.page_id < pages.len() {
        let name = pages[p.page_id as int].name@;
        m.insert(level_key(doc_id, name, 0), p.priority).insert(
            level_key(doc_id, name, 1),
            p.priority,
        ).insert(level_key(doc_id, name, 2), p.priority).insert(
            level_key(doc_id, name, 3),
            p.priority,
        )
    } else {
        m
    }
}

/// The protections of the window pages, each page after those before it.
pub open spec fn window_protections(
    doc_id: u64,
    window: Seq<SlidingWindowPriority>,
    pages: Seq<PageMeta>,
) -> Map<u64, usize>
    decreases window.len(),
{
    if window.len() == 0 {
        Map::empty()
    } else {
        protect_page(
            window_protections(doc_id, window.drop_last(), pages),
            doc_id,
            window.last(),
            pages,
        )
    }
}

/// The protection priorities, keyed by cache key, of every level of every window page
/// that belongs to the document. Where two keys coincide, the later page's priority holds.
pub fn cache_protections(
    doc_id: u64,
    window: &Vec<SlidingWindowPriority>,
    pages: &[PageMeta],
) -> (r: HashMap<u64, usize>)
    ensures
        r@ == window_protections(doc_id, window@, pages@),
{
    let mut m: HashMap<u64, usize> = HashMap::new();
    let mut i: usize = 0;
    assert(window@.take(0) =~= Seq::<SlidingWindowPriority>::empty());
    while i < window.len()
        invariant
            i <= window@.len(),
            m@ == window_protections(doc_id, window@.take(i as int), pages@),
        decreases window@.len() - i,
    {
        let p = &window[i];
        proof {
            assert(window@.take(i + 1).drop_last() =~= window@.take(i as int));
            assert(window@.take(i + 1).last() == window@[i as int]);
        }
        if p.page_id < pages.len() {
            let name = pages[p.page_id].name.as_str();
            m.insert(cache_key(doc_id, name, MipLevel::Full), p.priority);
            m.insert(cache_key(doc_id, name, MipLevel::Half), p.priority);
            m.insert(cache_key(doc_id, name, MipLevel::Quarter), p.priority);
            m.insert(cache_key(doc_id, name, MipLevel::Eighth), p.priority);
        }
        i = i + 1;
    }
    assert(window@.take(i as int) =~= window@);
    m
}

proof fn lemma_protect_keeps_keys(m: Map<u64, usize>, doc_id: u64, p: SlidingWindowPriority, pages: Seq<PageMeta>, k: u64)
    requires
        m.contains_key(k),
    ensures
        protect_page(m, doc_id, p, pages).contains_key(k),
{
}

/// Every window page is protected at every level: for each page of the window that
/// belongs to the document, the keys of its four levels are in the protections.
pub proof fn law_window_pages_protected_at_all_levels(
    doc_id: u64,
    window: Seq<SlidingWindowPriority>,
    pages: Seq<PageMeta>,
)
    ensures
        forall|j: int, code: u8|
            0 <= j < window.len() && window[j].page_id < pages.len() && code <= 3 ==> window_protections(
                doc_id,
                window,
                pages,
            ).contains_key(level_key(doc_id, pages[window[j].page_id as int].name@, code)),
    decreases window.len(),
{
    if window.len() > 0 {
        let d = window.drop_last();
        law_window_pages_protected_at_all_levels(doc_id, d, pages);
        let before = window_protections(doc_id, d, pages);
        assert forall|j: int, code: u8|
            0 <= j < window.len() && window[j].page_id < pages.len() && code
                <= 3 implies window_protections(doc_id, window, pages).contains_key(
            level_key(doc_id, pages[window[j].page_id as int].name@, code),
        ) by {
            let k = level_key(doc_id, pages[window[j].page_id as int].name@, code);
            if j < window.len() - 1 {
                assert(d[j] == window[j]);
                lemma_protect_keeps_keys(before, doc_id, window.last(), pages, k);
            } else {
                assert(code == 0 || code == 1 || code == 2 || code == 3);
            }
        }
    }
}

} // verus!
