//! The recency-ordered store of texture sizes (`lru::LruCache`), as the texture cache
//! uses it: each key of a texture held by the renderer maps to the bytes it takes.
use lru::LruCache;
use vstd::prelude::*;

verus! {

/// Key of a texture: document id, page hash, and the number of the mip level.
pub type TextureKey = (u64, u64, u8);

/// The entries of a texture store: key and size in bytes.
pub type TextureEntries = Seq<(TextureKey, u64)>;

/// The entries of the store, most recently used first.
pub uninterp spec fn texture_entries(c: LruCache<(u64, u64, u8), u64>) -> Seq<((u64, u64, u8), u64)>;

/// The position of the entry with key `k`.
pub open spec fn tkey_index(es: TextureEntries, k: TextureKey) -> Option<int>
    decreases es.len(),
{
    if es.len() == 0 {
        None
    } else if es.last().0 == k {
        Some(es.len() - 1)
    } else {
        tkey_index(es.drop_last(), k)
    }
}

/// Whether no two entries share a key.
pub open spec fn tkeys_distinct(es: TextureEntries) -> bool {
    forall|i: int, j: int| 0 <= i < j < es.len() ==> #[trigger] es[i].0 != #[trigger] es[j].0
}

/// The entries after `(k, v)` is put: it goes first, replacing the entry with key `k`.
pub open spec fn tafter_put(es: TextureEntries, k: TextureKey, v: u64) -> TextureEntries {
    match tkey_index(es, k) {
        Some(i) => seq![(k, v)] + es.remove(i),
        None => seq![(k, v)] + es,
    }
}

/// `LruCache::unbounded`: a store that never evicts by itself.
/// Claimed: it starts empty.
#[verifier::external_body]
pub(crate) fn tlru_unbounded() -> (c: LruCache<(u64, u64, u8), u64>)
    ensures
        texture_entries(c) == Seq::<(TextureKey, u64)>::empty(),
{
    LruCache::unbounded()
}

/// `LruCache::contains`: whether an entry has key `k`; the order is unchanged.
#[verifier::external_body]
pub(crate) fn tlru_contains(c: &LruCache<(u64, u64, u8), u64>, k: TextureKey) -> (r: bool)
    ensures
        r == (tkey_index(texture_entries(*c), k) is Some),
{
    c.contains(&k)
}

/// `LruCache::get`: the value of key `k`, whose entry becomes the most recent.
#[verifier::external_body]
pub(crate) fn tlru_get(c: &mut LruCache<(u64, u64, u8), u64>, k: TextureKey) -> (r: Option<u64>)
    ensures
        match tkey_index(texture_entries(*old(c)), k) {
            Some(i) => r == Some(texture_entries(*old(c))[i].1) && texture_entries(*final(c))
                == seq![texture_entries(*old(c))[i]] + texture_entries(*old(c)).remove(i),
            None => r is None && texture_entries(*final(c)) == texture_entries(*old(c)),
        },
{
    c.get(&k).copied()
}

/// `LruCache::pop`: removes the entry of key `k` and hands its value out.
#[verifier::external_body]
pub(crate) fn tlru_pop(c: &mut LruCache<(u64, u64, u8), u64>, k: TextureKey) -> (r: Option<u64>)
    ensures
        match tkey_index(texture_entries(*old(c)), k) {
            Some(i) => r == Some(texture_entries(*old(c))[i].1) && texture_entries(*final(c))
                == texture_entries(*old(c)).remove(i),
            None => r is None && texture_entries(*final(c)) == texture_entries(*old(c)),
        },
{
    c.pop(&k)
}

/// `LruCache::put` on a store with room: `(k, v)` becomes the most recent entry and
/// replaces the entry of key `k`, if there is one.
#[verifier::external_body]
pub(crate) fn tlru_put(c: &mut LruCache<(u64, u64, u8), u64>, k: TextureKey, v: u64)
    requires
        texture_entries(*old(c)).len() < usize::MAX,
    ensures
        texture_entries(*final(c)) == tafter_put(texture_entries(*old(c)), k, v),
{
    c.put(k, v);
}

/// `LruCache::clear`: removes every entry.
#[verifier::external_body]
pub(crate) fn tlru_clear(c: &mut LruCache<(u64, u64, u8), u64>)
    ensures
        texture_entries(*final(c)) == Seq::<(TextureKey, u64)>::empty(),
{
    c.clear();
}

/// `LruCache::len`: the number of entries.
#[verifier::external_body]
pub(crate) fn tlru_len(c: &LruCache<(u64, u64, u8), u64>) -> (r: usize)
    ensures
        r == texture_entries(*c).len(),
{
    c.len()
}

/// `LruCache::iter`, each entry mapped to its key: the keys, most recent first.
#[verifier::external_body]
pub(crate) fn tlru_keys(c: &LruCache<(u64, u64, u8), u64>) -> (r: Vec<TextureKey>)
    ensures
        r@ == texture_entries(*c).map_values(|e: (TextureKey, u64)| e.0),
{
    c.iter().map(|(k, _)| *k).collect()
}

} // verus!
