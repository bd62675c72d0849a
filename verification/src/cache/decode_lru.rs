//! The recency-ordered store of decoded pages (`lru::LruCache`), as the cache uses it.
use crate::types::DecodedImage;
use lru::LruCache;
use std::sync::Arc;
use vstd::prelude::*;

verus! {

#[verifier::external_type_specification]
#[verifier::external_body]
#[verifier::reject_recursive_types(K)]
#[verifier::reject_recursive_types(V)]
#[verifier::reject_recursive_types(S)]
pub struct ExLruCache<K, V, S>(LruCache<K, V, S>);

#[verifier::external_type_specification]
#[verifier::external_body]
pub struct ExDefaultHasher(lru::DefaultHasher);

/// Key of a decoded page: the image hash and the number of the mip level.
pub type DecodeKey = (u64, u8);

/// The entries of the store, most recently used first.
pub uninterp spec fn decode_entries(c: LruCache<(u64, u8), Arc<DecodedImage>>) -> Seq<
    ((u64, u8), Arc<DecodedImage>),
>;

/// The position of the entry with key `k`.
pub open spec fn key_index(es: Seq<(DecodeKey, Arc<DecodedImage>)>, k: DecodeKey) -> Option<int>
    decreases es.len(),
{
    if es.len() == 0 {
        None
    } else if es.last().0 == k {
        Some(es.len() - 1)
    } else {
        key_index(es.drop_last(), k)
    }
}

/// Whether no two entries share a key.
pub open spec fn keys_distinct(es: Seq<(DecodeKey, Arc<DecodedImage>)>) -> bool {
    forall|i: int, j: int| 0 <= i < j < es.len() ==> #[trigger] es[i].0 != #[trigger] es[j].0
}

/// The entries after `(k, v)` is put: it goes first, replacing the entry with key `k`.
pub open spec fn after_put(es: Seq<(DecodeKey, Arc<DecodedImage>)>, k: DecodeKey, v: Arc<DecodedImage>) -> Seq<
    (DecodeKey, Arc<DecodedImage>),
> {
    match key_index(es, k) {
        Some(i) => seq![(k, v)] + es.remove(i),
        None => seq![(k, v)] + es,
    }
}

/// `LruCache::unbounded`: a store that never evicts by itself.
/// Claimed: it starts empty.
#[verifier::external_body]
pub(crate) fn lru_unbounded() -> (c: LruCache<(u64, u8), Arc<DecodedImage>>)
    ensures
        decode_entries(c) == Seq::<(DecodeKey, Arc<DecodedImage>)>::empty(),
{
    LruCache::unbounded()
}

/// `LruCache::contains`: whether an entry has key `k`; the order is unchanged.
#[verifier::external_body]
pub(crate) fn lru_contains(c: &LruCache<(u64, u8), Arc<DecodedImage>>, k: DecodeKey) -> (r: bool)
    ensures
        r == (key_index(decode_entries(*c), k) is Some),
{
    c.contains(&k)
}

/// `LruCache::get`: the value of key `k`, whose entry becomes the most recent.
#[verifier::external_body]
pub(crate) fn lru_get(c: &mut LruCache<(u64, u8), Arc<DecodedImage>>, k: DecodeKey) -> (r: Option<
    Arc<DecodedImage>,
>)
    ensures
        match key_index(decode_entries(*old(c)), k) {
            Some(i) => r == Some(decode_entries(*old(c))[i].1) && decode_entries(*final(c)) == seq![
                decode_entries(*old(c))[i],
            ] + decode_entries(*old(c)).remove(i),
            None => r is None && decode_entries(*final(c)) == decode_entries(*old(c)),
        },
{
    c.get(&k).cloned()
}

/// `LruCache::peek`: the value of key `k`; the order is unchanged.
#[verifier::external_body]
pub(crate) fn lru_peek(c: &LruCache<(u64, u8), Arc<DecodedImage>>, k: DecodeKey) -> (r: Option<
    Arc<DecodedImage>,
>)
    ensures
        r == match key_index(decode_entries(*c), k) {
            Some(i) => Some(decode_entries(*c)[i].1),
            None => None,
        },
{
    c.peek(&k).cloned()
}

/// `LruCache::pop`: removes the entry of key `k` and hands its value out.
#[verifier::external_body]
pub(crate) fn lru_pop(c: &mut LruCache<(u64, u8), Arc<DecodedImage>>, k: DecodeKey) -> (r: Option<
    Arc<DecodedImage>,
>)
    ensures
        match key_index(decode_entries(*old(c)), k) {
            Some(i) => r == Some(decode_entries(*old(c))[i].1) && decode_entries(*final(c))
                == decode_entries(*old(c)).remove(i),
            None => r is None && decode_entries(*final(c)) == decode_entries(*old(c)),
        },
{
    c.pop(&k)
}

/// `LruCache::put` on a store with room: `(k, v)` becomes the most recent entry and
/// replaces the entry of key `k`, if there is one.
#[verifier::external_body]
pub(crate) fn lru_put(c: &mut LruCache<(u64, u8), Arc<DecodedImage>>, k: DecodeKey, v: Arc<DecodedImage>)
    requires
        decode_entries(*old(c)).len() < usize::MAX,
    ensures
        decode_entries(*final(c)) == after_put(decode_entries(*old(c)), k, v),
{
    c.put(k, v);
}

/// `LruCache::clear`: removes every entry.
#[verifier::external_body]
pub(crate) fn lru_clear(c: &mut LruCache<(u64, u8), Arc<DecodedImage>>)
    ensures
        decode_entries(*final(c)) == Seq::<(DecodeKey, Arc<DecodedImage>)>::empty(),
{
    c.clear();
}

/// `LruCache::len`: the number of entries.
#[verifier::external_body]
pub(crate) fn lru_len(c: &LruCache<(u64, u8), Arc<DecodedImage>>) -> (r: usize)
    ensures
        r == decode_entries(*c).len(),
{
    c.len()
}

/// `LruCache::is_empty`: whether there is no entry.
#[verifier::external_body]
pub(crate) fn lru_is_empty(c: &LruCache<(u64, u8), Arc<DecodedImage>>) -> (r: bool)
    ensures
        r == (decode_entries(*c).len() == 0),
{
    c.is_empty()
}

/// `LruCache::iter`, each entry mapped to its key: the keys, most recent first.
#[verifier::external_body]
pub(crate) fn lru_keys(c: &LruCache<(u64, u8), Arc<DecodedImage>>) -> (r: Vec<DecodeKey>)
    ensures
        r@ == decode_entries(*c).map_values(|e: (DecodeKey, Arc<DecodedImage>)| e.0),
{
    c.iter().map(|(k, _)| *k).collect()
}

} // verus!
