//! Decoded pages kept in main memory, bounded by size, with eviction that
//! spares the pages the reader is about to see.
use crate::cache::decode_lru::{
    after_put, decode_entries, key_index, keys_distinct, lru_clear, lru_contains, lru_get,
    lru_is_empty, lru_keys, lru_len, lru_peek, lru_pop, lru_put, lru_unbounded, DecodeKey,
};
use crate::types::{DecodedImage, MipLevel};
use lru::LruCache;
use std::collections::HashMap;
use std::sync::Arc;
use vstd::prelude::*;

verus! {

broadcast use vstd::std_specs::hash::group_hash_axioms;

/// Memory limit of a cache made by `CpuDecodeCache::new`, in MB.
const DEFAULT_MEMORY_LIMIT_MB: usize = 256;

/// Bytes in one MB.
pub const BYTES_PER_MB: u64 = 1048576;

/// The entries of the cache, most recently used first.
pub type DecodeEntries = Seq<(DecodeKey, Arc<DecodedImage>)>;

/// Bytes of RGBA8 pixels of an image of the given size.
pub open spec fn pixel_bytes(width: u32, height: u32) -> int {
    width * height * 4
}

/// Bytes that an entry is counted for.
pub open spec fn entry_bytes(e: (DecodeKey, Arc<DecodedImage>)) -> int {
    pixel_bytes(e.1.width, e.1.height)
}

/// Sum of the bytes of all entries.
pub open spec fn total_bytes(es: DecodeEntries) -> int
    decreases es.len(),
{
    if es.len() == 0 {
        0
    } else {
        total_bytes(es.drop_last()) + entry_bytes(es.last())
    }
}

/// The value cached under key `k`.
pub open spec fn lookup(es: DecodeEntries, k: DecodeKey) -> Option<Arc<DecodedImage>> {
    match key_index(es, k) {
        Some(i) => Some(es[i].1),
        None => None,
    }
}

/// Bytes of the entry that a put of key `k` replaces; 0 where there is none.
pub open spec fn replaced_bytes(es: DecodeEntries, k: DecodeKey) -> int {
    match key_index(es, k) {
        Some(i) => entry_bytes(es[i]),
        None => 0,
    }
}

/// Whether the page of entry `e` has a protection priority.
pub open spec fn is_protected(prot: Map<u64, usize>, e: (DecodeKey, Arc<DecodedImage>)) -> bool {
    prot.contains_key(e.0.0)
}

/// Position of the least recently used entry without protection.
pub open spec fn last_unprotected(es: DecodeEntries, prot: Map<u64, usize>) -> Option<int>
    decreases es.len(),
{
    if es.len() == 0 {
        None
    } else if !is_protected(prot, es.last()) {
        Some(es.len() - 1)
    } else {
        last_unprotected(es.drop_last(), prot)
    }
}

/// Position of the entry with the largest priority value, the least recently used among equals.
pub open spec fn worst_protected(es: DecodeEntries, prot: Map<u64, usize>) -> int
    decreases es.len(),
{
    if es.len() <= 1 {
        0
    } else {
        let j = worst_protected(es.drop_last(), prot);
        if prot[es.last().0.0] >= prot[es[j].0.0] {
            es.len() - 1
        } else {
            j
        }
    }
}

/// Position of the entry that goes first when room is needed: the least recently used
/// unprotected entry, or, when every entry is protected, the one protected least.
pub open spec fn eviction_index(es: DecodeEntries, prot: Map<u64, usize>) -> int {
    match last_unprotected(es, prot) {
        Some(i) => i,
        None => worst_protected(es, prot),
    }
}

/// `a - b`, or 0 where that is negative.
pub open spec fn sat_sub(a: int, b: int) -> int {
    if a >= b {
        a - b
    } else {
        0
    }
}

/// Entries and byte count after evicting until `need` more bytes fit under `limit`,
/// or until nothing is left.
pub open spec fn evict_for(
    es: DecodeEntries,
    prot: Map<u64, usize>,
    used: int,
    need: int,
    limit: int,
) -> (DecodeEntries, int)
    decreases es.len(),
{
    if used + need <= limit || es.len() == 0 {
        (es, used)
    } else {
        let i = eviction_index(es, prot);
        if 0 <= i < es.len() {
            evict_for(es.remove(i), prot, sat_sub(used, entry_bytes(es[i])), need, limit)
        } else {
            (es, used)
        }
    }
}

proof fn lemma_pixel_bytes_nonneg(width: u32, height: u32)
    ensures
        pixel_bytes(width, height) >= 0,
{
    assert(width * height >= 0) by (nonlinear_arith);
}

proof fn lemma_total_nonneg(es: DecodeEntries)
    ensures
        total_bytes(es) >= 0,
    decreases es.len(),
{
    if es.len() > 0 {
        lemma_total_nonneg(es.drop_last());
        lemma_pixel_bytes_nonneg(es.last().1.width, es.last().1.height);
    }
}

proof fn lemma_total_concat(a: DecodeEntries, b: DecodeEntries)
    ensures
        total_bytes(a + b) == total_bytes(a) + total_bytes(b),
    decreases b.len(),
{
    if b.len() == 0 {
        assert(a + b =~= a);
    } else {
        lemma_total_concat(a, b.drop_last());
        assert((a + b).drop_last() =~= a + b.drop_last());
    }
}

proof fn lemma_total_single(e: (DecodeKey, Arc<DecodedImage>))
    ensures
        total_bytes(seq![e]) == entry_bytes(e),
{
    assert(seq![e].drop_last() =~= Seq::<(DecodeKey, Arc<DecodedImage>)>::empty());
    assert(total_bytes(Seq::<(DecodeKey, Arc<DecodedImage>)>::empty()) == 0);
    assert(seq![e].last() == e);
}

proof fn lemma_total_remove(es: DecodeEntries, i: int)
    requires
        0 <= i < es.len(),
    ensures
        total_bytes(es.remove(i)) + entry_bytes(es[i]) == total_bytes(es),
        entry_bytes(es[i]) <= total_bytes(es),
{
    let a = es.take(i);
    let b = es.skip(i + 1);
    assert(es =~= a + seq![es[i]] + b);
    assert(es.remove(i) =~= a + b);
    lemma_total_concat(a, b);
    lemma_total_concat(a + seq![es[i]], b);
    lemma_total_concat(a, seq![es[i]]);
    lemma_total_single(es[i]);
    lemma_total_nonneg(a);
    lemma_total_nonneg(b);
}

proof fn lemma_key_index(es: DecodeEntries, k: DecodeKey)
    ensures
        match key_index(es, k) {
            Some(i) => 0 <= i < es.len() && es[i].0 == k,
            None => forall|j: int| 0 <= j < es.len() ==> es[j].0 != k,
        },
    decreases es.len(),
{
    if es.len() > 0 && es.last().0 != k {
        lemma_key_index(es.drop_last(), k);
        assert forall|j: int| 0 <= j < es.len() - 1 implies es.drop_last()[j] == es[j] by {}
    }
}

proof fn lemma_key_index_of(es: DecodeEntries, i: int)
    requires
        keys_distinct(es),
        0 <= i < es.len(),
    ensures
        key_index(es, es[i].0) == Some(i),
    decreases es.len(),
{
    if i < es.len() - 1 {
        assert(es[i].0 != es[es.len() - 1].0);
        assert(es.drop_last()[i] == es[i]);
        lemma_key_index_of(es.drop_last(), i);
    }
}

proof fn lemma_distinct_remove(es: DecodeEntries, i: int)
    requires
        keys_distinct(es),
        0 <= i < es.len(),
    ensures
        keys_distinct(es.remove(i)),
{
    let r = es.remove(i);
    assert forall|a: int, b: int| 0 <= a < b < r.len() implies #[trigger] r[a].0 != #[trigger] r[b].0 by {
        let a0 = if a < i { a } else { a + 1 };
        let b0 = if b < i { b } else { b + 1 };
        assert(r[a] == es[a0]);
        assert(r[b] == es[b0]);
    }
}

proof fn lemma_distinct_put(es: DecodeEntries, k: DecodeKey, v: Arc<DecodedImage>)
    requires
        keys_distinct(es),
    ensures
        keys_distinct(after_put(es, k, v)),
        after_put(es, k, v)[0] == (k, v),
        key_index(after_put(es, k, v), k) == Some(0int),
        after_put(es, k, v).len() == (if key_index(es, k) is Some {
            es.len()
        } else {
            es.len() + 1
        }),
        total_bytes(after_put(es, k, v)) == total_bytes(es) - replaced_bytes(es, k) + pixel_bytes(
            v.width,
            v.height,
        ),
{
    lemma_key_index(es, k);
    let rest = match key_index(es, k) {
        Some(i) => es.remove(i),
        None => es,
    };
    match key_index(es, k) {
        Some(i) => {
            lemma_distinct_remove(es, i);
            lemma_total_remove(es, i);
            lemma_pixel_bytes_nonneg(es[i].1.width, es[i].1.height);
            assert forall|j: int| 0 <= j < rest.len() implies rest[j].0 != k by {
                let j0 = if j < i { j } else { j + 1 };
                assert(rest[j] == es[j0]);
            }
        },
        None => {},
    }
    let p = after_put(es, k, v);
    assert(p =~= seq![(k, v)] + rest);
    assert forall|a: int, b: int| 0 <= a < b < p.len() implies #[trigger] p[a].0 != #[trigger] p[b].0 by {
        if a > 0 {
            assert(p[a] == rest[a - 1]);
        }
        assert(p[b] == rest[b - 1]);
    }
    lemma_total_concat(seq![(k, v)], rest);
    lemma_total_single((k, v));
    lemma_key_index_of(p, 0);
}

proof fn lemma_last_unprotected(es: DecodeEntries, prot: Map<u64, usize>)
    ensures
        match last_unprotected(es, prot) {
            Some(i) => 0 <= i < es.len() && !is_protected(prot, es[i]) && forall|j: int|
                i < j < es.len() ==> is_protected(prot, #[trigger] es[j]),
            None => forall|j: int| 0 <= j < es.len() ==> is_protected(prot, #[trigger] es[j]),
        },
    decreases es.len(),
{
    if es.len() > 0 && is_protected(prot, es.last()) {
        lemma_last_unprotected(es.drop_last(), prot);
        assert forall|j: int| 0 <= j < es.len() - 1 implies es.drop_last()[j] == es[j] by {}
    }
}

proof fn lemma_worst_protected(es: DecodeEntries, prot: Map<u64, usize>)
    requires
        es.len() > 0,
    ensures
        0 <= worst_protected(es, prot) < es.len(),
        forall|j: int|
            0 <= j < es.len() ==> prot[#[trigger] es[j].0.0] <= prot[es[worst_protected(
                es,
                prot,
            )].0.0],
        forall|j: int|
            worst_protected(es, prot) < j < es.len() ==> prot[#[trigger] es[j].0.0] < prot[es[worst_protected(
                es,
                prot,
            )].0.0],
    decreases es.len(),
{
    if es.len() > 1 {
        let d = es.drop_last();
        lemma_worst_protected(d, prot);
        assert forall|j: int| 0 <= j < d.len() implies d[j] == es[j] by {}
    }
}

proof fn lemma_eviction_index(es: DecodeEntries, prot: Map<u64, usize>)
    requires
        es.len() > 0,
    ensures
        0 <= eviction_index(es, prot) < es.len(),
{
    lemma_last_unprotected(es, prot);
    lemma_worst_protected(es, prot);
}

/// Read after insert: once `(k, v)` is put into entries with distinct keys, a lookup
/// of `k` gives `v`.
pub proof fn law_read_after_insert(es: DecodeEntries, k: DecodeKey, v: Arc<DecodedImage>)
    requires
        keys_distinct(es),
    ensures
        lookup(after_put(es, k, v), k) == Some(v),
{
    lemma_distinct_put(es, k, v);
}

/// A removed key is gone: after the entry found for `k` is taken out of entries with
/// distinct keys, no entry has key `k`.
pub proof fn law_removed_is_gone(es: DecodeEntries, k: DecodeKey)
    requires
        keys_distinct(es),
        key_index(es, k) is Some,
    ensures
        key_index(es.remove(key_index(es, k).unwrap()), k) is None,
{
    let i = key_index(es, k).unwrap();
    lemma_key_index(es, k);
    let r = es.remove(i);
    lemma_key_index(r, k);
    if key_index(r, k) is Some {
        let j = key_index(r, k).unwrap();
        let j0 = if j < i { j } else { j + 1 };
        assert(r[j] == es[j0]);
        assert(false);
    }
}

/// Eviction makes room: afterwards the new bytes fit under the limit, or nothing is left.
/// The count never drops below what the entries that are kept take, and stays equal to it
/// where it was equal before.
pub proof fn law_eviction_makes_room(
    es: DecodeEntries,
    prot: Map<u64, usize>,
    used: int,
    need: int,
    limit: int,
)
    requires
        total_bytes(es) <= used,
    ensures
        evict_for(es, prot, used, need, limit).1 + need <= limit || evict_for(
            es,
            prot,
            used,
            need,
            limit,
        ).0.len() == 0,
        total_bytes(evict_for(es, prot, used, need, limit).0) <= evict_for(
            es,
            prot,
            used,
            need,
            limit,
        ).1,
        evict_for(es, prot, used, need, limit).1 <= used,
        evict_for(es, prot, used, need, limit).0.len() <= es.len(),
        total_bytes(es) == used ==> total_bytes(evict_for(es, prot, used, need, limit).0)
            == evict_for(es, prot, used, need, limit).1,
    decreases es.len(),
{
    if !(used + need <= limit || es.len() == 0) {
        let i = eviction_index(es, prot);
        lemma_eviction_index(es, prot);
        lemma_total_remove(es, i);
        law_eviction_makes_room(es.remove(i), prot, sat_sub(used, entry_bytes(es[i])), need, limit);
    }
}

proof fn lemma_evict_distinct(
    es: DecodeEntries,
    prot: Map<u64, usize>,
    used: int,
    need: int,
    limit: int,
)
    requires
        keys_distinct(es),
    ensures
        keys_distinct(evict_for(es, prot, used, need, limit).0),
    decreases es.len(),
{
    if !(used + need <= limit || es.len() == 0) {
        let i = eviction_index(es, prot);
        lemma_eviction_index(es, prot);
        lemma_distinct_remove(es, i);
        lemma_evict_distinct(es.remove(i), prot, sat_sub(used, entry_bytes(es[i])), need, limit);
    }
}

/// Inserting keeps the count exact and under the limit: when the count is the sum of the
/// entries' sizes and the new image is no larger than the limit, evicting for it and then
/// putting it leaves distinct keys, the image found under its key, a count equal to the
/// sum of the sizes of what is cached (a replaced image no longer counted), and that count
/// within the limit.
pub proof fn law_insert_fits(
    es: DecodeEntries,
    prot: Map<u64, usize>,
    used: int,
    limit: int,
    k: DecodeKey,
    v: Arc<DecodedImage>,
)
    requires
        keys_distinct(es),
        total_bytes(es) == used,
        pixel_bytes(v.width, v.height) <= limit,
    ensures
        ({
            let (kept, u) = evict_for(es, prot, used, pixel_bytes(v.width, v.height), limit);
            let after = after_put(kept, k, v);
            &&& keys_distinct(after)
            &&& lookup(after, k) == Some(v)
            &&& total_bytes(after) == u - replaced_bytes(kept, k) + pixel_bytes(v.width, v.height)
            &&& total_bytes(after) <= limit
        }),
{
    let need = pixel_bytes(v.width, v.height);
    law_eviction_makes_room(es, prot, used, need, limit);
    lemma_evict_distinct(es, prot, used, need, limit);
    let (kept, u) = evict_for(es, prot, used, need, limit);
    lemma_distinct_put(kept, k, v);
    law_read_after_insert(kept, k, v);
    lemma_key_index(kept, k);
    lemma_total_nonneg(kept);
    match key_index(kept, k) {
        Some(i) => {
            lemma_total_remove(kept, i);
            lemma_pixel_bytes_nonneg(kept[i].1.width, kept[i].1.height);
        },
        None => {},
    }
    if kept.len() == 0 {
        assert(total_bytes(kept) == 0);
    }
}

/// Pages are evicted only while needed: where the new bytes already fit under the limit,
/// nothing is evicted and the count is unchanged.
pub proof fn law_no_eviction_with_room(
    es: DecodeEntries,
    prot: Map<u64, usize>,
    used: int,
    need: int,
    limit: int,
)
    requires
        used + need <= limit,
    ensures
        evict_for(es, prot, used, need, limit) == (es, used),
{
}

/// Unprotected pages go first: while some entry has no protection, the entry chosen for
/// eviction has none and every less recently used entry is protected; when all are
/// protected, the chosen one has the largest priority value, and every less recently used
/// entry a smaller one.
pub proof fn law_unprotected_evicted_first(es: DecodeEntries, prot: Map<u64, usize>)
    requires
        es.len() > 0,
    ensures
        0 <= eviction_index(es, prot) < es.len(),
        (exists|j: int| 0 <= j < es.len() && !is_protected(prot, #[trigger] es[j])) ==> {
            &&& !is_protected(prot, es[eviction_index(es, prot)])
            &&& forall|j: int|
                eviction_index(es, prot) < j < es.len() ==> is_protected(prot, #[trigger] es[j])
        },
        (forall|j: int| 0 <= j < es.len() ==> is_protected(prot, #[trigger] es[j])) ==> {
            &&& forall|j: int|
                0 <= j < es.len() ==> prot[#[trigger] es[j].0.0] <= prot[es[eviction_index(
                    es,
                    prot,
                )].0.0]
            &&& forall|j: int|
                eviction_index(es, prot) < j < es.len() ==> prot[#[trigger] es[j].0.0]
                    < prot[es[eviction_index(es, prot)].0.0]
        },
{
    lemma_last_unprotected(es, prot);
    lemma_worst_protected(es, prot);
}

/// CPU-side cache of decoded pages (RGBA8), keyed by image hash and mip level, that
/// evicts by size: least recently used first, protected pages last.
pub struct CpuDecodeCache {
    cache: LruCache<(u64, u8), Arc<DecodedImage>>,
    max_memory_bytes: u64,
    current_bytes: u64,
    protected_pages: HashMap<u64, usize>,
}

impl CpuDecodeCache {
    /// The cached entries, most recently used first.
    pub closed spec fn entries(&self) -> DecodeEntries {
        decode_entries(self.cache)
    }

    /// The bytes counted as in use.
    pub closed spec fn used_bytes(&self) -> int {
        self.current_bytes as int
    }

    /// The memory limit in bytes.
    pub closed spec fn limit_bytes(&self) -> int {
        self.max_memory_bytes as int
    }

    /// Protection priorities by image hash; 0 protects most.
    pub closed spec fn protection(&self) -> Map<u64, usize> {
        self.protected_pages@
    }

    /// Keys are distinct, each entry's size fits in 64 bits, and the count of bytes in
    /// use is the sum of the entries' sizes.
    pub closed spec fn wf(&self) -> bool {
        &&& keys_distinct(self.entries())
        &&& forall|i: int|
            0 <= i < self.entries().len() ==> entry_bytes(#[trigger] self.entries()[i])
                <= u64::MAX
        &&& total_bytes(self.entries()) == self.current_bytes
    }

    /// A cache with a limit of `max_memory_mb` MB.
    pub fn new_with_memory_limit(max_memory_mb: usize) -> (r: Self)
        requires
            max_memory_mb * BYTES_PER_MB <= u64::MAX,
        ensures
            r.wf(),
            r.entries().len() == 0,
            r.used_bytes() == 0,
            r.limit_bytes() == max_memory_mb * BYTES_PER_MB,
            r.protection() == Map::<u64, usize>::empty(),
    {
        let cache = lru_unbounded();
        let max_memory_bytes = (max_memory_mb as u64) * BYTES_PER_MB;
        let r = CpuDecodeCache {
            cache,
            max_memory_bytes,
            current_bytes: 0,
            protected_pages: HashMap::new(),
        };
        proof {
            assert(r.entries() =~= Seq::<(DecodeKey, Arc<DecodedImage>)>::empty());
        }
        r
    }

    /// A cache with the default limit of 256 MB.
    pub fn new() -> (r: Self)
        ensures
            r.wf(),
            r.entries().len() == 0,
            r.used_bytes() == 0,
            r.limit_bytes() == 256 * BYTES_PER_MB,
            r.protection() == Map::<u64, usize>::empty(),
    {
        Self::new_with_memory_limit(DEFAULT_MEMORY_LIMIT_MB)
    }

    /// Replaces the protection priorities.
    pub fn set_protection(&mut self, protections: HashMap<u64, usize>)
        requires
            old(self).wf(),
        ensures
            final(self).wf(),
            final(self).protection() == protections@,
            final(self).entries() == old(self).entries(),
            final(self).used_bytes() == old(self).used_bytes(),
            final(self).limit_bytes() == old(self).limit_bytes(),
    {
        self.protected_pages = protections;
    }

    /// Bytes of an RGBA8 image of the given size.
    fn calculate_bytes(width: u32, height: u32) -> (r: u64)
        requires
            pixel_bytes(width, height) <= u64::MAX,
        ensures
            r == pixel_bytes(width, height),
    {
        proof {
            assert(width * height <= 0xffff_fffe_0000_0001) by (nonlinear_arith)
                requires
                    width <= 0xffff_ffff,
                    height <= 0xffff_ffff,
            ;
        }
        (width as u64) * (height as u64) * 4
    }

    /// Key of the entry to evict next, if there is any entry.
    fn find_eviction_candidate(&self) -> (r: Option<DecodeKey>)
        requires
            self.wf(),
        ensures
            r == (if self.entries().len() == 0 {
                None
            } else {
                Some(self.entries()[eviction_index(self.entries(), self.protection())].0)
            }),
    {
        let ghost es = self.entries();
        let ghost prot = self.protection();
        let keys = lru_keys(&self.cache);
        let n = keys.len();
        if n == 0 {
            return None;
        }
        proof {
            lemma_last_unprotected(es, prot);
        }
        let mut i: usize = n;
        while i > 0
            invariant
                0 <= i <= n,
                n == keys.len(),
                n == es.len(),
                es == self.entries(),
                prot == self.protection(),
                keys@ == es.map_values(|e: (DecodeKey, Arc<DecodedImage>)| e.0),
                forall|j: int| i <= j < n ==> is_protected(prot, #[trigger] es[j]),
                match last_unprotected(es, prot) {
                    Some(u) => 0 <= u < es.len() && !is_protected(prot, es[u]) && forall|j: int|
                        u < j < es.len() ==> is_protected(prot, #[trigger] es[j]),
                    None => forall|j: int| 0 <= j < es.len() ==> is_protected(prot, #[trigger] es[j]),
                },
            decreases i,
        {
            let k = keys[i - 1];
            assert(k == es[i - 1].0);
            if !self.protected_pages.contains_key(&k.0) {
                proof {
                    assert(!is_protected(prot, es[i - 1]));
                    match last_unprotected(es, prot) {
                        Some(u) => {
                            if u < i - 1 {
                                assert(is_protected(prot, es[i - 1]));
                            }
                            if u > i - 1 {
                                assert(is_protected(prot, es[u]));
                            }
                        },
                        None => {
                            assert(is_protected(prot, es[i - 1]));
                        },
                    }
                }
                return Some(k);
            }
            i = i - 1;
        }
        proof {
            assert(last_unprotected(es, prot) is None) by {
                match last_unprotected(es, prot) {
                    Some(u) => {
                        assert(is_protected(prot, es[u]));
                    },
                    None => {},
                }
            }
        }
        let mut worst: usize = 0;
        let mut cand: usize = 0;
        let mut j: usize = 0;
        while j < n
            invariant
                0 <= j <= n,
                n == keys.len(),
                n == es.len(),
                n > 0,
                es == self.entries(),
                prot == self.protection(),
                keys@ == es.map_values(|e: (DecodeKey, Arc<DecodedImage>)| e.0),
                forall|m: int| 0 <= m < n ==> is_protected(prot, #[trigger] es[m]),
                j == 0 ==> worst == 0,
                j > 0 ==> cand < j && cand == worst_protected(es.take(j as int), prot) && worst
                    == prot[es[cand as int].0.0],
            decreases n - j,
        {
            let k = keys[j];
            assert(k == es[j as int].0);
            assert(is_protected(prot, es[j as int]));
            match self.protected_pages.get(&k.0) {
                Some(p) => {
                    let ghost t = es.take(j as int + 1);
                    assert(*p == prot[es[j as int].0.0]);
                    proof {
                        if j == 0 {
                            assert(t.len() == 1);
                            assert(worst_protected(t, prot) == 0);
                        }
                        assert(t.drop_last() =~= es.take(j as int));
                        assert(t.last() == es[j as int]);
                        if j > 0 {
                            assert(t[cand as int] == es[cand as int]);
                        }
                    }
                    if *p >= worst {
                        worst = *p;
                        cand = j;
                    }
                    proof {
                        if j > 0 {
                            assert(worst_protected(t.drop_last(), prot) == worst_protected(
                                es.take(j as int),
                                prot,
                            ));
                        }
                        assert(cand == worst_protected(t, prot));
                    }
                },
                None => {
                    return Some(k);
                },
            }
            j = j + 1;
        }
        proof {
            assert(es.take(n as int) =~= es);
        }
        Some(keys[cand])
    }

    /// Evicts until `required_bytes` more fit under the limit, or the cache is empty.
    fn evict_until_space(&mut self, required_bytes: u64)
        requires
            old(self).wf(),
            old(self).used_bytes() + required_bytes <= u64::MAX,
        ensures
            final(self).wf(),
            (final(self).entries(), final(self).used_bytes()) == evict_for(
                old(self).entries(),
                old(self).protection(),
                old(self).used_bytes(),
                required_bytes as int,
                old(self).limit_bytes(),
            ),
            final(self).protection() == old(self).protection(),
            final(self).limit_bytes() == old(self).limit_bytes(),
    {
        let ghost goal = evict_for(
            self.entries(),
            self.protection(),
            self.used_bytes(),
            required_bytes as int,
            self.limit_bytes(),
        );
        let ghost prot = self.protection();
        let ghost limit = self.limit_bytes();
        while self.current_bytes + required_bytes > self.max_memory_bytes
            invariant
                self.wf(),
                self.used_bytes() + required_bytes <= u64::MAX,
                self.protection() == prot,
                self.limit_bytes() == limit,
                prot == old(self).protection(),
                limit == old(self).limit_bytes(),
                goal == evict_for(
                    old(self).entries(),
                    old(self).protection(),
                    old(self).used_bytes(),
                    required_bytes as int,
                    old(self).limit_bytes(),
                ),
                evict_for(
                    self.entries(),
                    prot,
                    self.used_bytes(),
                    required_bytes as int,
                    limit,
                ) == goal,
            decreases self.entries().len(),
        {
            let ghost es = self.entries();
            match self.find_eviction_candidate() {
                Some(key) => {
                    let ghost i = eviction_index(es, prot);
                    proof {
                        lemma_eviction_index(es, prot);
                        lemma_key_index_of(es, i);
                        lemma_total_remove(es, i);
                        lemma_distinct_remove(es, i);
                        assert forall|m: int| 0 <= m < es.remove(i).len() implies entry_bytes(
                            #[trigger] es.remove(i)[m],
                        ) <= u64::MAX by {
                            let m0 = if m < i { m } else { m + 1 };
                            assert(es.remove(i)[m] == es[m0]);
                        }
                    }
                    match lru_pop(&mut self.cache, key) {
                        Some(evicted) => {
                            assert(entry_bytes(es[i]) <= u64::MAX);
                            let b = Self::calculate_bytes(evicted.width, evicted.height);
                            self.current_bytes = self.current_bytes.saturating_sub(b);
                        },
                        None => {
                            return ;
                        },
                    }
                },
                None => {
                    return ;
                },
            }
        }
    }

    /// The page `(image_hash, mip)`, which becomes the most recently used.
    pub fn get(&mut self, image_hash: u64, mip: MipLevel) -> (r: Option<Arc<DecodedImage>>)
        requires
            old(self).wf(),
        ensures
            final(self).wf(),
            r == lookup(old(self).entries(), (image_hash, mip.spec_code())),
            match key_index(old(self).entries(), (image_hash, mip.spec_code())) {
                Some(i) => final(self).entries() == seq![old(self).entries()[i]] + old(
                    self,
                ).entries().remove(i),
                None => final(self).entries() == old(self).entries(),
            },
            final(self).used_bytes() == old(self).used_bytes(),
            final(self).limit_bytes() == old(self).limit_bytes(),
            final(self).protection() == old(self).protection(),
    {
        let ghost es = self.entries();
        let k = (image_hash, mip.code());
        let r = lru_get(&mut self.cache, k);
        proof {
            lemma_key_index(es, k);
            match key_index(es, k) {
                Some(i) => {
                    assert(seq![es[i]] + es.remove(i) == after_put(es, k, es[i].1));
                    lemma_distinct_put(es, k, es[i].1);
                    lemma_total_remove(es, i);
                    lemma_total_concat(seq![es[i]], es.remove(i));
                    lemma_total_single(es[i]);
                    let p = self.entries();
                    assert forall|m: int| 0 <= m < p.len() implies entry_bytes(#[trigger] p[m])
                        <= u64::MAX by {
                        if m > 0 {
                            let m0 = if m - 1 < i { m - 1 } else { m };
                            assert(p[m] == es[m0]);
                        }
                    }
                },
                None => {},
            }
        }
        r
    }

    /// The page `(image_hash, mip)`; the order of use is unchanged.
    pub fn peek(&self, image_hash: u64, mip: MipLevel) -> (r: Option<Arc<DecodedImage>>)
        ensures
            r == lookup(self.entries(), (image_hash, mip.spec_code())),
    {
        lru_peek(&self.cache, (image_hash, mip.code()))
    }

    /// Stores `image` as page `(image_hash, mip)`, the most recently used, after evicting
    /// until its bytes fit; an image stored before under the same key is replaced and its
    /// bytes uncounted.
    pub fn insert(&mut self, image_hash: u64, mip: MipLevel, image: Arc<DecodedImage>)
        requires
            old(self).wf(),
            pixel_bytes(image.width, image.height) <= u64::MAX,
            old(self).used_bytes() + pixel_bytes(image.width, image.height) <= u64::MAX,
            old(self).entries().len() < usize::MAX,
        ensures
            final(self).wf(),
            ({
                let (kept, used) = evict_for(
                    old(self).entries(),
                    old(self).protection(),
                    old(self).used_bytes(),
                    pixel_bytes(image.width, image.height),
                    old(self).limit_bytes(),
                );
                &&& final(self).entries() == after_put(
                    kept,
                    (image_hash, mip.spec_code()),
                    image,
                )
                &&& final(self).used_bytes() == used - replaced_bytes(
                    kept,
                    (image_hash, mip.spec_code()),
                ) + pixel_bytes(image.width, image.height)
            }),
            final(self).used_bytes() == total_bytes(final(self).entries()),
            lookup(final(self).entries(), (image_hash, mip.spec_code())) == Some(image),
            final(self).used_bytes() <= final(self).limit_bytes() || final(self).entries().len()
                == 1,
            pixel_bytes(image.width, image.height) <= final(self).limit_bytes()
                ==> final(self).used_bytes() <= final(self).limit_bytes(),
            final(self).limit_bytes() == old(self).limit_bytes(),
            final(self).protection() == old(self).protection(),
    {
        let image_bytes = Self::calculate_bytes(image.width, image.height);
        self.evict_until_space(image_bytes);
        let ghost es = self.entries();
        let k = (image_hash, mip.code());
        proof {
            law_eviction_makes_room(
                old(self).entries(),
                old(self).protection(),
                old(self).used_bytes(),
                image_bytes as int,
                old(self).limit_bytes(),
            );
            lemma_distinct_put(es, k, image);
            lemma_total_nonneg(es);
            lemma_key_index(es, k);
        }
        match lru_peek(&self.cache, k) {
            Some(replaced) => {
                proof {
                    let i = key_index(es, k).unwrap();
                    lemma_total_remove(es, i);
                    lemma_pixel_bytes_nonneg(es[i].1.width, es[i].1.height);
                }
                let b = Self::calculate_bytes(replaced.width, replaced.height);
                self.current_bytes = self.current_bytes - b;
            },
            None => {},
        }
        lru_put(&mut self.cache, k, image);
        self.current_bytes = self.current_bytes + image_bytes;
        proof {
            let p = self.entries();
            assert forall|m: int| 0 <= m < p.len() implies entry_bytes(#[trigger] p[m])
                <= u64::MAX by {
                if m > 0 {
                    match key_index(es, k) {
                        Some(i) => {
                            let m0 = if m - 1 < i { m - 1 } else { m };
                            assert(p[m] == es[m0]);
                        },
                        None => {
                            assert(p[m] == es[m - 1]);
                        },
                    }
                }
            }
            law_read_after_insert(es, k, image);
            if image_bytes <= old(self).limit_bytes() {
                law_insert_fits(
                    old(self).entries(),
                    old(self).protection(),
                    old(self).used_bytes(),
                    old(self).limit_bytes(),
                    k,
                    image,
                );
            }
        }
    }

    /// Whether page `(image_hash, mip)` is cached.
    pub fn contains(&self, image_hash: u64, mip: MipLevel) -> (r: bool)
        ensures
            r == (key_index(self.entries(), (image_hash, mip.spec_code())) is Some),
    {
        lru_contains(&self.cache, (image_hash, mip.code()))
    }

    /// Takes page `(image_hash, mip)` out of the cache and uncounts its bytes.
    pub fn remove(&mut self, image_hash: u64, mip: MipLevel) -> (r: Option<Arc<DecodedImage>>)
        requires
            old(self).wf(),
        ensures
            final(self).wf(),
            r == lookup(old(self).entries(), (image_hash, mip.spec_code())),
            match key_index(old(self).entries(), (image_hash, mip.spec_code())) {
                Some(i) => {
                    &&& final(self).entries() == old(self).entries().remove(i)
                    &&& final(self).used_bytes() == old(self).used_bytes() - entry_bytes(
                        old(self).entries()[i],
                    )
                },
                None => final(self).entries() == old(self).entries() && final(self).used_bytes()
                    == old(self).used_bytes(),
            },
            key_index(final(self).entries(), (image_hash, mip.spec_code())) is None,
            final(self).limit_bytes() == old(self).limit_bytes(),
            final(self).protection() == old(self).protection(),
    {
        let ghost es = self.entries();
        let k = (image_hash, mip.code());
        proof {
            lemma_key_index(es, k);
            match key_index(es, k) {
                Some(i) => {
                    lemma_total_remove(es, i);
                    lemma_distinct_remove(es, i);
                    law_removed_is_gone(es, k);
                    assert forall|m: int| 0 <= m < es.remove(i).len() implies entry_bytes(
                        #[trigger] es.remove(i)[m],
                    ) <= u64::MAX by {
                        let m0 = if m < i { m } else { m + 1 };
                        assert(es.remove(i)[m] == es[m0]);
                    }
                },
                None => {},
            }
        }
        match lru_pop(&mut self.cache, k) {
            Some(evicted) => {
                let b = Self::calculate_bytes(evicted.width, evicted.height);
                self.current_bytes = self.current_bytes.saturating_sub(b);
                Some(evicted)
            },
            None => None,
        }
    }

    /// Empties the cache.
    pub fn clear(&mut self)
        requires
            old(self).wf(),
        ensures
            final(self).wf(),
            final(self).entries().len() == 0,
            final(self).used_bytes() == 0,
            final(self).limit_bytes() == old(self).limit_bytes(),
            final(self).protection() == old(self).protection(),
    {
        lru_clear(&mut self.cache);
        self.current_bytes = 0;
        proof {
            assert(self.entries() =~= Seq::<(DecodeKey, Arc<DecodedImage>)>::empty());
        }
    }

    /// The number of cached pages.
    pub fn len(&self) -> (r: usize)
        ensures
            r == self.entries().len(),
    {
        lru_len(&self.cache)
    }

    /// Whether no page is cached.
    pub fn is_empty(&self) -> (r: bool)
        ensures
            r == (self.entries().len() == 0),
    {
        lru_is_empty(&self.cache)
    }

    /// The bytes counted as in use.
    pub fn current_bytes(&self) -> (r: u64)
        ensures
            r == self.used_bytes(),
    {
        self.current_bytes
    }

    /// The bytes in use, in whole MB.
    pub fn memory_usage_mb(&self) -> (r: usize)
        ensures
            r == (self.used_bytes() / BYTES_PER_MB as int) as usize,
    {
        (self.current_bytes / 1024 / 1024) as usize
    }

    /// The memory limit, in whole MB.
    pub fn max_memory_mb(&self) -> (r: usize)
        ensures
            r == (self.limit_bytes() / BYTES_PER_MB as int) as usize,
    {
        (self.max_memory_bytes / 1024 / 1024) as usize
    }

    /// Sets the limit to `max_memory_mb` MB and evicts until the cache fits under it.
    pub fn set_max_memory_mb(&mut self, max_memory_mb: usize)
        requires
            old(self).wf(),
            max_memory_mb * BYTES_PER_MB <= u64::MAX,
        ensures
            final(self).wf(),
            final(self).limit_bytes() == max_memory_mb * BYTES_PER_MB,
            (final(self).entries(), final(self).used_bytes()) == evict_for(
                old(self).entries(),
                old(self).protection(),
                old(self).used_bytes(),
                0,
                max_memory_mb * BYTES_PER_MB,
            ),
            final(self).protection() == old(self).protection(),
    {
        self.max_memory_bytes = (max_memory_mb as u64) * BYTES_PER_MB;
        self.evict_until_space(0);
    }
}

impl Default for CpuDecodeCache {
    fn default() -> (r: Self)
        ensures
            r.wf(),
            r.entries().len() == 0,
            r.used_bytes() == 0,
            r.limit_bytes() == 256 * BYTES_PER_MB,
            r.protection() == Map::<u64, usize>::empty(),
    {
        Self::new()
    }
}

} // verus!
