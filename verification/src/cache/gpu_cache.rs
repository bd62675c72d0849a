//! The bookkeeping of the GPU texture cache: which textures are resident, how many bytes
//! they take, and which go when room is needed. The textures themselves live with the
//! renderer, which follows the evictions this cache reports.
use crate::cache::texture_lru::{
    tafter_put, texture_entries, tkey_index, tkeys_distinct, tlru_clear, tlru_contains, tlru_get,
    tlru_keys, tlru_len, tlru_pop, tlru_put, tlru_unbounded, TextureEntries, TextureKey,
};
use crate::types::MipLevel;
use lru::LruCache;
use std::collections::HashMap;
use vstd::prelude::*;

verus! {

/// Key of a texture: the document, the hash of the page key, and the mip level.
#[derive(Debug, Clone, Copy, PartialEq, Eq, Hash, Structural)]
pub struct GpuCacheKey {
    pub doc_id: u64,
    pub page_hash: u64,
    pub mip: MipLevel,
}

/// A texture that left the cache, so that the index of textures can follow.
#[derive(Debug, Clone, Copy, PartialEq, Eq, Structural)]
pub struct EvictedGpuEntry {
    pub doc_id: u64,
    pub page_hash: u64,
    pub mip: MipLevel,
}

broadcast use vstd::std_specs::hash::group_hash_axioms;

/// Bytes in one MB.
pub const GPU_BYTES_PER_MB: u64 = 1048576;

/// The smallest limit a cache sized from the VRAM gets: 64 MB.
pub const MIN_GPU_CACHE_BYTES: u64 = 67108864;

/// VRAM assumed by `GpuTextureCache::new`, in MB.
pub const DEFAULT_VRAM_MB: usize = 2048;

/// Sum of the sizes of the entries.
pub open spec fn ttotal(es: TextureEntries) -> int
    decreases es.len(),
{
    if es.len() == 0 {
        0
    } else {
        ttotal(es.drop_last()) + es.last().1
    }
}

/// Whether the texture of entry `e` has a protection priority (by its page hash).
pub open spec fn tprotected(prot: Map<u64, usize>, e: (TextureKey, u64)) -> bool {
    prot.contains_key(e.0.1)
}

/// Position of the least recently used entry without protection.
pub open spec fn tlast_unprotected(es: TextureEntries, prot: Map<u64, usize>) -> Option<int>
    decreases es.len(),
{
    if es.len() == 0 {
        None
    } else if !tprotected(prot, es.last()) {
        Some(es.len() - 1)
    } else {
        tlast_unprotected(es.drop_last(), prot)
    }
}

/// Position of the entry with the largest priority value, the least recently used among equals.
pub open spec fn tworst_protected(es: TextureEntries, prot: Map<u64, usize>) -> int
    decreases es.len(),
{
    if es.len() <= 1 {
        0
    } else {
        let j = tworst_protected(es.drop_last(), prot);
        if prot[es.last().0.1] >= prot[es[j].0.1] {
            es.len() - 1
        } else {
            j
        }
    }
}

/// Position of the entry that goes first when room is needed: the least recently used
/// unprotected entry, or, when every entry is protected, the one protected least.
pub open spec fn teviction_index(es: TextureEntries, prot: Map<u64, usize>) -> int {
    match tlast_unprotected(es, prot) {
        Some(i) => i,
        None => tworst_protected(es, prot),
    }
}

/// Entries, byte count and evicted keys (in order) after evicting until `need` more
/// bytes fit under `limit`, or until nothing is left.
pub open spec fn tevict_for(
    es: TextureEntries,
    prot: Map<u64, usize>,
    used: int,
    need: int,
    limit: int,
) -> (TextureEntries, int, Seq<TextureKey>)
    decreases es.len(),
{
    if used + need <= limit || es.len() == 0 {
        (es, used, Seq::empty())
    } else {
        let i = teviction_index(es, prot);
        if 0 <= i < es.len() {
            let r = tevict_for(es.remove(i), prot, if used >= es[i].1 { used - es[i].1 } else { 0 }, need, limit);
            (r.0, r.1, seq![es[i].0] + r.2)
        } else {
            (es, used, Seq::empty())
        }
    }
}

/// The entries left and the keys taken out, in order, when the keys of `list` are taken
/// out one after another (a key no longer present is passed over).
pub open spec fn tpop_all(es: TextureEntries, list: Seq<TextureKey>) -> (TextureEntries, Seq<TextureKey>)
    decreases list.len(),
{
    if list.len() == 0 {
        (es, Seq::empty())
    } else {
        match tkey_index(es, list[0]) {
            Some(i) => {
                let r = tpop_all(es.remove(i), list.skip(1));
                (r.0, seq![list[0]] + r.1)
            },
            None => tpop_all(es, list.skip(1)),
        }
    }
}

/// The report of a texture that left the cache.
pub open spec fn evicted_of(k: TextureKey) -> EvictedGpuEntry {
    EvictedGpuEntry { doc_id: k.0, page_hash: k.1, mip: level_spec(k.2) }
}

/// The mip level of number `c`.
pub open spec fn level_spec(c: u8) -> MipLevel {
    if c == 0 {
        MipLevel::Full
    } else if c == 1 {
        MipLevel::Half
    } else if c == 2 {
        MipLevel::Quarter
    } else {
        MipLevel::Eighth
    }
}

proof fn lemma_ttotal_nonneg(es: TextureEntries)
    ensures
        ttotal(es) >= 0,
    decreases es.len(),
{
    if es.len() > 0 {
        lemma_ttotal_nonneg(es.drop_last());
    }
}

proof fn lemma_ttotal_concat(a: TextureEntries, b: TextureEntries)
    ensures
        ttotal(a + b) == ttotal(a) + ttotal(b),
    decreases b.len(),
{
    if b.len() == 0 {
        assert(a + b =~= a);
    } else {
        lemma_ttotal_concat(a, b.drop_last());
        assert((a + b).drop_last() =~= a + b.drop_last());
    }
}

proof fn lemma_ttotal_single(e: (TextureKey, u64))
    ensures
        ttotal(seq![e]) == e.1,
{
    assert(seq![e].drop_last() =~= Seq::<(TextureKey, u64)>::empty());
    assert(ttotal(Seq::<(TextureKey, u64)>::empty()) == 0);
    assert(seq![e].last() == e);
}

proof fn lemma_ttotal_remove(es: TextureEntries, i: int)
    requires
        0 <= i < es.len(),
    ensures
        ttotal(es.remove(i)) + es[i].1 == ttotal(es),
{
    let a = es.take(i);
    let b = es.skip(i + 1);
    assert(es =~= a + seq![es[i]] + b);
    assert(es.remove(i) =~= a + b);
    lemma_ttotal_concat(a, b);
    lemma_ttotal_concat(a + seq![es[i]], b);
    lemma_ttotal_concat(a, seq![es[i]]);
    lemma_ttotal_single(es[i]);
}

proof fn lemma_tkey_index(es: TextureEntries, k: TextureKey)
    ensures
        match tkey_index(es, k) {
            Some(i) => 0 <= i < es.len() && es[i].0 == k,
            None => forall|j: int| 0 <= j < es.len() ==> es[j].0 != k,
        },
    decreases es.len(),
{
    if es.len() > 0 && es.last().0 != k {
        lemma_tkey_index(es.drop_last(), k);
        assert forall|j: int| 0 <= j < es.len() - 1 implies es.drop_last()[j] == es[j] by {}
    }
}

proof fn lemma_tkey_index_of(es: TextureEntries, i: int)
    requires
        tkeys_distinct(es),
        0 <= i < es.len(),
    ensures
        tkey_index(es, es[i].0) == Some(i),
    decreases es.len(),
{
    if i < es.len() - 1 {
        assert(es[i].0 != es[es.len() - 1].0);
        assert(es.drop_last()[i] == es[i]);
        lemma_tkey_index_of(es.drop_last(), i);
    }
}

proof fn lemma_tdistinct_remove(es: TextureEntries, i: int)
    requires
        tkeys_distinct(es),
        0 <= i < es.len(),
    ensures
        tkeys_distinct(es.remove(i)),
{
    let r = es.remove(i);
    assert forall|a: int, b: int| 0 <= a < b < r.len() implies #[trigger] r[a].0 != #[trigger] r[b].0 by {
        let a0 = if a < i { a } else { a + 1 };
        let b0 = if b < i { b } else { b + 1 };
        assert(r[a] == es[a0]);
        assert(r[b] == es[b0]);
    }
}

proof fn lemma_tdistinct_put(es: TextureEntries, k: TextureKey, v: u64)
    requires
        tkeys_distinct(es),
        tkey_index(es, k) is None,
    ensures
        tkeys_distinct(tafter_put(es, k, v)),
        tafter_put(es, k, v) == seq![(k, v)] + es,
        tkey_index(tafter_put(es, k, v), k) == Some(0int),
        ttotal(tafter_put(es, k, v)) == ttotal(es) + v,
{
    lemma_tkey_index(es, k);
    let p = tafter_put(es, k, v);
    assert forall|a: int, b: int| 0 <= a < b < p.len() implies #[trigger] p[a].0 != #[trigger] p[b].0 by {
        if a > 0 {
            assert(p[a] == es[a - 1]);
        }
        assert(p[b] == es[b - 1]);
    }
    lemma_ttotal_concat(seq![(k, v)], es);
    lemma_ttotal_single((k, v));
    lemma_tkey_index_of(p, 0);
}

proof fn lemma_tlast_unprotected(es: TextureEntries, prot: Map<u64, usize>)
    ensures
        match tlast_unprotected(es, prot) {
            Some(i) => 0 <= i < es.len() && !tprotected(prot, es[i]) && forall|j: int|
                i < j < es.len() ==> tprotected(prot, #[trigger] es[j]),
            None => forall|j: int| 0 <= j < es.len() ==> tprotected(prot, #[trigger] es[j]),
        },
    decreases es.len(),
{
    if es.len() > 0 && tprotected(prot, es.last()) {
        lemma_tlast_unprotected(es.drop_last(), prot);
        assert forall|j: int| 0 <= j < es.len() - 1 implies es.drop_last()[j] == es[j] by {}
    }
}

proof fn lemma_tworst_protected(es: TextureEntries, prot: Map<u64, usize>)
    requires
        es.len() > 0,
    ensures
        0 <= tworst_protected(es, prot) < es.len(),
        forall|j: int|
            0 <= j < es.len() ==> prot[#[trigger] es[j].0.1] <= prot[es[tworst_protected(
                es,
                prot,
            )].0.1],
        forall|j: int|
            tworst_protected(es, prot) < j < es.len() ==> prot[#[trigger] es[j].0.1]
                < prot[es[tworst_protected(es, prot)].0.1],
    decreases es.len(),
{
    if es.len() > 1 {
        let d = es.drop_last();
        lemma_tworst_protected(d, prot);
        assert forall|j: int| 0 <= j < d.len() implies d[j] == es[j] by {}
    }
}

proof fn lemma_teviction_index(es: TextureEntries, prot: Map<u64, usize>)
    requires
        es.len() > 0,
    ensures
        0 <= teviction_index(es, prot) < es.len(),
{
    lemma_tlast_unprotected(es, prot);
    lemma_tworst_protected(es, prot);
}

/// Unprotected textures go first: the texture chosen for eviction is, while some texture's
/// page hash has no protection priority, the least recently used such texture; when every
/// page hash is protected, one with the largest priority value, the least recently used
/// among those.
pub proof fn law_texture_unprotected_first(es: TextureEntries, prot: Map<u64, usize>)
    requires
        es.len() > 0,
    ensures
        0 <= teviction_index(es, prot) < es.len(),
        (exists|j: int| 0 <= j < es.len() && !prot.contains_key(#[trigger] es[j].0.1)) ==> {
            &&& !prot.contains_key(es[teviction_index(es, prot)].0.1)
            &&& forall|j: int|
                teviction_index(es, prot) < j < es.len() ==> prot.contains_key(#[trigger] es[j].0.1)
        },
        (forall|j: int| 0 <= j < es.len() ==> prot.contains_key(#[trigger] es[j].0.1)) ==> {
            &&& forall|j: int|
                0 <= j < es.len() ==> prot[#[trigger] es[j].0.1] <= prot[es[teviction_index(
                    es,
                    prot,
                )].0.1]
            &&& forall|j: int|
                teviction_index(es, prot) < j < es.len() ==> prot[#[trigger] es[j].0.1]
                    < prot[es[teviction_index(es, prot)].0.1]
        },
{
    lemma_tlast_unprotected(es, prot);
    lemma_tworst_protected(es, prot);
    if exists|j: int| 0 <= j < es.len() && !prot.contains_key(#[trigger] es[j].0.1) {
        let j = choose|j: int| 0 <= j < es.len() && !prot.contains_key(#[trigger] es[j].0.1);
        assert(!tprotected(prot, es[j]));
    }
}

/// Textures are evicted only while needed: where the new bytes already fit under the
/// limit, nothing is evicted.
pub proof fn law_texture_no_eviction_with_room(
    es: TextureEntries,
    prot: Map<u64, usize>,
    used: int,
    need: int,
    limit: int,
)
    requires
        used + need <= limit,
    ensures
        tevict_for(es, prot, used, need, limit) == (es, used, Seq::<TextureKey>::empty()),
{
}

/// Texture eviction makes room and keeps the count exact: when the count is the sum of the
/// sizes, afterwards the new bytes fit under the limit or nothing is left, the count is
/// the sum of the sizes kept, and each evicted key is one that was cached.
pub proof fn law_texture_eviction_makes_room(
    es: TextureEntries,
    prot: Map<u64, usize>,
    used: int,
    need: int,
    limit: int,
)
    requires
        tkeys_distinct(es),
        ttotal(es) == used,
    ensures
        ({
            let (kept, u, gone) = tevict_for(es, prot, used, need, limit);
            &&& u + need <= limit || kept.len() == 0
            &&& ttotal(kept) == u
            &&& u <= used
            &&& tkeys_distinct(kept)
            &&& kept.len() + gone.len() == es.len()
            &&& forall|j: int| 0 <= j < gone.len() ==> tkey_index(es, #[trigger] gone[j]) is Some
            &&& forall|k: TextureKey| tkey_index(kept, k) is Some ==> tkey_index(es, k) is Some
        }),
    decreases es.len(),
{
    if !(used + need <= limit || es.len() == 0) {
        let i = teviction_index(es, prot);
        lemma_teviction_index(es, prot);
        lemma_ttotal_remove(es, i);
        lemma_tdistinct_remove(es, i);
        lemma_ttotal_nonneg(es.remove(i));
        let r = es.remove(i);
        law_texture_eviction_makes_room(r, prot, used - es[i].1, need, limit);
        let (kept, u, gone) = tevict_for(es, prot, used, need, limit);
        let rest = tevict_for(r, prot, used - es[i].1, need, limit);
        lemma_tkey_index_of(es, i);
        assert forall|k: TextureKey| tkey_index(r, k) is Some implies tkey_index(es, k) is Some by {
            lemma_tkey_index(r, k);
            lemma_tkey_index(es, k);
            let j = tkey_index(r, k).unwrap();
            let j0 = if j < i { j } else { j + 1 };
            assert(r[j] == es[j0]);
        }
        assert forall|j: int| 0 <= j < gone.len() implies tkey_index(es, #[trigger] gone[j]) is Some by {
            if j > 0 {
                assert(gone[j] == rest.2[j - 1]);
            }
        }
    }
}

/// The keys of `s` other than `k`, in order.
pub open spec fn without_key(s: Seq<TextureKey>, k: TextureKey) -> Seq<TextureKey>
    decreases s.len(),
{
    if s.len() == 0 {
        s
    } else {
        let r = without_key(s.drop_last(), k);
        if s.last() == k {
            r
        } else {
            r.push(s.last())
        }
    }
}

proof fn lemma_without_key(s: Seq<TextureKey>, k: TextureKey)
    ensures
        forall|x: TextureKey| #[trigger] without_key(s, k).contains(x) <==> s.contains(x) && x != k,
        forall|j: int|
            0 <= j < without_key(s, k).len() ==> s.contains(#[trigger] without_key(s, k)[j]),
    decreases s.len(),
{
    if s.len() > 0 {
        let d = s.drop_last();
        lemma_without_key(d, k);
        let r = without_key(d, k);
        assert forall|x: TextureKey| #[trigger] without_key(s, k).contains(x) <==> s.contains(x) && x
            != k by {
            if s.contains(x) && x != k {
                let i = choose|i: int| 0 <= i < s.len() && s[i] == x;
                if i < s.len() - 1 {
                    assert(d[i] == x);
                    assert(d.contains(x));
                    assert(r.contains(x));
                    if s.last() != k {
                        let m = choose|m: int| 0 <= m < r.len() && r[m] == x;
                        assert(r.push(s.last())[m] == x);
                    }
                } else {
                    assert(r.push(s.last())[r.len() as int] == x);
                }
            }
            if without_key(s, k).contains(x) {
                let w = without_key(s, k);
                let m = choose|m: int| 0 <= m < w.len() && w[m] == x;
                if s.last() != k && m == r.len() {
                    assert(s[s.len() - 1] == x);
                } else {
                    assert(r[m] == x);
                    assert(r.contains(x));
                    let i = choose|i: int| 0 <= i < d.len() && d[i] == x;
                    assert(s[i] == x);
                }
            }
        }
        assert forall|j: int| 0 <= j < without_key(s, k).len() implies s.contains(
            #[trigger] without_key(s, k)[j],
        ) by {
            let w = without_key(s, k);
            if s.last() != k && j == r.len() {
                assert(s[s.len() - 1] == w[j]);
            } else {
                assert(w[j] == r[j]);
                assert(d.contains(r[j]));
                let i = choose|i: int| 0 <= i < d.len() && d[i] == r[j];
                assert(s[i] == r[j]);
            }
        }
    }
}

/// The mip level of number `c`.
fn level_of(c: u8) -> (r: MipLevel)
    requires
        c < 4,
    ensures
        r == level_spec(c),
        r.spec_code() == c,
{
    if c == 0 {
        MipLevel::Full
    } else if c == 1 {
        MipLevel::Half
    } else if c == 2 {
        MipLevel::Quarter
    } else {
        MipLevel::Eighth
    }
}

/// The size noted for key `k`.
pub open spec fn tlookup(es: TextureEntries, k: TextureKey) -> Option<u64> {
    match tkey_index(es, k) {
        Some(i) => Some(es[i].1),
        None => None,
    }
}

/// Entries, count and reported keys after the texture of key `k`, if resident, is taken
/// out ahead of an insert under the same key.
pub open spec fn tpop_one(es: TextureEntries, used: int, k: TextureKey) -> (TextureEntries, int, Seq<TextureKey>) {
    match tkey_index(es, k) {
        Some(i) => (es.remove(i), used - es[i].1, seq![k]),
        None => (es, used, Seq::empty()),
    }
}

/// Bookkeeping of the textures resident on the GPU, bounded by size: each key maps to the
/// bytes its texture takes; the least recently used unprotected texture goes first.
pub struct GpuTextureCache {
    cache: LruCache<(u64, u64, u8), u64>,
    max_memory_bytes: u64,
    current_memory_bytes: u64,
    doc_index: HashMap<u64, Vec<TextureKey>>,
    protected_entries: HashMap<u64, usize>,
}

impl GpuTextureCache {
    /// The resident textures with their sizes, most recently used first.
    pub closed spec fn entries(&self) -> TextureEntries {
        texture_entries(self.cache)
    }

    /// The bytes counted as in use.
    pub closed spec fn used_bytes(&self) -> int {
        self.current_memory_bytes as int
    }

    /// The memory limit in bytes.
    pub closed spec fn limit_bytes(&self) -> int {
        self.max_memory_bytes as int
    }

    /// Protection priorities by page hash; 0 protects most.
    pub closed spec fn protection(&self) -> Map<u64, usize> {
        self.protected_entries@
    }

    /// The keys noted for document `d`, in the order they were inserted.
    pub closed spec fn doc_list(&self, d: u64) -> Seq<TextureKey> {
        if self.doc_index@.contains_key(d) {
            self.doc_index@[d]@
        } else {
            Seq::empty()
        }
    }

    /// Keys are distinct and name a mip level, the count is the sum of the sizes, every
    /// resident key is noted under its document, and only there.
    pub closed spec fn wf(&self) -> bool {
        &&& tkeys_distinct(self.entries())
        &&& ttotal(self.entries()) == self.current_memory_bytes
        &&& forall|i: int| 0 <= i < self.entries().len() ==> (#[trigger] self.entries()[i]).0.2 < 4
        &&& forall|i: int|
            0 <= i < self.entries().len() ==> self.doc_list((#[trigger] self.entries()[i]).0.0).contains(
                self.entries()[i].0,
            )
        &&& forall|d: u64, j: int|
            0 <= j < self.doc_list(d).len() ==> (#[trigger] self.doc_list(d)[j]).0 == d
    }

    /// A cache with a limit of `max_memory_bytes` bytes.
    fn with_limit(max_memory_bytes: u64) -> (r: Self)
        ensures
            r.wf(),
            r.entries().len() == 0,
            r.used_bytes() == 0,
            r.limit_bytes() == max_memory_bytes,
            r.protection() == Map::<u64, usize>::empty(),
    {
        let r = GpuTextureCache {
            cache: tlru_unbounded(),
            max_memory_bytes,
            current_memory_bytes: 0,
            doc_index: HashMap::new(),
            protected_entries: HashMap::new(),
        };
        proof {
            assert(r.entries() =~= Seq::<(TextureKey, u64)>::empty());
        }
        r
    }

    /// A cache with a limit of a quarter of `vram_available_mb` MB of VRAM, and at least
    /// 64 MB.
    pub fn new_from_vram(vram_available_mb: usize) -> (r: Self)
        requires
            vram_available_mb <= 16777216,
        ensures
            r.wf(),
            r.entries().len() == 0,
            r.used_bytes() == 0,
            r.limit_bytes() == (if vram_available_mb * 262144 >= MIN_GPU_CACHE_BYTES {
                vram_available_mb * 262144
            } else {
                MIN_GPU_CACHE_BYTES as int
            }),
            r.protection() == Map::<u64, usize>::empty(),
    {
        let quarter = (vram_available_mb as u64) * 262144;
        let limit = if quarter >= MIN_GPU_CACHE_BYTES {
            quarter
        } else {
            MIN_GPU_CACHE_BYTES
        };
        Self::with_limit(limit)
    }

    /// A cache with a limit of `max_memory_mb` MB.
    pub fn new_with_memory_limit(max_memory_mb: usize) -> (r: Self)
        requires
            max_memory_mb * GPU_BYTES_PER_MB <= u64::MAX,
        ensures
            r.wf(),
            r.entries().len() == 0,
            r.used_bytes() == 0,
            r.limit_bytes() == max_memory_mb * GPU_BYTES_PER_MB,
            r.protection() == Map::<u64, usize>::empty(),
    {
        Self::with_limit((max_memory_mb as u64) * GPU_BYTES_PER_MB)
    }

    /// A cache sized for the default 2048 MB of VRAM: a limit of 512 MB.
    pub fn new() -> (r: Self)
        ensures
            r.wf(),
            r.entries().len() == 0,
            r.used_bytes() == 0,
            r.limit_bytes() == 512 * GPU_BYTES_PER_MB,
            r.protection() == Map::<u64, usize>::empty(),
    {
        Self::new_from_vram(DEFAULT_VRAM_MB)
    }

    /// Replaces the protection priorities.
    pub fn set_protection(&mut self, protections: HashMap<u64, usize>)
        requires
            old(self).wf(),
        ensures
            final(self).wf(),
            final(self).protection() == protections@,
            final(self).entries() == old(self).entries(),
            final(self).used_bytes() == old(self).used_bytes(),
            final(self).limit_bytes() == old(self).limit_bytes(),
    {
        self.protected_entries = protections;
        proof {
            assert forall|d: u64| self.doc_list(d) == old(self).doc_list(d) by {}
        }
    }

    /// Drops key `k` from the keys noted for its document, and the document's note when
    /// nothing is left in it.
    fn unlist(&mut self, k: TextureKey)
        requires
            forall|d: u64, j: int|
                0 <= j < old(self).doc_list(d).len() ==> (#[trigger] old(self).doc_list(d)[j]).0 == d,
        ensures
            final(self).cache == old(self).cache,
            final(self).current_memory_bytes == old(self).current_memory_bytes,
            final(self).max_memory_bytes == old(self).max_memory_bytes,
            final(self).protected_entries@ == old(self).protected_entries@,
            final(self).doc_list(k.0) == without_key(old(self).doc_list(k.0), k),
            forall|d: u64| d != k.0 ==> #[trigger] final(self).doc_list(d) == old(self).doc_list(d),
            forall|d: u64, j: int|
                0 <= j < final(self).doc_list(d).len() ==> (#[trigger] final(self).doc_list(d)[j]).0
                    == d,
    {
        let ghost before = old(self).doc_list(k.0);
        proof {
            lemma_without_key(before, k);
        }
        match self.doc_index.remove(&k.0) {
            Some(list) => {
                assert(list@ == before);
                let mut kept: Vec<TextureKey> = Vec::new();
                let mut i: usize = 0;
                while i < list.len()
                    invariant
                        i <= list@.len(),
                        list@ == before,
                        kept@ == without_key(before.take(i as int), k),
                    decreases list@.len() - i,
                {
                    let x = list[i];
                    proof {
                        assert(before.take(i + 1).drop_last() =~= before.take(i as int));
                        assert(before.take(i + 1).last() == x);
                    }
                    if !(x.0 == k.0 && x.1 == k.1 && x.2 == k.2) {
                        kept.push(x);
                    }
                    i = i + 1;
                }
                assert(before.take(list@.len() as int) =~= before);
                if kept.len() > 0 {
                    self.doc_index.insert(k.0, kept);
                } else {
                    assert(without_key(before, k) =~= Seq::<TextureKey>::empty());
                }
            },
            None => {
                assert(before =~= Seq::<TextureKey>::empty());
                assert(without_key(before, k) =~= Seq::<TextureKey>::empty());
            },
        }
        proof {
            assert forall|d: u64, j: int|
                0 <= j < self.doc_list(d).len() implies (#[trigger] self.doc_list(d)[j]).0 == d by {
                if d == k.0 {
                    let w = self.doc_list(d);
                    assert(before.contains(w[j]));
                    let m = choose|m: int| 0 <= m < before.len() && before[m] == w[j];
                    assert(old(self).doc_list(d)[m].0 == d);
                } else {
                    assert(self.doc_list(d) == old(self).doc_list(d));
                    assert(old(self).doc_list(d)[j].0 == d);
                }
            }
        }
    }

    /// Key of the entry to evict next, if there is any entry.
    fn find_eviction_candidate(&self) -> (r: Option<TextureKey>)
        requires
            self.wf(),
        ensures
            r == (if self.entries().len() == 0 {
                None
            } else {
                Some(self.entries()[teviction_index(self.entries(), self.protection())].0)
            }),
    {
        let ghost es = self.entries();
        let ghost prot = self.protection();
        let keys = tlru_keys(&self.cache);
        let n = keys.len();
        if n == 0 {
            return None;
        }
        proof {
            lemma_tlast_unprotected(es, prot);
        }
        let mut i: usize = n;
        while i > 0
            invariant
                0 <= i <= n,
                n == keys.len(),
                n == es.len(),
                es == self.entries(),
                prot == self.protection(),
                keys@ == es.map_values(|e: (TextureKey, u64)| e.0),
                forall|j: int| i <= j < n ==> tprotected(prot, #[trigger] es[j]),
                match tlast_unprotected(es, prot) {
                    Some(u) => 0 <= u < es.len() && !tprotected(prot, es[u]) && forall|j: int|
                        u < j < es.len() ==> tprotected(prot, #[trigger] es[j]),
                    None => forall|j: int| 0 <= j < es.len() ==> tprotected(prot, #[trigger] es[j]),
                },
            decreases i,
        {
            let k = keys[i - 1];
            assert(k == es[i - 1].0);
            if !self.protected_entries.contains_key(&k.1) {
                proof {
                    assert(!tprotected(prot, es[i - 1]));
                    match tlast_unprotected(es, prot) {
                        Some(u) => {
                            if u < i - 1 {
                                assert(tprotected(prot, es[i - 1]));
                            }
                            if u > i - 1 {
                                assert(tprotected(prot, es[u]));
                            }
                        },
                        None => {
                            assert(tprotected(prot, es[i - 1]));
                        },
                    }
                }
                return Some(k);
            }
            i = i - 1;
        }
        proof {
            assert(tlast_unprotected(es, prot) is None) by {
                match tlast_unprotected(es, prot) {
                    Some(u) => {
                        assert(tprotected(prot, es[u]));
                    },
                    None => {},
                }
            }
        }
        let mut worst: usize = 0;
        let mut cand: usize = 0;
        let mut j: usize = 0;
        while j < n
            invariant
                0 <= j <= n,
                n == keys.len(),
                n == es.len(),
                n > 0,
                es == self.entries(),
                prot == self.protection(),
                keys@ == es.map_values(|e: (TextureKey, u64)| e.0),
                forall|m: int| 0 <= m < n ==> tprotected(prot, #[trigger] es[m]),
                j == 0 ==> worst == 0,
                j > 0 ==> cand < j && cand == tworst_protected(es.take(j as int), prot) && worst
                    == prot[es[cand as int].0.1],
            decreases n - j,
        {
            let k = keys[j];
            assert(k == es[j as int].0);
            assert(tprotected(prot, es[j as int]));
            match self.protected_entries.get(&k.1) {
                Some(p) => {
                    let ghost t = es.take(j as int + 1);
                    assert(*p == prot[es[j as int].0.1]);
                    proof {
                        if j == 0 {
                            assert(t.len() == 1);
                            assert(tworst_protected(t, prot) == 0);
                        }
                        assert(t.drop_last() =~= es.take(j as int));
                        assert(t.last() == es[j as int]);
                        if j > 0 {
                            assert(t[cand as int] == es[cand as int]);
                        }
                    }
                    if *p >= worst {
                        worst = *p;
                        cand = j;
                    }
                    proof {
                        if j > 0 {
                            assert(tworst_protected(t.drop_last(), prot) == tworst_protected(
                                es.take(j as int),
                                prot,
                            ));
                        }
                        assert(cand == tworst_protected(t, prot));
                    }
                },
                None => {
                    return Some(k);
                },
            }
            j = j + 1;
        }
        proof {
            assert(es.take(n as int) =~= es);
        }
        Some(keys[cand])
    }


    /// Takes the texture at position `i` out: pops it, uncounts its bytes, drops its note
    /// and reports it in `out`.
    fn evict_at(&mut self, key: TextureKey, out: &mut Vec<EvictedGpuEntry>, Ghost(i): Ghost<int>) -> (b: u64)
        requires
            old(self).wf(),
            0 <= i < old(self).entries().len(),
            old(self).entries()[i].0 == key,
        ensures
            final(self).wf(),
            final(self).entries() == old(self).entries().remove(i),
            final(self).used_bytes() == old(self).used_bytes() - old(self).entries()[i].1,
            final(self).limit_bytes() == old(self).limit_bytes(),
            final(self).protection() == old(self).protection(),
            final(out)@ == old(out)@.push(evicted_of(key)),
            b == old(self).entries()[i].1,
    {
        let ghost es = self.entries();
        proof {
            lemma_tkey_index_of(es, i);
            lemma_ttotal_remove(es, i);
            lemma_tdistinct_remove(es, i);
            lemma_ttotal_nonneg(es.remove(i));
        }
        assert(key.2 < 4);
        let popped = tlru_pop(&mut self.cache, key);
        let b = match popped {
            Some(b) => b,
            None => 0,
        };
        self.current_memory_bytes = self.current_memory_bytes - b;
        out.push(EvictedGpuEntry { doc_id: key.0, page_hash: key.1, mip: level_of(key.2) });
        assert(self.doc_index@ == old(self).doc_index@);
        assert forall|d: u64| #[trigger] self.doc_list(d) == old(self).doc_list(d) by {}
        self.unlist(key);
        proof {
            let r = es.remove(i);
            assert(self.entries() == r);
            lemma_without_key(old(self).doc_list(key.0), key);
            assert forall|m: int| 0 <= m < r.len() implies (#[trigger] r[m]).0.2 < 4 && self.doc_list(
                r[m].0.0,
            ).contains(r[m].0) by {
                let m0 = if m < i { m } else { m + 1 };
                assert(r[m] == es[m0]);
                assert(es[m0].0 != key);
                assert(old(self).doc_list(es[m0].0.0).contains(es[m0].0));
                if es[m0].0.0 == key.0 {
                    assert(without_key(old(self).doc_list(key.0), key).contains(es[m0].0));
                }
            }
        }
        b
    }

    /// Evicts until `required_bytes` more fit under the limit, or the cache is empty,
    /// reporting each texture taken out in `out`.
    fn evict_until_space(&mut self, required_bytes: u64, out: &mut Vec<EvictedGpuEntry>)
        requires
            old(self).wf(),
            old(self).used_bytes() + required_bytes <= u64::MAX,
        ensures
            final(self).wf(),
            ({
                let (kept, used, gone) = tevict_for(
                    old(self).entries(),
                    old(self).protection(),
                    old(self).used_bytes(),
                    required_bytes as int,
                    old(self).limit_bytes(),
                );
                &&& final(self).entries() == kept
                &&& final(self).used_bytes() == used
                &&& final(out)@ == old(out)@ + gone.map_values(|k: TextureKey| evicted_of(k))
            }),
            final(self).protection() == old(self).protection(),
            final(self).limit_bytes() == old(self).limit_bytes(),
    {
        let ghost goal = tevict_for(
            self.entries(),
            self.protection(),
            self.used_bytes(),
            required_bytes as int,
            self.limit_bytes(),
        );
        let ghost prot = self.protection();
        let ghost limit = self.limit_bytes();
        let ghost mut emitted: Seq<TextureKey> = Seq::empty();
        let ghost out0 = out@;
        while self.current_memory_bytes + required_bytes > self.max_memory_bytes
            invariant
                self.wf(),
                self.used_bytes() + required_bytes <= u64::MAX,
                self.protection() == prot,
                self.limit_bytes() == limit,
                prot == old(self).protection(),
                limit == old(self).limit_bytes(),
                out0 == old(out)@,
                goal == tevict_for(
                    old(self).entries(),
                    old(self).protection(),
                    old(self).used_bytes(),
                    required_bytes as int,
                    old(self).limit_bytes(),
                ),
                ({
                    let cur = tevict_for(
                        self.entries(),
                        prot,
                        self.used_bytes(),
                        required_bytes as int,
                        limit,
                    );
                    cur.0 == goal.0 && cur.1 == goal.1 && goal.2 == emitted + cur.2
                }),
                out@ == out0 + emitted.map_values(|k: TextureKey| evicted_of(k)),
            decreases self.entries().len(),
        {
            let ghost es = self.entries();
            match self.find_eviction_candidate() {
                Some(key) => {
                    let ghost i = teviction_index(es, prot);
                    proof {
                        lemma_teviction_index(es, prot);
                        lemma_ttotal_remove(es, i);
                    }
                    let _ = self.evict_at(key, out, Ghost(i));
                    proof {
                        assert(seq![key] + tevict_for(
                            es.remove(i),
                            prot,
                            self.used_bytes(),
                            required_bytes as int,
                            limit,
                        ).2 == tevict_for(
                            es,
                            prot,
                            self.used_bytes() + es[i].1,
                            required_bytes as int,
                            limit,
                        ).2);
                        emitted = emitted.push(key);
                        assert(emitted.map_values(|k: TextureKey| evicted_of(k)) =~= emitted.drop_last().map_values(
                            |k: TextureKey| evicted_of(k),
                        ).push(evicted_of(key)));
                        assert(goal.2 =~= emitted + tevict_for(
                            self.entries(),
                            prot,
                            self.used_bytes(),
                            required_bytes as int,
                            limit,
                        ).2);
                    }
                },
                None => {
                    proof {
                        assert(tevict_for(
                            self.entries(),
                            prot,
                            self.used_bytes(),
                            required_bytes as int,
                            limit,
                        ).2 =~= Seq::<TextureKey>::empty());
                        assert(goal.2 =~= emitted);
                    }
                    return ;
                },
            }
        }
        proof {
            assert(tevict_for(self.entries(), prot, self.used_bytes(), required_bytes as int, limit).2
                =~= Seq::<TextureKey>::empty());
            assert(goal.2 =~= emitted);
        }
    }


    /// Notes texture `(doc_id, page_hash, mip)` of `size_bytes` bytes as the most recently
    /// used. A texture already under that key is taken out first, then textures are evicted
    /// until the new one fits; every texture taken out is reported, in that order.
    pub fn insert(&mut self, doc_id: u64, page_hash: u64, mip: MipLevel, size_bytes: u64) -> (r: Vec<
        EvictedGpuEntry,
    >)
        requires
            old(self).wf(),
            old(self).used_bytes() + size_bytes <= u64::MAX,
            old(self).entries().len() < usize::MAX,
        ensures
            final(self).wf(),
            ({
                let k = (doc_id, page_hash, mip.spec_code());
                let (e1, u1, g1) = tpop_one(old(self).entries(), old(self).used_bytes(), k);
                let (kept, u, gone) = tevict_for(
                    e1,
                    old(self).protection(),
                    u1,
                    size_bytes as int,
                    old(self).limit_bytes(),
                );
                &&& final(self).entries() == seq![(k, size_bytes)] + kept
                &&& final(self).used_bytes() == u + size_bytes
                &&& r@ == (g1 + gone).map_values(|x: TextureKey| evicted_of(x))
            }),
            tlookup(final(self).entries(), (doc_id, page_hash, mip.spec_code())) == Some(size_bytes),
            size_bytes <= final(self).limit_bytes() ==> final(self).used_bytes()
                <= final(self).limit_bytes(),
            final(self).limit_bytes() == old(self).limit_bytes(),
            final(self).protection() == old(self).protection(),
    {
        let k: TextureKey = (doc_id, page_hash, mip.code());
        let ghost e0 = self.entries();
        let mut evicted: Vec<EvictedGpuEntry> = Vec::new();
        proof {
            lemma_tkey_index(e0, k);
            match tkey_index(e0, k) {
                Some(i) => {
                    lemma_ttotal_remove(e0, i);
                },
                None => {},
            }
        }
        let ghost pre = *self;
        match tlru_contains(&self.cache, k) {
            true => {
                let ghost i = tkey_index(e0, k).unwrap();
                let _ = self.evict_at(k, &mut evicted, Ghost(i));
            },
            false => {},
        }
        let ghost (e1, u1, g1) = tpop_one(e0, old(self).used_bytes(), k);
        assert(self.entries() == e1 && self.used_bytes() == u1);
        assert(evicted@ == g1.map_values(|x: TextureKey| evicted_of(x)));
        self.evict_until_space(size_bytes, &mut evicted);
        let ghost pre2 = *self;
        assert(pre2.wf());
        let ghost (kept, u, gone) = tevict_for(
            e1,
            old(self).protection(),
            u1,
            size_bytes as int,
            old(self).limit_bytes(),
        );
        proof {
            law_texture_eviction_makes_room(e1, old(self).protection(), u1, size_bytes as int, old(self).limit_bytes());
            lemma_tkey_index(e1, k);
            if tkey_index(kept, k) is Some {
                assert(tkey_index(e1, k) is Some);
                match tkey_index(e0, k) {
                    Some(i) => {
                        let j = tkey_index(e1, k).unwrap();
                        let j0 = if j < i { j } else { j + 1 };
                        assert(e1[j] == e0[j0]);
                        assert(false);
                    },
                    None => {},
                }
            }
            lemma_tdistinct_put(kept, k, size_bytes);
            assert(g1.map_values(|x: TextureKey| evicted_of(x)) + gone.map_values(|x: TextureKey| evicted_of(x))
                =~= (g1 + gone).map_values(|x: TextureKey| evicted_of(x)));
        }
        tlru_put(&mut self.cache, k, size_bytes);
        self.current_memory_bytes = self.current_memory_bytes + size_bytes;
        let mut list = match self.doc_index.remove(&doc_id) {
            Some(v) => v,
            None => Vec::new(),
        };
        let ghost old_list = list@;
        list.push(k);
        self.doc_index.insert(doc_id, list);
        proof {
            let es = self.entries();
            assert(es == seq![(k, size_bytes)] + kept);
            assert(forall|d: u64| d != doc_id ==> #[trigger] self.doc_list(d) == pre2.doc_list(d));
            assert(old_list == pre2.doc_list(doc_id));
            assert(self.doc_list(doc_id) == old_list.push(k));
            assert forall|m: int| 0 <= m < es.len() implies (#[trigger] es[m]).0.2 < 4 && self.doc_list(
                es[m].0.0,
            ).contains(es[m].0) by {
                if m == 0 {
                    assert(self.doc_list(doc_id)[old_list.len() as int] == k);
                } else {
                    assert(es[m] == kept[m - 1]);
                    let j = choose|j: int| 0 <= j < kept.len() && kept[j] == es[m];
                    assert(0 <= m - 1 < kept.len());
                    if es[m].0.0 == doc_id {
                        let c = choose|c: int| 0 <= c < old_list.len() && old_list[c] == es[m].0;
                        assert(self.doc_list(doc_id)[c] == es[m].0);
                    }
                }
            }
            assert forall|d: u64, j: int| 0 <= j < self.doc_list(d).len() implies (
            #[trigger] self.doc_list(d)[j]).0 == d by {
                if d == doc_id {
                    if j < old_list.len() {
                        assert(self.doc_list(d)[j] == old_list[j]);
                        assert(pre2.doc_list(d)[j].0 == d);
                    }
                } else {
                    assert(pre2.doc_list(d)[j].0 == d);
                }
            }
            lemma_tkey_index_of(es, 0);
            if kept.len() == 0 {
                assert(ttotal(kept) == 0);
            }
        }
        evicted
    }


    /// The size noted for texture `(doc_id, page_hash, mip)`, which becomes the most
    /// recently used.
    pub fn get(&mut self, doc_id: u64, page_hash: u64, mip: MipLevel) -> (r: Option<u64>)
        requires
            old(self).wf(),
        ensures
            final(self).wf(),
            r == tlookup(old(self).entries(), (doc_id, page_hash, mip.spec_code())),
            match tkey_index(old(self).entries(), (doc_id, page_hash, mip.spec_code())) {
                Some(i) => final(self).entries() == seq![old(self).entries()[i]] + old(
                    self,
                ).entries().remove(i),
                None => final(self).entries() == old(self).entries(),
            },
            final(self).used_bytes() == old(self).used_bytes(),
            final(self).limit_bytes() == old(self).limit_bytes(),
            final(self).protection() == old(self).protection(),
    {
        let ghost es = self.entries();
        let k: TextureKey = (doc_id, page_hash, mip.code());
        let r = tlru_get(&mut self.cache, k);
        proof {
            lemma_tkey_index(es, k);
            assert forall|d: u64| #[trigger] self.doc_list(d) == old(self).doc_list(d) by {}
            match tkey_index(es, k) {
                Some(i) => {
                    let rest = es.remove(i);
                    lemma_tdistinct_remove(es, i);
                    lemma_ttotal_remove(es, i);
                    lemma_ttotal_concat(seq![es[i]], rest);
                    lemma_ttotal_single(es[i]);
                    let p = self.entries();
                    assert forall|a: int, b: int| 0 <= a < b < p.len() implies #[trigger] p[a].0
                        != #[trigger] p[b].0 by {
                        let b0 = if b - 1 < i { b - 1 } else { b };
                        assert(p[b] == es[b0]);
                        if a > 0 {
                            let a0 = if a - 1 < i { a - 1 } else { a };
                            assert(p[a] == es[a0]);
                        }
                    }
                    assert forall|m: int| 0 <= m < p.len() implies (#[trigger] p[m]).0.2 < 4
                        && self.doc_list(p[m].0.0).contains(p[m].0) by {
                        if m > 0 {
                            let m0 = if m - 1 < i { m - 1 } else { m };
                            assert(p[m] == es[m0]);
                        }
                    }
                },
                None => {},
            }
        }
        r
    }

    /// Takes texture `(doc_id, page_hash, mip)` out, uncounting its bytes.
    pub fn remove(&mut self, doc_id: u64, page_hash: u64, mip: MipLevel) -> (r: Option<u64>)
        requires
            old(self).wf(),
        ensures
            final(self).wf(),
            r == tlookup(old(self).entries(), (doc_id, page_hash, mip.spec_code())),
            match tkey_index(old(self).entries(), (doc_id, page_hash, mip.spec_code())) {
                Some(i) => {
                    &&& final(self).entries() == old(self).entries().remove(i)
                    &&& final(self).used_bytes() == old(self).used_bytes() - old(self).entries()[i].1
                },
                None => final(self).entries() == old(self).entries() && final(self).used_bytes()
                    == old(self).used_bytes(),
            },
            final(self).limit_bytes() == old(self).limit_bytes(),
            final(self).protection() == old(self).protection(),
    {
        let ghost es = self.entries();
        let k: TextureKey = (doc_id, page_hash, mip.code());
        proof {
            lemma_tkey_index(es, k);
        }
        if tlru_contains(&self.cache, k) {
            let ghost i = tkey_index(es, k).unwrap();
            let mut sink: Vec<EvictedGpuEntry> = Vec::new();
            let b = self.evict_at(k, &mut sink, Ghost(i));
            Some(b)
        } else {
            None
        }
    }

    /// Takes every texture out and reports each, most recently used first.
    pub fn clear(&mut self) -> (r: Vec<EvictedGpuEntry>)
        requires
            old(self).wf(),
        ensures
            final(self).wf(),
            r@ == old(self).entries().map_values(|e: (TextureKey, u64)| evicted_of(e.0)),
            final(self).entries().len() == 0,
            final(self).used_bytes() == 0,
            final(self).limit_bytes() == old(self).limit_bytes(),
            final(self).protection() == old(self).protection(),
    {
        let ghost es = self.entries();
        let keys = tlru_keys(&self.cache);
        let mut out: Vec<EvictedGpuEntry> = Vec::new();
        let mut i: usize = 0;
        while i < keys.len()
            invariant
                es == self.entries(),
                self.wf(),
                keys@ == es.map_values(|e: (TextureKey, u64)| e.0),
                i <= keys@.len(),
                out@ == es.take(i as int).map_values(|e: (TextureKey, u64)| evicted_of(e.0)),
            decreases keys@.len() - i,
        {
            let k = keys[i];
            assert(k == es[i as int].0);
            assert(k.2 < 4);
            out.push(EvictedGpuEntry { doc_id: k.0, page_hash: k.1, mip: level_of(k.2) });
            assert(es.take(i + 1) =~= es.take(i as int).push(es[i as int]));
            assert(out@ =~= es.take(i + 1).map_values(|e: (TextureKey, u64)| evicted_of(e.0)));
            i = i + 1;
        }
        assert(es.take(keys@.len() as int) =~= es);
        tlru_clear(&mut self.cache);
        self.current_memory_bytes = 0;
        self.doc_index = HashMap::new();
        proof {
            assert(self.entries() =~= Seq::<(TextureKey, u64)>::empty());
            assert forall|d: u64| #[trigger] self.doc_list(d) == Seq::<TextureKey>::empty() by {}
        }
        out
    }

    /// Takes out every texture of document `doc_id`, in the order they were noted for it,
    /// and reports each; the textures of other documents stay.
    pub fn clear_doc(&mut self, doc_id: u64) -> (r: Vec<EvictedGpuEntry>)
        requires
            old(self).wf(),
        ensures
            final(self).wf(),
            ({
                let (left, gone) = tpop_all(old(self).entries(), old(self).doc_list(doc_id));
                &&& final(self).entries() == left
                &&& r@ == gone.map_values(|x: TextureKey| evicted_of(x))
            }),
            forall|i: int|
                0 <= i < final(self).entries().len() ==> (#[trigger] final(self).entries()[i]).0.0
                    != doc_id,
            forall|i: int|
                0 <= i < old(self).entries().len() && (#[trigger] old(self).entries()[i]).0.0 != doc_id
                    ==> tkey_index(final(self).entries(), old(self).entries()[i].0) is Some,
            final(self).limit_bytes() == old(self).limit_bytes(),
            final(self).protection() == old(self).protection(),
    {
        let ghost e0 = self.entries();
        let ghost l0 = self.doc_list(doc_id);
        let ghost pre = *self;
        let list = match self.doc_index.remove(&doc_id) {
            Some(v) => v,
            None => Vec::new(),
        };
        assert(list@ == l0);
        let mut out: Vec<EvictedGpuEntry> = Vec::new();
        let ghost mut emitted: Seq<TextureKey> = Seq::empty();
        let mut j: usize = 0;
        proof {
            assert(l0.skip(0) =~= l0);
            assert forall|d: u64| d != doc_id implies #[trigger] self.doc_list(d) == pre.doc_list(d) by {}
            assert forall|i: int| 0 <= i < e0.len() && (#[trigger] e0[i]).0.0 != doc_id implies tkey_index(
                self.entries(),
                e0[i].0,
            ) is Some by {
                lemma_tkey_index_of(e0, i);
            }
        }
        while j < list.len()
            invariant
                j <= list@.len(),
                list@ == l0,
                l0 == pre.doc_list(doc_id),
                pre.wf(),
                e0 == pre.entries(),
                pre.max_memory_bytes == old(self).max_memory_bytes,
                pre.protected_entries@ == old(self).protected_entries@,
                self.max_memory_bytes == old(self).max_memory_bytes,
                self.protected_entries@ == old(self).protected_entries@,
                !self.doc_index@.contains_key(doc_id),
                forall|d: u64| d != doc_id ==> #[trigger] self.doc_list(d) == pre.doc_list(d),
                tkeys_distinct(self.entries()),
                ttotal(self.entries()) == self.current_memory_bytes,
                forall|i: int|
                    0 <= i < self.entries().len() ==> (#[trigger] self.entries()[i]).0.2 < 4 && (if self.entries()[i].0.0
                        == doc_id {
                        l0.skip(j as int).contains(self.entries()[i].0)
                    } else {
                        self.doc_list(self.entries()[i].0.0).contains(self.entries()[i].0)
                    }),
                forall|i: int|
                    0 <= i < e0.len() && (#[trigger] e0[i]).0.0 != doc_id ==> tkey_index(
                        self.entries(),
                        e0[i].0,
                    ) is Some,
                ({
                    let rest = tpop_all(self.entries(), l0.skip(j as int));
                    tpop_all(e0, l0) == (rest.0, emitted + rest.1)
                }),
                out@ == emitted.map_values(|x: TextureKey| evicted_of(x)),
            decreases list@.len() - j,
        {
            let k = list[j];
            let ghost es = self.entries();
            let ghost before_iter = *self;
            let ghost tail = l0.skip(j as int);
            proof {
                assert(tail[0] == k);
                assert(tail.skip(1) =~= l0.skip(j + 1));
                assert(pre.doc_list(doc_id)[j as int].0 == doc_id);
                lemma_tkey_index(es, k);
            }
            let popped = tlru_pop(&mut self.cache, k);
            match popped {
                Some(b) => {
                    let ghost i = tkey_index(es, k).unwrap();
                    proof {
                        lemma_ttotal_remove(es, i);
                        lemma_tdistinct_remove(es, i);
                        lemma_ttotal_nonneg(es.remove(i));
                        lemma_tkey_index_of(es, i);
                    }
                    self.current_memory_bytes = self.current_memory_bytes - b;
                    assert(k.2 < 4);
                    out.push(EvictedGpuEntry { doc_id: k.0, page_hash: k.1, mip: level_of(k.2) });
                    proof {
                        let r = es.remove(i);
                        assert(self.entries() == r);
                        emitted = emitted.push(k);
                        assert(out@ =~= emitted.map_values(|x: TextureKey| evicted_of(x)));
                        assert(emitted =~= emitted.drop_last() + seq![k]);
                        assert(tpop_all(e0, l0).1 =~= emitted + tpop_all(r, l0.skip(j + 1)).1);
                        assert forall|m: int| 0 <= m < r.len() implies (#[trigger] r[m]).0.2 < 4 && (if r[m].0.0
                            == doc_id {
                            l0.skip(j + 1).contains(r[m].0)
                        } else {
                            self.doc_list(r[m].0.0).contains(r[m].0)
                        }) by {
                            let m0 = if m < i { m } else { m + 1 };
                            assert(r[m] == es[m0]);
                            assert(es[m0].0 != k);
                            if r[m].0.0 == doc_id {
                                let c = choose|c: int| 0 <= c < tail.len() && tail[c] == r[m].0;
                                assert(c != 0);
                                assert(l0.skip(j + 1)[c - 1] == r[m].0);
                            }
                        }
                        assert forall|m: int| 0 <= m < e0.len() && (#[trigger] e0[m]).0.0 != doc_id
                            implies tkey_index(r, e0[m].0) is Some by {
                            lemma_tkey_index(es, e0[m].0);
                            lemma_tkey_index(r, e0[m].0);
                            let q = tkey_index(es, e0[m].0).unwrap();
                            assert(q != i);
                            let q1 = if q < i { q } else { q - 1 };
                            assert(r[q1] == es[q]);
                        }
                    }
                },
                None => {
                    proof {
                        assert(self.entries() == es);
                        assert forall|m: int| 0 <= m < es.len() implies (#[trigger] es[m]).0.2 < 4 && (if es[m].0.0
                            == doc_id {
                            l0.skip(j + 1).contains(es[m].0)
                        } else {
                            self.doc_list(es[m].0.0).contains(es[m].0)
                        }) by {
                            if es[m].0.0 == doc_id {
                                assert(es[m].0 != k);
                                let c = choose|c: int| 0 <= c < tail.len() && tail[c] == es[m].0;
                                assert(c != 0);
                                assert(l0.skip(j + 1)[c - 1] == es[m].0);
                            }
                        }
                    }
                },
            }
            proof {
                assert(self.doc_index@ == before_iter.doc_index@);
                assert forall|d: u64| d != doc_id implies #[trigger] self.doc_list(d) == pre.doc_list(d) by {
                    assert(before_iter.doc_list(d) == pre.doc_list(d));
                }
            }
            j = j + 1;
        }
        proof {
            assert(l0.skip(list@.len() as int) =~= Seq::<TextureKey>::empty());
            let es = self.entries();
            assert(tpop_all(es, Seq::<TextureKey>::empty()).1 =~= Seq::<TextureKey>::empty());
            assert(emitted + Seq::<TextureKey>::empty() =~= emitted);
            assert forall|m: int| 0 <= m < es.len() implies (#[trigger] es[m]).0.0 != doc_id by {
                if es[m].0.0 == doc_id {
                    assert(l0.skip(list@.len() as int).contains(es[m].0));
                }
            }
            assert forall|m: int| 0 <= m < es.len() implies (#[trigger] es[m]).0.2 < 4 && self.doc_list(
                es[m].0.0,
            ).contains(es[m].0) by {}
            assert forall|d: u64, q: int| 0 <= q < self.doc_list(d).len() implies (
            #[trigger] self.doc_list(d)[q]).0 == d by {
                if d != doc_id {
                    assert(pre.doc_list(d)[q].0 == d);
                }
            }
        }
        out
    }

    /// The number of resident textures.
    pub fn len(&self) -> (r: usize)
        ensures
            r == self.entries().len(),
    {
        tlru_len(&self.cache)
    }

    /// Whether no texture is resident.
    pub fn is_empty(&self) -> (r: bool)
        ensures
            r == (self.entries().len() == 0),
    {
        tlru_len(&self.cache) == 0
    }

    /// The bytes counted as in use.
    pub fn current_bytes(&self) -> (r: u64)
        ensures
            r == self.used_bytes(),
    {
        self.current_memory_bytes
    }

    /// The bytes in use, in whole MB.
    pub fn memory_usage_mb(&self) -> (r: usize)
        ensures
            r == (self.used_bytes() / GPU_BYTES_PER_MB as int) as usize,
    {
        (self.current_memory_bytes / 1024 / 1024) as usize
    }

    /// The memory limit, in whole MB.
    pub fn max_memory_mb(&self) -> (r: usize)
        ensures
            r == (self.limit_bytes() / GPU_BYTES_PER_MB as int) as usize,
    {
        (self.max_memory_bytes / 1024 / 1024) as usize
    }

    /// Sets the limit to `max_memory_mb` MB and evicts until the cache fits under it.
    pub fn set_max_memory_mb(&mut self, max_memory_mb: usize)
        requires
            old(self).wf(),
            max_memory_mb * GPU_BYTES_PER_MB <= u64::MAX,
        ensures
            final(self).wf(),
            final(self).limit_bytes() == max_memory_mb * GPU_BYTES_PER_MB,
            ({
                let (kept, used, _) = tevict_for(
                    old(self).entries(),
                    old(self).protection(),
                    old(self).used_bytes(),
                    0,
                    max_memory_mb * GPU_BYTES_PER_MB,
                );
                final(self).entries() == kept && final(self).used_bytes() == used
            }),
            final(self).protection() == old(self).protection(),
    {
        self.max_memory_bytes = (max_memory_mb as u64) * GPU_BYTES_PER_MB;
        proof {
            assert forall|d: u64| #[trigger] self.doc_list(d) == old(self).doc_list(d) by {}
        }
        let mut sink: Vec<EvictedGpuEntry> = Vec::new();
        self.evict_until_space(0, &mut sink);
    }

}


impl Default for GpuTextureCache {
    fn default() -> (r: Self)
        ensures
            r.wf(),
            r.entries().len() == 0,
            r.used_bytes() == 0,
            r.limit_bytes() == 512 * GPU_BYTES_PER_MB,
    {
        Self::new()
    }
}

} // verus!
