//! Applying the memory setting of the decode cache.
use crate::cache::cpu_cache::{evict_for, CpuDecodeCache, BYTES_PER_MB};
use vstd::prelude::*;

verus! {

/// Sets the decode cache's limit to `mb` MB, evicting what no longer fits.
pub fn apply_cpu_cache_limit(cache: &mut CpuDecodeCache, mb: usize)
    requires
        old(cache).wf(),
        mb * BYTES_PER_MB <= u64::MAX,
    ensures
        final(cache).wf(),
        final(cache).limit_bytes() == mb * BYTES_PER_MB,
        (final(cache).entries(), final(cache).used_bytes()) == evict_for(
            old(cache).entries(),
            old(cache).protection(),
            old(cache).used_bytes(),
            0,
            mb * BYTES_PER_MB,
        ),
{
    cache.set_max_memory_mb(mb);
}

} // verus!
