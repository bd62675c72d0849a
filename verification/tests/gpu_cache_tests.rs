use hinaview::cache::gpu_cache::{EvictedGpuEntry, GpuTextureCache};
use hinaview::types::MipLevel;
use std::collections::HashMap;

fn texture_bytes(width: u32, height: u32) -> u64 {
    let pixels = (width as u64) * (height as u64);
    let raw_bytes = pixels * 4;
    let p_min = 512.0 * 512.0;
    let p_max = 4096.0 * 4096.0;
    let p = pixels as f32;
    let t = ((p - p_min) / (p_max - p_min)).max(0.0);
    let overhead_ratio = 0.10 + 0.90 * t * t;
    (raw_bytes as f32 * (1.0 + overhead_ratio)) as u64
}

fn gone(doc_id: u64, page_hash: u64) -> EvictedGpuEntry {
    EvictedGpuEntry { doc_id, page_hash, mip: MipLevel::Full }
}

#[test]
fn test_gpu_cache_priority_protection() {
    let mut cache = GpuTextureCache::new_with_memory_limit(3);
    cache.insert(1, 101, MipLevel::Full, texture_bytes(512, 512));
    cache.insert(1, 102, MipLevel::Full, texture_bytes(512, 512));
    let mut protections = HashMap::new();
    protections.insert(101, 0);
    cache.set_protection(protections);
    cache.insert(1, 103, MipLevel::Full, texture_bytes(512, 512));
    assert!(cache.get(1, 101, MipLevel::Full).is_some());
    assert!(cache.get(1, 102, MipLevel::Full).is_none());
    assert!(cache.get(1, 103, MipLevel::Full).is_some());
}

#[test]
fn gpu_cache_reports_replaced_and_evicted_textures_in_order() {
    let mut cache = GpuTextureCache::new_with_memory_limit(2);
    assert!(cache.insert(1, 1, MipLevel::Full, 600_000).is_empty());
    assert!(cache.insert(1, 2, MipLevel::Full, 600_000).is_empty());
    let r = cache.insert(1, 1, MipLevel::Full, 700_000);
    assert_eq!(r, vec![gone(1, 1)]);
    assert_eq!(cache.current_bytes(), 1_300_000);
    let r = cache.insert(2, 3, MipLevel::Full, 1_000_000);
    assert_eq!(r, vec![gone(1, 2)]);
    assert_eq!(cache.current_bytes(), 1_700_000);
    assert_eq!(cache.len(), 2);
}

#[test]
fn gpu_cache_clear_doc_takes_only_that_document() {
    let mut cache = GpuTextureCache::new_with_memory_limit(64);
    cache.insert(7, 1, MipLevel::Full, 1000);
    cache.insert(8, 2, MipLevel::Half, 2000);
    cache.insert(7, 3, MipLevel::Quarter, 3000);
    let r = cache.clear_doc(7);
    assert_eq!(
        r,
        vec![gone(7, 1), EvictedGpuEntry { doc_id: 7, page_hash: 3, mip: MipLevel::Quarter }]
    );
    assert_eq!(cache.len(), 1);
    assert_eq!(cache.current_bytes(), 2000);
    assert!(cache.clear_doc(7).is_empty());
    assert_eq!(cache.remove(8, 2, MipLevel::Half), Some(2000));
    assert!(cache.is_empty());
}

#[test]
fn gpu_cache_limits_come_from_the_vram() {
    assert_eq!(GpuTextureCache::new().max_memory_mb(), 512);
    assert_eq!(GpuTextureCache::new_from_vram(8192).max_memory_mb(), 2048);
    assert_eq!(GpuTextureCache::new_from_vram(100).max_memory_mb(), 64);
    let mut cache = GpuTextureCache::default();
    cache.insert(1, 1, MipLevel::Full, 5);
    cache.insert(1, 2, MipLevel::Eighth, 6);
    let all = cache.clear();
    assert_eq!(all, vec![EvictedGpuEntry { doc_id: 1, page_hash: 2, mip: MipLevel::Eighth }, gone(1, 1)]);
    assert_eq!(cache.current_bytes(), 0);
    cache.insert(1, 1, MipLevel::Full, 3 * 1048576);
    cache.insert(1, 2, MipLevel::Full, 3 * 1048576);
    cache.set_max_memory_mb(4);
    assert_eq!(cache.len(), 1);
    assert_eq!(cache.memory_usage_mb(), 3);
}
