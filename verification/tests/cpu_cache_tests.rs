use hinaview::cache::cpu_cache::CpuDecodeCache;
use hinaview::types::{DecodedImage, MipLevel};
use std::collections::HashMap;
use std::sync::Arc;

fn image(width: u32, height: u32) -> Arc<DecodedImage> {
    Arc::new(DecodedImage {
        width,
        height,
        original_width: width,
        original_height: height,
        pixels: vec![0u8; (width * height * 4) as usize],
        icc_profile: None,
        exif: None,
    })
}

#[test]
fn test_cpu_cache_basic() {
    let mut cache = CpuDecodeCache::new_with_memory_limit(10);
    let image = image(100, 100);
    cache.insert(0, MipLevel::Full, image.clone());
    assert!(cache.contains(0, MipLevel::Full));
    assert!(!cache.contains(0, MipLevel::Half));
    let retrieved = cache.get(0, MipLevel::Full);
    assert!(retrieved.is_some());
}

#[test]
fn test_cpu_cache_small_image_tracking() {
    let mut cache = CpuDecodeCache::new_with_memory_limit(10);
    cache.insert(1, MipLevel::Full, image(512, 256));
    assert_eq!(cache.current_bytes(), 512 * 256 * 4);
}

#[test]
fn test_cpu_cache_eviction_precision() {
    let mut cache = CpuDecodeCache::new_with_memory_limit(1);
    cache.insert(1, MipLevel::Full, image(768, 256));
    assert!(cache.contains(1, MipLevel::Full));
    cache.insert(2, MipLevel::Full, image(768, 256));
    assert!(!cache.contains(1, MipLevel::Full));
    assert!(cache.contains(2, MipLevel::Full));
}

#[test]
fn test_cpu_cache_priority_protection() {
    let mut cache = CpuDecodeCache::new_with_memory_limit(1);
    cache.insert(1, MipLevel::Full, image(768, 256));
    cache.insert(2, MipLevel::Full, image(768, 256));

    let mut cache = CpuDecodeCache::new_with_memory_limit(2);
    cache.insert(1, MipLevel::Full, image(512, 512));
    cache.insert(2, MipLevel::Full, image(512, 512));
    let mut protections = HashMap::new();
    protections.insert(1, 0);
    cache.set_protection(protections);
    cache.insert(3, MipLevel::Full, image(512, 512));
    assert!(cache.contains(1, MipLevel::Full));
    assert!(!cache.contains(2, MipLevel::Full));
    assert!(cache.contains(3, MipLevel::Full));
}

#[test]
fn test_cpu_cache_priority_among_protected() {
    let mut cache = CpuDecodeCache::new_with_memory_limit(2);
    cache.insert(1, MipLevel::Full, image(512, 512));
    cache.insert(2, MipLevel::Full, image(512, 512));
    let mut protections = HashMap::new();
    protections.insert(1, 0);
    protections.insert(2, 10);
    cache.set_protection(protections);
    cache.insert(3, MipLevel::Full, image(512, 512));
    assert!(cache.contains(1, MipLevel::Full));
    assert!(!cache.contains(2, MipLevel::Full));
    assert!(cache.contains(3, MipLevel::Full));
}

#[test]
fn cpu_cache_read_after_insert_returns_the_same_image() {
    let mut cache = CpuDecodeCache::new();
    let img = image(4, 4);
    cache.insert(7, MipLevel::Quarter, img.clone());
    let got = cache.peek(7, MipLevel::Quarter).unwrap();
    assert!(Arc::ptr_eq(&got, &img));
    assert!(cache.peek(7, MipLevel::Half).is_none());
    assert_eq!(cache.len(), 1);
    assert!(!cache.is_empty());
}

#[test]
fn cpu_cache_remove_uncounts_bytes() {
    let mut cache = CpuDecodeCache::new_with_memory_limit(10);
    cache.insert(1, MipLevel::Full, image(100, 100));
    cache.insert(2, MipLevel::Full, image(10, 10));
    assert_eq!(cache.current_bytes(), 40_000 + 400);
    assert!(cache.remove(1, MipLevel::Full).is_some());
    assert_eq!(cache.current_bytes(), 400);
    assert!(!cache.contains(1, MipLevel::Full));
    assert!(cache.remove(1, MipLevel::Full).is_none());
    cache.clear();
    assert_eq!(cache.current_bytes(), 0);
    assert!(cache.is_empty());
}

#[test]
fn cpu_cache_limit_changes_evict_least_recent() {
    let mut cache = CpuDecodeCache::new_with_memory_limit(4);
    assert_eq!(cache.max_memory_mb(), 4);
    cache.insert(1, MipLevel::Full, image(512, 512));
    cache.insert(2, MipLevel::Full, image(512, 512));
    cache.insert(3, MipLevel::Full, image(512, 512));
    assert_eq!(cache.memory_usage_mb(), 3);
    let _ = cache.get(1, MipLevel::Full);
    cache.set_max_memory_mb(2);
    assert_eq!(cache.max_memory_mb(), 2);
    assert!(cache.contains(1, MipLevel::Full));
    assert!(!cache.contains(2, MipLevel::Full));
    assert!(cache.contains(3, MipLevel::Full));
    assert_eq!(cache.memory_usage_mb(), 2);
}

#[test]
fn cpu_cache_oversized_image_is_still_stored_alone() {
    let mut cache = CpuDecodeCache::new_with_memory_limit(1);
    cache.insert(1, MipLevel::Full, image(100, 100));
    cache.insert(2, MipLevel::Full, image(1024, 1024));
    assert!(!cache.contains(1, MipLevel::Full));
    assert!(cache.contains(2, MipLevel::Full));
    assert_eq!(cache.len(), 1);
    let default_cache = CpuDecodeCache::default();
    assert_eq!(default_cache.max_memory_mb(), 256);
}

#[test]
fn cpu_cache_reinsert_counts_only_the_new_image() {
    let mut cache = CpuDecodeCache::new_with_memory_limit(2);
    cache.insert(1, MipLevel::Full, image(512, 512));
    cache.insert(1, MipLevel::Full, image(512, 256));
    assert_eq!(cache.len(), 1);
    assert_eq!(cache.current_bytes(), 512 * 256 * 4);
    // an image of exactly the limit fits, and the count stays within it
    cache.insert(2, MipLevel::Full, image(1024, 512));
    assert_eq!(cache.current_bytes(), 2 * 1024 * 1024);
    assert!(cache.contains(2, MipLevel::Full));
    assert!(!cache.contains(1, MipLevel::Full));
}
