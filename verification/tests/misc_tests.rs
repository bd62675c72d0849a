use hinaview::cache::gpu_uploader::cache_key;
use hinaview::cache::prefetch::{compute_sliding_window_priorities, PrefetchDirection};
use hinaview::cache::protection::cache_protections;
use hinaview::document::opening::build_pages_with_initial_metadata;
use hinaview::cache::cpu_cache::CpuDecodeCache;
use hinaview::cache::gpu_cache::{EvictedGpuEntry, GpuCacheKey};
use hinaview::cache::settings_adapter::apply_cpu_cache_limit;
use hinaview::cache::texture_index::{has_optimal_mip, map_to_page};
use hinaview::color_management::display_profile::detect_display_profile;
use hinaview::input::RuntimeCommand;
use hinaview::types::MipLevel;
use std::collections::HashMap;
use std::sync::Arc;

#[test]
fn textures_of_other_documents_are_not_indexed() {
    let mut index: HashMap<usize, Arc<u32>> = HashMap::new();
    map_to_page(&mut index, 7, 7, 3, Arc::new(30));
    map_to_page(&mut index, 7, 8, 4, Arc::new(40));
    assert_eq!(index.len(), 1);
    assert_eq!(*index[&3], 30);
    map_to_page(&mut index, 7, 7, 3, Arc::new(31));
    assert_eq!(*index[&3], 31);
}

#[test]
fn gpu_keys_compare_by_all_fields() {
    let a = GpuCacheKey { doc_id: 1, page_hash: 2, mip: MipLevel::Full };
    let b = GpuCacheKey { doc_id: 1, page_hash: 2, mip: MipLevel::Half };
    assert_ne!(a, b);
    assert_eq!(a, GpuCacheKey { doc_id: 1, page_hash: 2, mip: MipLevel::Full });
    let e = EvictedGpuEntry { doc_id: a.doc_id, page_hash: a.page_hash, mip: a.mip };
    assert_eq!(e.mip, MipLevel::Full);
    assert_eq!(MipLevel::Eighth.code(), 3);
}

#[test]
fn cpu_cache_limit_setting_is_applied() {
    let mut cache = CpuDecodeCache::new();
    apply_cpu_cache_limit(&mut cache, 64);
    assert_eq!(cache.max_memory_mb(), 64);
}

#[test]
fn no_display_profile_is_reported_here() {
    assert!(detect_display_profile().is_none());
    assert_ne!(RuntimeCommand::ToggleFullscreen, RuntimeCommand::ToggleUiWindows);
}

#[test]
fn window_pages_are_protected_at_every_level() {
    let names: Vec<String> = (0..6).map(|i| format!("{i}.png")).collect();
    let (pages, _) = build_pages_with_initial_metadata(names, None).unwrap();
    let window = compute_sliding_window_priorities(2, PrefetchDirection::Next, 2, pages.len());
    let map = cache_protections(9, &window, &pages);
    assert_eq!(map.len(), window.len() * 4);
    for w in &window {
        for mip in [MipLevel::Full, MipLevel::Half, MipLevel::Quarter, MipLevel::Eighth] {
            assert_eq!(map.get(&cache_key(9, &pages[w.page_id].name, mip)), Some(&w.priority));
        }
    }
    let outside = vec![hinaview::cache::prefetch::SlidingWindowPriority { page_id: 99, priority: 0 }];
    assert!(cache_protections(9, &outside, &pages).is_empty());
}

#[test]
fn textures_serve_requests_at_their_level() {
    assert!(has_optimal_mip(Some(MipLevel::Half), MipLevel::Half, false));
    assert!(!has_optimal_mip(Some(MipLevel::Half), MipLevel::Full, false));
    assert!(has_optimal_mip(Some(MipLevel::Full), MipLevel::Quarter, true));
    assert!(!has_optimal_mip(None, MipLevel::Full, true));
}
