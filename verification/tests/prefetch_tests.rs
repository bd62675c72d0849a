use hinaview::cache::prefetch::{
    compute_prefetch_pages, compute_sliding_window_priorities, PrefetchDirection,
    SlidingWindowPriority, DEFAULT_PREFETCH_COUNT,
};

#[test]
fn test_prefetch_next() {
    let result = compute_prefetch_pages(5, PrefetchDirection::Next, DEFAULT_PREFETCH_COUNT, 10);
    assert_eq!(result, vec![6, 7, 8]);
}

#[test]
fn test_prefetch_previous() {
    let result = compute_prefetch_pages(5, PrefetchDirection::Previous, DEFAULT_PREFETCH_COUNT, 10);
    assert_eq!(result, vec![4, 3, 2]);
}

#[test]
fn test_prefetch_boundary_end() {
    let result = compute_prefetch_pages(8, PrefetchDirection::Next, DEFAULT_PREFETCH_COUNT, 10);
    assert_eq!(result, vec![9]);
}

#[test]
fn test_prefetch_boundary_start() {
    let result = compute_prefetch_pages(0, PrefetchDirection::Previous, DEFAULT_PREFETCH_COUNT, 10);
    assert!(result.is_empty());
}

#[test]
fn test_prefetch_custom_count() {
    let result = compute_prefetch_pages(5, PrefetchDirection::Next, 5, 20);
    assert_eq!(result, vec![6, 7, 8, 9, 10]);
}

#[test]
fn test_prefetch_empty_document() {
    let result = compute_prefetch_pages(0, PrefetchDirection::Next, DEFAULT_PREFETCH_COUNT, 0);
    assert!(result.is_empty());
}

#[test]
fn test_sliding_window_priorities() {
    let result = compute_sliding_window_priorities(5, PrefetchDirection::Next, 3, 20);
    assert_eq!(result.len(), 7);
    assert_eq!(result[0], SlidingWindowPriority { page_id: 5, priority: 0 });
    assert_eq!(result[1], SlidingWindowPriority { page_id: 6, priority: 1 });
    assert_eq!(result[2], SlidingWindowPriority { page_id: 7, priority: 2 });
    assert_eq!(result[3], SlidingWindowPriority { page_id: 8, priority: 3 });
    assert_eq!(result[4], SlidingWindowPriority { page_id: 4, priority: 4 });
    assert_eq!(result[5], SlidingWindowPriority { page_id: 3, priority: 5 });
    assert_eq!(result[6], SlidingWindowPriority { page_id: 2, priority: 6 });
}

#[test]
fn test_sliding_window_priorities_previous() {
    let result = compute_sliding_window_priorities(5, PrefetchDirection::Previous, 3, 20);
    assert_eq!(result.len(), 7);
    assert_eq!(result[0], SlidingWindowPriority { page_id: 5, priority: 0 });
    assert_eq!(result[1], SlidingWindowPriority { page_id: 4, priority: 1 });
    assert_eq!(result[2], SlidingWindowPriority { page_id: 3, priority: 2 });
    assert_eq!(result[3], SlidingWindowPriority { page_id: 2, priority: 3 });
    assert_eq!(result[4], SlidingWindowPriority { page_id: 6, priority: 4 });
    assert_eq!(result[5], SlidingWindowPriority { page_id: 7, priority: 5 });
    assert_eq!(result[6], SlidingWindowPriority { page_id: 8, priority: 6 });
}

#[test]
fn sliding_window_at_document_end_keeps_only_existing_pages() {
    let result = compute_sliding_window_priorities(9, PrefetchDirection::Next, 3, 10);
    assert_eq!(
        result,
        vec![
            SlidingWindowPriority { page_id: 9, priority: 0 },
            SlidingWindowPriority { page_id: 8, priority: 4 },
            SlidingWindowPriority { page_id: 7, priority: 5 },
            SlidingWindowPriority { page_id: 6, priority: 6 },
        ]
    );
}

#[test]
fn sliding_window_of_empty_document_is_empty() {
    assert!(compute_sliding_window_priorities(0, PrefetchDirection::Next, 3, 0).is_empty());
}
