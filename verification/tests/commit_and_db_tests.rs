use hinaview::bookmark::model::{BookmarkEntry, BookmarkSource};
use hinaview::database::{bookmark_from_row, bookmark_row_numbers, path_key, resume_page_from_row, source_from_text, source_text};
use hinaview::document::LogicalSpread;
use hinaview::navigation_commit::{commit_decision, furthest_ready_page, is_spread_ready, NavigationCommit};
use hinaview::types::LayoutMode;

fn dual() -> LayoutMode {
    LayoutMode::Dual { rtl: false, first_page_offset: false }
}

fn spreads() -> Vec<LogicalSpread> {
    vec![
        LogicalSpread { left: Some(0), right: Some(1) },
        LogicalSpread { left: Some(2), right: Some(3) },
        LogicalSpread { left: Some(4), right: None },
    ]
}

#[test]
fn dual_pages_wait_for_their_whole_spread() {
    let sp = spreads();
    assert!(is_spread_ready(dual(), Some(&sp), &[0, 1], 1));
    assert!(!is_spread_ready(dual(), Some(&sp), &[2], 2));
    assert!(is_spread_ready(dual(), Some(&sp), &[4], 4));
    assert!(!is_spread_ready(dual(), Some(&sp), &[], 9));
    assert!(is_spread_ready(LayoutMode::Single, Some(&sp), &[2], 2));
    assert!(is_spread_ready(dual(), None, &[2], 2));
}

#[test]
fn chasing_commits_the_furthest_ready_page_on_the_way() {
    let sp = spreads();
    assert_eq!(furthest_ready_page(0, 3, dual(), Some(&sp), &[0, 1, 2]), Some(1));
    assert_eq!(furthest_ready_page(1, 4, LayoutMode::Single, None, &[2, 5, 3]), Some(3));
    assert_eq!(furthest_ready_page(5, 1, LayoutMode::Single, None, &[4, 2, 0]), Some(2));
    assert_eq!(furthest_ready_page(5, 1, LayoutMode::Single, None, &[5, 0]), None);
    assert_eq!(
        commit_decision(Some(0), Some(3), LayoutMode::Single, None, &[3, 1]),
        Some(NavigationCommit { page: 3, reaches_pending: true })
    );
    assert_eq!(
        commit_decision(Some(0), Some(3), LayoutMode::Single, None, &[1]),
        Some(NavigationCommit { page: 1, reaches_pending: false })
    );
}

#[test]
fn exact_commit_when_nothing_on_the_way_is_ready() {
    assert_eq!(
        commit_decision(None, Some(2), LayoutMode::Single, None, &[2]),
        Some(NavigationCommit { page: 2, reaches_pending: true })
    );
    assert_eq!(
        commit_decision(Some(2), Some(2), LayoutMode::Single, None, &[2]),
        Some(NavigationCommit { page: 2, reaches_pending: true })
    );
    assert_eq!(commit_decision(Some(0), Some(3), LayoutMode::Single, None, &[]), None);
    assert_eq!(commit_decision(Some(0), None, LayoutMode::Single, None, &[0]), None);
}

#[test]
fn bookmark_rows_round_trip() {
    assert_eq!(source_text(BookmarkSource::Manual), "Manual");
    assert_eq!(source_text(BookmarkSource::AutoRecent), "AutoRecent");
    assert_eq!(source_from_text("Manual"), BookmarkSource::Manual);
    assert_eq!(source_from_text("AutoRecent"), BookmarkSource::AutoRecent);
    assert_eq!(source_from_text("manual"), BookmarkSource::AutoRecent);
    let e = bookmark_from_row(5, "Manual", "a.zip".into(), "1.png".into(), "/a.zip".into(), 3, "1.png".into(), 77);
    assert_eq!((e.id, e.source, e.page_index, e.saved_at_ms), (5, BookmarkSource::Manual, 3, 77));
    let e2 = BookmarkEntry { page_index: 9, saved_at_ms: 1 << 40, ..e };
    assert_eq!(bookmark_row_numbers(&e2), (9, 1 << 40));
    assert_eq!(resume_page_from_row(12), 12);
}

#[test]
fn path_keys_are_lower_hex_digests() {
    let k = path_key("/books/v1.zip");
    assert_eq!(k, path_key("/books/v1.zip"));
    assert!(!k.is_empty() && k.len() <= 16);
    assert!(k.chars().all(|c| c.is_ascii_hexdigit() && !c.is_ascii_uppercase()));
    assert!(k == "0" || !k.starts_with('0'));
    assert_ne!(k, path_key("/books/v2.zip"));
}
