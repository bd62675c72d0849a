use hinaview::bookmark::controller::{current_bookmark_entry, get_bookmark_for_opening, plan_bookmark_opening, resume_target, BookmarkOpening};
use hinaview::bookmark::model::{BookmarkEntry, BookmarkSource};
use hinaview::bookmark::service::{BookmarkError, BookmarkService, MAX_AUTO_RECENT, MAX_MANUAL};
use hinaview::document::PageMeta;

fn entry(path: &str, page: usize, at: u64) -> BookmarkEntry {
    BookmarkEntry {
        id: 0,
        source: BookmarkSource::Manual,
        archive_name: "a.zip".to_string(),
        file_name: format!("{page}.png"),
        path: path.to_string(),
        page_index: page,
        page_name: format!("{page}.png"),
        saved_at_ms: at,
    }
}

fn page(index: usize, name: &str) -> PageMeta {
    PageMeta {
        index,
        name: name.to_string(),
        format_label: "PNG".to_string(),
        file_size_bytes: None,
        width: 0,
        height: 0,
        metadata_probe_failed: false,
        is_wide: false,
        is_animated: false,
        icc_profile: None,
        exif_camera: None,
        exif_lens: None,
        exif_f_stop: None,
        exif_shutter: None,
        exif_iso: None,
        exif_datetime: None,
    }
}

#[test]
fn bookmarks_are_listed_newest_first_with_fresh_ids() {
    let mut service = BookmarkService::from_entries(Vec::new());
    service.add_manual(entry("/a.zip", 1, 100)).unwrap();
    service.add_manual(entry("/b.zip", 2, 300)).unwrap();
    service.add_auto_recent(entry("/c.zip", 3, 200));
    let e = service.entries();
    assert_eq!(e.len(), 3);
    assert_eq!(e[0].saved_at_ms, 300);
    assert_eq!(e[1].saved_at_ms, 200);
    assert_eq!(e[2].saved_at_ms, 100);
    assert_eq!(e[1].source, BookmarkSource::AutoRecent);
    assert_eq!(e[2].id, 1);
    assert_eq!(e[0].id, 2);
    assert_eq!(e[1].id, 3);
}

#[test]
fn same_place_replaces_the_older_bookmark() {
    let mut service = BookmarkService::from_entries(Vec::new());
    service.add_manual(entry("/a.zip", 4, 100)).unwrap();
    service.add_manual(entry("/a.zip", 4, 500)).unwrap();
    assert_eq!(service.entries().len(), 1);
    assert_eq!(service.entries()[0].saved_at_ms, 500);
    service.add_manual(entry("/a.zip", 5, 600)).unwrap();
    assert_eq!(service.entries().len(), 2);
}

#[test]
fn manual_limit_is_refused_and_auto_limit_drops_the_oldest() {
    let mut service = BookmarkService::from_entries(Vec::new());
    for i in 0..MAX_MANUAL {
        service.add_manual(entry("/m.zip", i, 1000 + i as u64)).unwrap();
    }
    assert_eq!(
        service.add_manual(entry("/m.zip", 99, 5000)),
        Err(BookmarkError::ManualLimitExceeded)
    );
    assert_eq!(service.entries().len(), MAX_MANUAL);
    for i in 0..(MAX_AUTO_RECENT + 2) {
        service.add_auto_recent(entry("/r.zip", i, 10 + i as u64));
    }
    let autos: Vec<&BookmarkEntry> =
        service.entries().iter().filter(|e| e.source == BookmarkSource::AutoRecent).collect();
    assert_eq!(autos.len(), MAX_AUTO_RECENT);
    assert!(autos.iter().all(|e| e.saved_at_ms >= 12));
    assert_eq!(service.entries().len(), 20);
}

#[test]
fn removed_bookmark_is_not_found() {
    let mut service = BookmarkService::from_entries(Vec::new());
    service.add_manual(entry("/a.zip", 1, 100)).unwrap();
    service.add_manual(entry("/b.zip", 2, 200)).unwrap();
    assert!(service.find(1).is_some());
    let copy = get_bookmark_for_opening(&service, 2).unwrap();
    assert_eq!(copy.path, "/b.zip");
    service.remove(1);
    assert!(service.find(1).is_none());
    assert!(get_bookmark_for_opening(&service, 1).is_none());
    assert_eq!(service.entries().len(), 1);
}

#[test]
fn loaded_bookmarks_are_sorted_and_ids_continue() {
    let mut a = entry("/a.zip", 1, 100);
    a.id = 7;
    let mut b = entry("/b.zip", 1, 900);
    b.id = 3;
    let mut service = BookmarkService::from_entries(vec![a, b]);
    assert_eq!(service.entries()[0].id, 3);
    assert_eq!(service.entries()[1].id, 7);
    service.add_auto_recent(entry("/c.zip", 1, 50));
    assert_eq!(service.entries()[2].id, 8);
}

#[test]
fn current_page_makes_a_bookmark_entry() {
    let pages = vec![page(0, "001.jpg"), page(1, "002.jpg")];
    let e = current_bookmark_entry(
        Some(("/books/vol1.zip", pages.as_slice())),
        Some(1),
        BookmarkSource::Manual,
        1234,
    )
    .unwrap();
    assert_eq!(e.archive_name, "vol1.zip");
    assert_eq!(e.file_name, "002.jpg");
    assert_eq!(e.page_name, "002.jpg");
    assert_eq!(e.page_index, 1);
    assert_eq!(e.saved_at_ms, 1234);
    assert!(current_bookmark_entry(Some(("/x.zip", pages.as_slice())), Some(2), BookmarkSource::Manual, 1).is_none());
    assert!(current_bookmark_entry(None, Some(0), BookmarkSource::Manual, 1).is_none());
    assert!(current_bookmark_entry(Some(("/x.zip", pages.as_slice())), None, BookmarkSource::Manual, 1).is_none());
}

#[test]
fn opening_a_bookmark_steps_within_the_open_document() {
    let e = entry("/a.zip", 7, 1);
    assert_eq!(plan_bookmark_opening(Some("/a.zip"), Some(3), &e), BookmarkOpening::Step(4));
    assert_eq!(plan_bookmark_opening(Some("/a.zip"), Some(9), &e), BookmarkOpening::Step(-2));
    assert_eq!(plan_bookmark_opening(Some("/a.zip"), Some(7), &e), BookmarkOpening::Stay);
    assert_eq!(plan_bookmark_opening(Some("/a.zip/"), None, &e), BookmarkOpening::Stay);
    assert_eq!(
        plan_bookmark_opening(Some("/b.zip"), Some(7), &e),
        BookmarkOpening::Open { path: "/a.zip".to_string(), page: 7 }
    );
    assert_eq!(plan_bookmark_opening(None, None, &e), BookmarkOpening::Open { path: "/a.zip".to_string(), page: 7 });
}

#[test]
fn remembered_positions_are_restored_when_they_fit() {
    assert_eq!(resume_target(Some(4), 10, Some(0)), Some(4));
    assert_eq!(resume_target(Some(4), 10, Some(4)), None);
    assert_eq!(resume_target(Some(10), 10, None), None);
    assert_eq!(resume_target(None, 10, None), None);
}

#[test]
fn bookmark_distances_that_overflow_are_reported() {
    let far = entry("/a.zip", usize::MAX >> 1, 1);
    assert_eq!(hinaview::bookmark::controller::checked_bookmark_opening(Some("/a.zip"), Some(0), &entry("/a.zip", 5, 1)), Some(BookmarkOpening::Step(5)));
    assert!(hinaview::bookmark::controller::checked_bookmark_opening(Some("/b.zip"), Some(0), &far).is_some());
}

#[test]
fn default_service_is_empty_and_issues_id_zero_first() {
    let mut service = BookmarkService::default();
    assert!(service.entries().is_empty());
    assert_eq!(service.next_id(), 0);
    assert!(service.add_manual(entry("/books/a.zip", 3, 10)).is_ok());
    assert_eq!(service.entries()[0].id, 0);
    assert_eq!(service.next_id(), 1);
}
