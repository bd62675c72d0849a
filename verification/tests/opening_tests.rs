use hinaview::document::metadata_scan::{apply_metadata_scan, needs_metadata_probe, MetadataScan};
use hinaview::cache::gpu_uploader::cache_key;
use hinaview::document::format_probe::{FileFormat, ImageFormat, ImageMetadata};
use hinaview::document::opening::{
    apply_initial_metadata, assemble_document, build_initial_spreads,
    build_pages_with_initial_metadata, create_reader, generate_doc_id, resolve_open_target,
    OpenError, ReaderKind,
};
use hinaview::types::{LayoutMode, MipLevel};

fn names(list: &[&str]) -> Vec<String> {
    list.iter().map(|s| s.to_string()).collect()
}

#[test]
fn folders_and_archives_open_as_they_are() {
    assert_eq!(resolve_open_target("/books".to_string(), true, false), ("/books".to_string(), None));
    assert_eq!(
        resolve_open_target("/books/v1.CBZ".to_string(), false, false),
        ("/books/v1.CBZ".to_string(), None)
    );
    assert_eq!(
        resolve_open_target("/books/v1.zip".to_string(), false, true),
        ("/books/v1.zip".to_string(), None)
    );
}

#[test]
fn an_image_opens_its_folder_at_that_image() {
    assert_eq!(
        resolve_open_target("/pics/cat.png".to_string(), false, true),
        ("/pics".to_string(), Some("cat.png".to_string()))
    );
    assert_eq!(
        resolve_open_target("/pics/notes.txt".to_string(), false, false),
        ("/pics/notes.txt".to_string(), None)
    );
    assert_eq!(resolve_open_target("/pics/README".to_string(), false, true), ("/pics/README".to_string(), None));
}

#[test]
fn readers_follow_the_probed_format() {
    assert_eq!(create_reader(FileFormat::Folder), Ok(ReaderKind::Folder));
    assert_eq!(create_reader(FileFormat::Zip), Ok(ReaderKind::Zip));
    assert_eq!(create_reader(FileFormat::Image), Ok(ReaderKind::SingleImage));
    assert_eq!(create_reader(FileFormat::Unknown), Err(OpenError::UnsupportedFormat));
}

#[test]
fn pages_are_listed_with_labels_and_initial_index() {
    let (pages, idx) =
        build_pages_with_initial_metadata(names(&["a.jpg", "b.Png", "c"]), Some("b.Png")).unwrap();
    assert_eq!(idx, 1);
    assert_eq!(pages.len(), 3);
    assert_eq!(pages[0].format_label, "JPG");
    assert_eq!(pages[1].format_label, "PNG");
    assert_eq!(pages[2].format_label, "Unknown");
    assert_eq!(pages[2].index, 2);
    assert_eq!(pages[1].name, "b.Png");
    assert_eq!(pages[0].width, 0);
    let (_, idx) = build_pages_with_initial_metadata(names(&["a.jpg", "a.jpg"]), Some("a.jpg")).unwrap();
    assert_eq!(idx, 0);
    let (_, idx) = build_pages_with_initial_metadata(names(&["a.jpg"]), Some("zzz.jpg")).unwrap();
    assert_eq!(idx, 0);
    assert_eq!(build_pages_with_initial_metadata(Vec::new(), None).unwrap_err(), OpenError::NoImages);
}

#[test]
fn initial_metadata_prefers_the_header_then_the_deep_header() {
    let (mut pages, idx) = build_pages_with_initial_metadata(names(&["a.jpg", "b.jpg"]), Some("b.jpg")).unwrap();
    let wide = ImageMetadata { width: 300, height: 200, format: ImageFormat::Jpeg, is_animated: false };
    let tall = ImageMetadata { width: 100, height: 200, format: ImageFormat::Gif, is_animated: true };
    apply_initial_metadata(&mut pages, idx, None, Some(wide));
    assert_eq!((pages[1].width, pages[1].height, pages[1].is_wide), (300, 200, true));
    apply_initial_metadata(&mut pages, idx, Some(tall), Some(wide));
    assert_eq!((pages[1].width, pages[1].height, pages[1].is_wide, pages[1].is_animated), (100, 200, false, true));
    apply_initial_metadata(&mut pages, idx, None, None);
    assert_eq!(pages[1].width, 100);
    assert_eq!(pages[0].width, 0);
}

#[test]
fn a_document_starts_with_one_page_per_spread() {
    let (pages, _) = build_pages_with_initial_metadata(names(&["1.png", "2.png"]), None).unwrap();
    let spreads = build_initial_spreads(&pages);
    assert_eq!(spreads.len(), 2);
    assert_eq!(spreads[1].left, Some(1));
    let id = generate_doc_id("/books/v1.zip");
    assert_eq!(id, generate_doc_id("/books/v1.zip"));
    let mut doc = assemble_document(id, "/books/v1.zip".to_string(), pages, ());
    assert_eq!(doc.id, id);
    assert_eq!(doc.spreads.len(), 2);
    doc.rebuild_spreads(LayoutMode::Dual { rtl: false, first_page_offset: false });
    assert_eq!(doc.spreads.len(), 1);
    assert_eq!(doc.spreads[0].right, Some(1));
}

#[test]
fn cache_keys_separate_documents_pages_and_levels() {
    let a = cache_key(1, "p.png", MipLevel::Full);
    assert_eq!(a, cache_key(1, "p.png", MipLevel::Full));
    assert_ne!(a, cache_key(1, "p.png", MipLevel::Half));
    assert_ne!(a, cache_key(2, "p.png", MipLevel::Full));
    assert_ne!(a, cache_key(1, "q.png", MipLevel::Full));
}

#[test]
fn metadata_scans_record_sizes_or_failures() {
    let (mut pages, _) = build_pages_with_initial_metadata(names(&["a.gif", "b.png"]), None).unwrap();
    assert!(needs_metadata_probe(&pages[0]));
    let mut scan = MetadataScan::new();
    assert!(!scan.found());
    scan.offer(None);
    scan.offer(Some(ImageMetadata { width: 40, height: 20, format: ImageFormat::Gif, is_animated: true }));
    assert!(scan.found());
    assert!(apply_metadata_scan(&mut pages, 0, scan));
    assert_eq!((pages[0].width, pages[0].height, pages[0].is_wide, pages[0].is_animated), (40, 20, true, true));
    assert!(!needs_metadata_probe(&pages[0]));
    let mut failed = MetadataScan::new();
    failed.offer_decoded(None);
    assert!(!apply_metadata_scan(&mut pages, 1, failed));
    assert!(pages[1].metadata_probe_failed);
    assert!(needs_metadata_probe(&pages[1]));
    let mut decoded = MetadataScan::new();
    decoded.offer_decoded(Some((10, 30)));
    assert!(apply_metadata_scan(&mut pages, 1, decoded));
    assert!(!pages[1].metadata_probe_failed && !pages[1].is_wide);
    assert!(!apply_metadata_scan(&mut pages, 5, decoded));
}
