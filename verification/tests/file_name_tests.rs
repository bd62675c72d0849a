use hinaview::file_names::{is_archive_name, is_supported_image_name, normalize_path};

#[test]
fn image_names_are_recognized_by_extension_in_any_case() {
    assert!(is_supported_image_name("page01.JPG"));
    assert!(is_supported_image_name("scan.jxl"));
    assert!(is_supported_image_name("dir/cover.WebP"));
    assert!(!is_supported_image_name("notes.txt"));
    assert!(!is_supported_image_name("README"));
    assert!(!is_supported_image_name(".png"));
}

#[test]
fn archive_names_are_zip_or_cbz() {
    assert!(is_archive_name("Vol 1.CBZ"));
    assert!(is_archive_name("/books/a.zip"));
    assert!(!is_archive_name("/books/a.rar"));
    assert!(!is_archive_name("/books/zip"));
}

#[test]
fn normalized_paths_use_forward_slashes_in_lower_case() {
    assert_eq!(normalize_path("C:\\Books\\Vol 1.ZIP"), "c:/books/vol 1.zip");
    assert_eq!(normalize_path("/Home/Reader/a.cbz"), "/home/reader/a.cbz");
    assert_eq!(normalize_path(""), "");
}
