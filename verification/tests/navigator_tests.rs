use hinaview::i18n::localizer::{LangFile, Localizer};
use hinaview::i18n::navigation_messages::neighbor_warnings;
use hinaview::document::archive_navigator::{ArchiveNavigator, ArchiveSortingMode, NavigationResult};

fn listing(names: &[&str]) -> Vec<(String, String)> {
    names.iter().map(|n| (n.to_lowercase(), n.to_string())).collect()
}

fn navigate(nav: &ArchiveNavigator, current: &str, step: i32, valid: &[&str]) -> Option<NavigationResult> {
    let mut search = nav.find_neighbor(current, step)?;
    while let Some(candidate) = search.next_candidate() {
        let ok = valid.iter().any(|v| *v == candidate);
        if let Some(found) = search.resolve(ok) {
            return Some(found);
        }
    }
    None
}

#[test]
fn next_and_previous_neighbours() {
    let mut nav = ArchiveNavigator::new();
    assert!(nav.needs_listing("/lib", ArchiveSortingMode::Mixed));
    nav.store_listing("/lib".to_string(), listing(&["/lib/a.zip", "/lib/b.zip", "/lib/c.zip"]), ArchiveSortingMode::Mixed);
    assert!(!nav.needs_listing("/lib", ArchiveSortingMode::Mixed));
    assert!(nav.needs_listing("/lib", ArchiveSortingMode::FoldersFirst));
    assert!(nav.needs_listing("/other", ArchiveSortingMode::Mixed));
    let all = ["/lib/a.zip", "/lib/b.zip", "/lib/c.zip"];
    let next = navigate(&nav, "/lib/b.zip", 1, &all).unwrap();
    assert_eq!(next.path, "/lib/c.zip");
    assert!(!next.looped);
    let prev = navigate(&nav, "/lib/b.zip", -1, &all).unwrap();
    assert_eq!(prev.path, "/lib/a.zip");
    assert!(!prev.looped);
}

#[test]
fn wrapping_around_is_reported() {
    let mut nav = ArchiveNavigator::new();
    nav.store_listing("/lib".to_string(), listing(&["/lib/a.zip", "/lib/b.zip", "/lib/c.zip"]), ArchiveSortingMode::Mixed);
    let all = ["/lib/a.zip", "/lib/b.zip", "/lib/c.zip"];
    let next = navigate(&nav, "/lib/c.zip", 1, &all).unwrap();
    assert_eq!(next.path, "/lib/a.zip");
    assert!(next.looped);
    let prev = navigate(&nav, "/lib/a.zip", -1, &all).unwrap();
    assert_eq!(prev.path, "/lib/c.zip");
    assert!(prev.looped);
}

#[test]
fn unopenable_entries_are_skipped_by_name() {
    let mut nav = ArchiveNavigator::new();
    nav.store_listing(
        "/lib".to_string(),
        listing(&["/lib/a.zip", "/lib/Empty", "/lib/Other", "/lib/d.zip"]),
        ArchiveSortingMode::FoldersFirst,
    );
    let found = navigate(&nav, "/lib/a.zip", 1, &["/lib/a.zip", "/lib/d.zip"]).unwrap();
    assert_eq!(found.path, "/lib/d.zip");
    assert_eq!(found.skipped_folders, vec!["Empty".to_string(), "Other".to_string()]);
    assert!(navigate(&nav, "/lib/a.zip", 1, &[]).is_none());
    assert!(navigate(&nav, "/lib/missing.zip", 1, &["/lib/d.zip"]).is_none());
    let itself = navigate(&nav, "/lib/a.zip", 1, &["/lib/a.zip"]).unwrap();
    assert_eq!(itself.path, "/lib/a.zip");
    assert!(!itself.looped);
    nav.invalidate_cache();
    assert!(nav.find_neighbor("/lib/a.zip", 1).is_none());
}

#[test]
fn neighbour_warnings_name_skipped_folders_then_the_wrap() {
    let localizer = Localizer::new(LangFile::Missing, LangFile::Missing, Vec::new());
    let result = NavigationResult {
        path: "/lib/a.zip".to_string(),
        looped: true,
        skipped_folders: vec!["Empty".to_string()],
    };
    assert_eq!(
        neighbor_warnings(&localizer, &result, 1),
        vec!["Skipped empty folder \"Empty\"".to_string(), "Returned to the first item".to_string()]
    );
    assert_eq!(neighbor_warnings(&localizer, &result, -1)[1], "Moved to the last item");
    let plain = NavigationResult { path: "/lib/b.zip".to_string(), looped: false, skipped_folders: Vec::new() };
    assert!(neighbor_warnings(&localizer, &plain, 1).is_empty());
}

#[test]
fn search_outcome_is_the_first_openable_entry_with_the_names_passed_over() {
    let mut nav = ArchiveNavigator::new();
    nav.store_listing(
        "/books".to_string(),
        listing(&["/books/a.zip", "/books/b", "/books/c", "/books/d.zip"]),
        ArchiveSortingMode::Mixed,
    );
    let found = navigate(&nav, "/books/c", 1, &["/books/b"]).unwrap();
    assert_eq!(found.path, "/books/b");
    assert!(found.looped);
    assert_eq!(found.skipped_folders, vec!["d.zip".to_string(), "a.zip".to_string()]);
    assert!(navigate(&nav, "/books/c", -1, &[]).is_none());
    assert!(navigate(&nav, "/books/x", 1, &["/books/b"]).is_none());
}
