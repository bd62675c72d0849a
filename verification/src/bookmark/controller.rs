//! Making bookmarks from the reading position, and looking them up.
use super::model::{BookmarkEntry, BookmarkSource};
use super::service::BookmarkService;
use crate::document::PageMeta;
use crate::paths::{file_name_of, path_equal, path_file_name, paths_equal};
use vstd::prelude::*;

verus! {

/// The name under which a document is listed: its file name, or "-".
pub open spec fn archive_label(path: Seq<char>) -> Seq<char> {
    match path_file_name(path) {
        Some(n) => n,
        None => "-"@,
    }
}

/// The bookmark of the page being read, saved at `now_ms`, or `None` when no document
/// is open, no page is current, or the current page is past the last page.
///
/// `document` is the path of the open document and its pages.
pub fn current_bookmark_entry(
    document: Option<(&str, &[PageMeta])>,
    current_page: Option<usize>,
    source: BookmarkSource,
    now_ms: u64,
) -> (r: Option<BookmarkEntry>)
    ensures
        match (document, current_page) {
            (Some((path, pages)), Some(page_index)) => if page_index < pages@.len() {
                r matches Some(e) && e.id == 0 && e.source == source && e.archive_name@
                    == archive_label(path@) && e.file_name@ == pages@[page_index as int].name@
                    && e.path@ == path@ && e.page_index == page_index && e.page_name@
                    == pages@[page_index as int].name@ && e.saved_at_ms == now_ms
            } else {
                r is None
            },
            _ => r is None,
        },
{
    let (path, pages) = match document {
        Some(d) => d,
        None => return None,
    };
    let page_index = match current_page {
        Some(p) => p,
        None => return None,
    };
    if page_index >= pages.len() {
        return None;
    }
    let page = &pages[page_index];
    let archive_name = match file_name_of(path) {
        Some(n) => n,
        None => {
            proof {
                reveal_strlit("-");
            }
            "-".to_string()
        },
    };
    Some(
        BookmarkEntry {
            id: 0,
            source,
            archive_name,
            file_name: page.name.clone(),
            path: path.to_string(),
            page_index,
            page_name: page.name.clone(),
            saved_at_ms: now_ms,
        },
    )
}

/// A copy of the bookmark with the given id, for opening it.
pub fn get_bookmark_for_opening(service: &BookmarkService, id: u64) -> (r: Option<BookmarkEntry>)
    ensures
        match r {
            Some(e) => exists|i: int|
                0 <= i < service@.len() && service@[i] == e && e.id == id && forall|j: int|
                    0 <= j < i ==> (#[trigger] service@[j]).id != id,
            None => forall|i: int| 0 <= i < service@.len() ==> (#[trigger] service@[i]).id != id,
        },
{
    match service.find(id) {
        Some(e) => Some(e.duplicate()),
        None => None,
    }
}

/// What opening a bookmark does.
#[derive(Debug, Clone, PartialEq, Eq)]
pub enum BookmarkOpening {
    /// The bookmark is in the open document, on the current page (or no page is current).
    Stay,
    /// The bookmark is in the open document, this many pages away.
    Step(i32),
    /// Another document is opened at the bookmarked page.
    Open { path: String, page: usize },
}

/// What opening `entry` does, given the path of the open document and its current page.
pub fn plan_bookmark_opening(
    open_path: Option<&str>,
    current_page: Option<usize>,
    entry: &BookmarkEntry,
) -> (r: BookmarkOpening)
    requires
        match (open_path, current_page) {
            (Some(p), Some(c)) => path_equal(p@, entry.path@) ==> i32::MIN <= (entry.page_index as i32)
                - (c as i32) <= i32::MAX,
            _ => true,
        },
    ensures
        match open_path {
            Some(p) => if path_equal(p@, entry.path@) {
                match current_page {
                    Some(c) => {
                        let delta = (entry.page_index as i32) - (c as i32);
                        if delta == 0 {
                            r == BookmarkOpening::Stay
                        } else {
                            r == BookmarkOpening::Step(delta as i32)
                        }
                    },
                    None => r == BookmarkOpening::Stay,
                }
            } else {
                r matches BookmarkOpening::Open { path, page } && path@ == entry.path@ && page
                    == entry.page_index
            },
            None => r matches BookmarkOpening::Open { path, page } && path@ == entry.path@ && page
                == entry.page_index,
        },
{
    match open_path {
        Some(p) => {
            if paths_equal(p, entry.path.as_str()) {
                return match current_page {
                    Some(c) => {
                        let delta = (entry.page_index as i32) - (c as i32);
                        if delta == 0 {
                            BookmarkOpening::Stay
                        } else {
                            BookmarkOpening::Step(delta)
                        }
                    },
                    None => BookmarkOpening::Stay,
                };
            }
        },
        None => {},
    }
    BookmarkOpening::Open { path: entry.path.clone(), page: entry.page_index }
}

/// What opening `entry` does, or None where the page distance within the open document,
/// taken as `i32` page numbers, falls outside the range of `i32`.
pub fn checked_bookmark_opening(
    open_path: Option<&str>,
    current_page: Option<usize>,
    entry: &BookmarkEntry,
) -> (r: Option<BookmarkOpening>)
    ensures
        match (open_path, current_page) {
            (Some(p), Some(c)) => if path_equal(p@, entry.path@) && !(i32::MIN <= (entry.page_index as i32)
                - (c as i32) <= i32::MAX) {
                r is None
            } else {
                r is Some
            },
            _ => r is Some,
        },
        r matches Some(o) ==> match open_path {
            Some(p) => if path_equal(p@, entry.path@) {
                match current_page {
                    Some(c) => {
                        let delta = (entry.page_index as i32) - (c as i32);
                        if delta == 0 {
                            o == BookmarkOpening::Stay
                        } else {
                            o == BookmarkOpening::Step(delta as i32)
                        }
                    },
                    None => o == BookmarkOpening::Stay,
                }
            } else {
                o matches BookmarkOpening::Open { path, page } && path@ == entry.path@ && page
                    == entry.page_index
            },
            None => o matches BookmarkOpening::Open { path, page } && path@ == entry.path@ && page
                == entry.page_index,
        },
{
    match (open_path, current_page) {
        (Some(p), Some(c)) => {
            if paths_equal(p, entry.path.as_str()) {
                let t = entry.page_index as i32;
                let u = c as i32;
                if (u > 0 && t < i32::MIN + u) || (u < 0 && t > i32::MAX + u) {
                    return None;
                }
            }
        },
        _ => {},
    }
    Some(plan_bookmark_opening(open_path, current_page, entry))
}

/// The remembered page to return to, where one was saved: unless it is past the last
/// page or already the current one.
pub fn resume_target(saved: Option<usize>, page_count: usize, current_page: Option<usize>) -> (r: Option<usize>)
    ensures
        r == match saved {
            Some(p) => if p >= page_count || current_page == Some(p) {
                None
            } else {
                Some(p)
            },
            None => None::<usize>,
        },
{
    match saved {
        Some(p) => {
            if p >= page_count || current_page == Some(p) {
                None
            } else {
                Some(p)
            }
        },
        None => None,
    }
}

} // verus!
