//! The title of the main window.
use crate::document::PageMeta;
use crate::paths::{join_paths, path_join};
use crate::text::{decimal, decimal_string, push_text, replace_all, replace_placeholder};
use vstd::prelude::*;

verus! {

broadcast use vstd::string::group_string_axioms;

/// The title: "HinaView" alone with no document; else "HinaView - " with the path of the
/// current page (the document path joined with the page name, `\` written as `/`) and the
/// page's number out of the total in brackets. With no current page, the first counts.
pub open spec fn title_text(document: Option<(Seq<char>, Seq<PageMeta>)>, current: Option<usize>) -> Seq<char> {
    match document {
        None => "HinaView"@,
        Some((path, pages)) => {
            let cur = match current {
                Some(c) => c as nat,
                None => 0,
            };
            let full = if cur < pages.len() {
                path_join(path, pages[cur as int].name@)
            } else {
                path
            };
            "HinaView - "@ + replace_all(full, "\\"@, "/"@) + " ["@ + decimal(cur + 1) + "/"@
                + decimal(pages.len()) + "]"@
        },
    }
}

/// The view of an optional document.
pub open spec fn document_view(document: Option<(&str, &[PageMeta])>) -> Option<(Seq<char>, Seq<PageMeta>)> {
    match document {
        Some((p, pages)) => Some((p@, pages@)),
        None => None,
    }
}

/// The window title for the open document, if any, at the current page.
pub fn compute_window_title(document: Option<(&str, &[PageMeta])>, current: Option<usize>) -> (r: String)
    requires
        current matches Some(c) ==> c < usize::MAX,
    ensures
        r@ == title_text(document_view(document), current),
{
    proof {
        reveal_strlit("\\");
    }
    match document {
        None => "HinaView".to_string(),
        Some((path, pages)) => {
            let cur: usize = match current {
                Some(c) => c,
                None => 0,
            };
            let full = if cur < pages.len() {
                join_paths(path, pages[cur].name.as_str())
            } else {
                path.to_string()
            };
            let shown = replace_placeholder(full.as_str(), "\\", "/");
            let mut title = "HinaView - ".to_string();
            push_text(&mut title, shown.as_str());
            push_text(&mut title, " [");
            let number = decimal_string(cur + 1);
            push_text(&mut title, number.as_str());
            push_text(&mut title, "/");
            let total = decimal_string(pages.len());
            push_text(&mut title, total.as_str());
            push_text(&mut title, "]");
            title
        },
    }
}

} // verus!
