//! Bookmark records.
use vstd::prelude::*;

verus! {

/// How a bookmark was made.
#[derive(Debug, Clone, Copy, PartialEq, Eq, Structural)]
pub enum BookmarkSource {
    /// Saved automatically when a document was left.
    AutoRecent,
    /// Saved by the reader.
    Manual,
}

/// A saved reading position.
#[derive(Debug, Clone)]
pub struct BookmarkEntry {
    pub id: u64,
    pub source: BookmarkSource,
    pub archive_name: String,
    pub file_name: String,
    /// Path of the document (archive, folder or image).
    pub path: String,
    pub page_index: usize,
    pub page_name: String,
    pub saved_at_ms: u64,
}

fn copy_string(s: &String) -> (r: String)
    ensures
        r == *s,
{
    s.clone()
}

impl BookmarkEntry {
    /// A copy of this record.
    pub fn duplicate(&self) -> (r: BookmarkEntry)
        ensures
            r == *self,
    {
        BookmarkEntry {
            id: self.id,
            source: self.source,
            archive_name: copy_string(&self.archive_name),
            file_name: copy_string(&self.file_name),
            path: copy_string(&self.path),
            page_index: self.page_index,
            page_name: copy_string(&self.page_name),
            saved_at_ms: self.saved_at_ms,
        }
    }
}

} // verus!
