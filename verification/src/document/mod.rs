//! Documents: their pages, the spreads built from them, how files are probed and
//! how a document is opened.
pub mod format_probe;
pub mod page_meta;
pub mod logical_spread;
pub mod spread_builder;
pub mod opening;
pub mod archive_navigator;
pub mod archive;
pub mod metadata_scan;

pub use logical_spread::LogicalSpread;
pub use page_meta::PageMeta;

use crate::document::spread_builder::{build_spreads, spreads_for};
use crate::types::LayoutMode;
use vstd::prelude::*;

verus! {

/// An opened document: its id, its path, its pages, the spreads they form, and the
/// reader that serves their bytes.
pub struct Document<R> {
    pub id: u64,
    pub path: String,
    pub pages: Vec<PageMeta>,
    pub spreads: Vec<LogicalSpread>,
    pub reader: R,
}

impl<R> Document<R> {
    /// Rebuilds the spreads from the pages as they are now, for layout `mode`.
    pub fn rebuild_spreads(&mut self, mode: LayoutMode)
        ensures
            final(self).spreads@ == spreads_for(old(self).pages@, mode),
            final(self).pages@ == old(self).pages@,
            final(self).id == old(self).id,
            final(self).path@ == old(self).path@,
            final(self).reader == old(self).reader,
    {
        self.spreads = build_spreads(self.pages.as_slice(), mode);
    }
}

} // verus!
