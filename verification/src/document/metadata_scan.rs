//! Completing page metadata before pages are paired into spreads: each page whose size
//! is unknown is probed from more and more of its bytes until a size is found.
use crate::document::format_probe::ImageMetadata;
use crate::document::PageMeta;
use vstd::prelude::*;

verus! {

/// Bytes read for the first, fast look at a page.
pub const DUAL_SCAN_FAST_HEADER_LIMIT: usize = 8_192;

/// Bytes read for the second, deeper look.
pub const DUAL_SCAN_DEEP_HEADER_LIMIT: usize = 131_072;

/// Whether a page's size must still be probed: it is unknown, or the last probe failed.
pub open spec fn needs_probe(p: PageMeta) -> bool {
    p.width == 0 || p.height == 0 || p.metadata_probe_failed
}

/// Whether page `page` needs its metadata probed before pages are paired.
pub fn needs_metadata_probe(page: &PageMeta) -> (r: bool)
    ensures
        r == needs_probe(*page),
{
    page.width == 0 || page.height == 0 || page.metadata_probe_failed
}

/// What the probes of one page found so far: a size (0 while unknown) and whether it is
/// animated.
#[derive(Debug, Clone, Copy, PartialEq, Eq, Structural)]
pub struct MetadataScan {
    pub width: u32,
    pub height: u32,
    pub is_animated: bool,
}

impl MetadataScan {
    /// Nothing found yet.
    pub fn new() -> (r: Self)
        ensures
            r == (MetadataScan { width: 0, height: 0, is_animated: false }),
    {
        MetadataScan { width: 0, height: 0, is_animated: false }
    }

    /// Whether a size was found, so that no further bytes need to be read.
    pub fn found(&self) -> (r: bool)
        ensures
            r == (self.width > 0 && self.height > 0),
    {
        self.width > 0 && self.height > 0
    }

    /// Takes what a probe of more bytes gave, if it gave anything.
    pub fn offer(&mut self, meta: Option<ImageMetadata>)
        ensures
            *final(self) == match meta {
                Some(m) => MetadataScan { width: m.width, height: m.height, is_animated: m.is_animated },
                None => *old(self),
            },
    {
        match meta {
            Some(m) => {
                self.width = m.width;
                self.height = m.height;
                self.is_animated = m.is_animated;
            },
            None => {},
        }
    }

    /// Takes the original size that decoding the whole file gave, if it gave one.
    pub fn offer_decoded(&mut self, original_size: Option<(u32, u32)>)
        ensures
            *final(self) == match original_size {
                Some((w, h)) => MetadataScan { width: w, height: h, ..*old(self) },
                None => *old(self),
            },
    {
        match original_size {
            Some((w, h)) => {
                self.width = w;
                self.height = h;
            },
            None => {},
        }
    }
}

/// Page `p` after a scan: its size, shape and animation where a size was found, marked
/// as failed otherwise.
pub open spec fn scanned(p: PageMeta, s: MetadataScan) -> PageMeta {
    if s.width > 0 && s.height > 0 {
        PageMeta {
            width: s.width,
            height: s.height,
            is_wide: s.width > s.height,
            is_animated: s.is_animated,
            metadata_probe_failed: false,
            ..p
        }
    } else {
        PageMeta { metadata_probe_failed: true, ..p }
    }
}

/// Records the scan of the page at `index`; true where a size was found. An index past
/// the last page changes nothing.
pub fn apply_metadata_scan(pages: &mut Vec<PageMeta>, index: usize, scan: MetadataScan) -> (r: bool)
    ensures
        index < old(pages)@.len() ==> final(pages)@ == old(pages)@.update(
            index as int,
            scanned(old(pages)@[index as int], scan),
        ),
        index >= old(pages)@.len() ==> final(pages)@ == old(pages)@,
        r == (index < old(pages)@.len() && scan.width > 0 && scan.height > 0),
{
    if index >= pages.len() {
        return false;
    }
    let ghost before = pages@;
    let mut page = pages.remove(index);
    let found = scan.width > 0 && scan.height > 0;
    if found {
        page.width = scan.width;
        page.height = scan.height;
        page.is_wide = scan.width > scan.height;
        page.is_animated = scan.is_animated;
        page.metadata_probe_failed = false;
    } else {
        page.metadata_probe_failed = true;
    }
    pages.insert(index, page);
    assert(pages@ =~= before.update(index as int, scanned(before[index as int], scan)));
    found
}

/// A scan settles a page exactly when it found a size: the page then has that size, is
/// wide exactly when it is wider than tall, takes the animation found, and needs no further
/// probe; a scan that found no size leaves the size as it was and the page still needs a
/// probe. Either way the page keeps its index and name.
pub proof fn law_scan_settles_page(p: PageMeta, s: MetadataScan)
    ensures
        s.width > 0 && s.height > 0 ==> {
            let q = scanned(p, s);
            &&& q.width == s.width && q.height == s.height
            &&& q.is_wide == (s.width > s.height)
            &&& q.is_animated == s.is_animated
            &&& !needs_probe(q)
        },
        !(s.width > 0 && s.height > 0) ==> {
            let q = scanned(p, s);
            &&& q.width == p.width && q.height == p.height
            &&& needs_probe(q)
        },
        scanned(p, s).index == p.index && scanned(p, s).name == p.name,
        p.width == 0 || p.height == 0 ==> needs_probe(p),
{
}

} // verus!
