//! Shared value types of the viewer.
use crate::document::format_probe::ExifSummary;
use vstd::prelude::*;

verus! {

/// Index of a page inside an opened document.
pub type PageId = usize;

/// Resolution level at which a page is decoded.
#[derive(Debug, Clone, Copy, PartialEq, Eq, Hash, Structural)]
pub enum MipLevel {
    Full,
    Half,
    Quarter,
    Eighth,
}

impl MipLevel {
    /// The level's number, 0 for full resolution.
    pub open spec fn spec_code(self) -> u8 {
        match self {
            MipLevel::Full => 0,
            MipLevel::Half => 1,
            MipLevel::Quarter => 2,
            MipLevel::Eighth => 3,
        }
    }

    /// Number of the level, as used in cache keys.
    pub fn code(&self) -> (r: u8)
        ensures
            r == self.spec_code(),
    {
        match self {
            MipLevel::Full => 0,
            MipLevel::Half => 1,
            MipLevel::Quarter => 2,
            MipLevel::Eighth => 3,
        }
    }
}

/// How pages are arranged on screen.
#[derive(Debug, Clone, Copy, PartialEq, Eq, Structural)]
pub enum LayoutMode {
    Single,
    Dual { rtl: bool, first_page_offset: bool },
    VerticalScroll,
}

/// A decoded page: RGBA8 pixels at the decoded size, and what was read alongside.
#[derive(Debug, Clone)]
pub struct DecodedImage {
    pub width: u32,
    pub height: u32,
    pub original_width: u32,
    pub original_height: u32,
    pub pixels: Vec<u8>,
    pub icc_profile: Option<Vec<u8>>,
    pub exif: Option<ExifSummary>,
}

} // verus!
