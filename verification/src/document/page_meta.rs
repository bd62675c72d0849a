//! What is known of one page of a document.
use vstd::prelude::*;

verus! {

/// Metadata of one page (one image) of a document.
#[derive(Debug, Clone)]
pub struct PageMeta {
    pub index: usize,
    pub name: String,
    pub format_label: String,
    pub file_size_bytes: Option<u64>,
    pub width: u32,
    pub height: u32,
    pub metadata_probe_failed: bool,
    pub is_wide: bool,
    pub is_animated: bool,
    pub icc_profile: Option<String>,
    pub exif_camera: Option<String>,
    pub exif_lens: Option<String>,
    pub exif_f_stop: Option<String>,
    pub exif_shutter: Option<String>,
    pub exif_iso: Option<String>,
    pub exif_datetime: Option<String>,
}

impl PageMeta {
    /// A wide or animated page always occupies a spread of its own.
    pub open spec fn stands_alone(self) -> bool {
        self.is_wide || self.is_animated
    }
}

} // verus!
