//! Opening a document: what to open for a path, which reader reads it, the pages
//! it lists, and the document assembled from them.
use crate::document::format_probe::{FileFormat, ImageMetadata};
use crate::document::spread_builder::{build_spreads, spreads_for};
use crate::document::{Document, LogicalSpread, PageMeta};
use crate::hashing::{hash_text, text_digest};
use crate::paths::{
    ascii_upper, extension_of, file_name_of, lowercase, parent_of, path_extension,
    path_file_name, path_parent, to_ascii_uppercase, to_lowercase,
};
use crate::text::str_equals;
use crate::types::LayoutMode;
use vstd::prelude::*;

verus! {

/// Why a document could not be opened.
#[derive(Debug, Clone, Copy, PartialEq, Eq, Structural)]
pub enum OpenError {
    /// The path is neither a folder, nor a ZIP archive, nor an image.
    UnsupportedFormat,
    /// The reader lists no image.
    NoImages,
}

/// The reader that serves the pages of a document.
#[derive(Debug, Clone, Copy, PartialEq, Eq, Structural)]
pub enum ReaderKind {
    Folder,
    Zip,
    SingleImage,
}

/// Id of a document: the digest of its normalized path.
pub fn generate_doc_id(normalized_path: &str) -> (r: u64)
    ensures
        r == text_digest(normalized_path@),
{
    hash_text(normalized_path)
}

/// The reader for a probed format; an unknown format cannot be opened.
pub fn create_reader(format: FileFormat) -> (r: Result<ReaderKind, OpenError>)
    ensures
        r == match format {
            FileFormat::Folder => Ok::<ReaderKind, OpenError>(ReaderKind::Folder),
            FileFormat::Zip => Ok(ReaderKind::Zip),
            FileFormat::Image => Ok(ReaderKind::SingleImage),
            FileFormat::Unknown => Err(OpenError::UnsupportedFormat),
        },
{
    match format {
        FileFormat::Folder => Ok(ReaderKind::Folder),
        FileFormat::Zip => Ok(ReaderKind::Zip),
        FileFormat::Image => Ok(ReaderKind::SingleImage),
        FileFormat::Unknown => Err(OpenError::UnsupportedFormat),
    }
}

/// What to open for `path` and which page to show first: a folder or a ZIP/CBZ archive
/// opens as it is; a supported image with a parent opens its folder at the image.
pub open spec fn open_target(path: Seq<char>, is_dir: bool, is_supported_image: bool) -> (
    Seq<char>,
    Option<Seq<char>>,
) {
    if is_dir {
        (path, None)
    } else {
        match path_extension(path) {
            None => (path, None),
            Some(e) => if lowercase(e) == "zip"@ || lowercase(e) == "cbz"@ {
                (path, None)
            } else if is_supported_image && path_parent(path) is Some {
                (
                    path_parent(path).unwrap(),
                    Some(
                        match path_file_name(path) {
                            Some(n) => n,
                            None => Seq::empty(),
                        },
                    ),
                )
            } else {
                (path, None)
            },
        }
    }
}

/// What opening a path opens: a directory, an archive (`zip` or `cbz` extension in any
/// case) and anything that is not a supported image open as they are, at no particular
/// page; a supported image file that has a parent opens the parent folder at the image's
/// own file name.
pub proof fn law_open_target(path: Seq<char>, is_dir: bool, is_supported_image: bool)
    ensures
        is_dir ==> open_target(path, is_dir, is_supported_image) == (path, None::<Seq<char>>),
        !is_supported_image ==> open_target(path, is_dir, is_supported_image) == (path, None::<
            Seq<char>,
        >),
        path_extension(path) matches Some(e) && (lowercase(e) == "zip"@ || lowercase(e) == "cbz"@)
            ==> open_target(path, is_dir, is_supported_image) == (path, None::<Seq<char>>),
        !is_dir && is_supported_image && path_parent(path) is Some && path_extension(path) is Some
            && !(lowercase(path_extension(path)->0) == "zip"@ || lowercase(path_extension(path)->0)
            == "cbz"@) && path_file_name(path) is Some ==> open_target(
            path,
            is_dir,
            is_supported_image,
        ) == (path_parent(path)->0, Some(path_file_name(path)->0)),
{
}

/// Resolves what to open for `path`, given whether it is a directory and whether it is a
/// supported image file.
pub fn resolve_open_target(path: String, is_dir: bool, is_supported_image: bool) -> (r: (
    String,
    Option<String>,
))
    ensures
        (r.0@, opt_view(r.1)) == open_target(path@, is_dir, is_supported_image),
{
    if is_dir {
        return (path, None);
    }
    match extension_of(path.as_str()) {
        Some(ext) => {
            let ext = to_lowercase(ext.as_str());
            if str_equals(ext.as_str(), "zip") || str_equals(ext.as_str(), "cbz") {
                return (path, None);
            }
            if is_supported_image {
                match parent_of(path.as_str()) {
                    Some(parent) => {
                        let file_name = match file_name_of(path.as_str()) {
                            Some(n) => n,
                            None => String::new(),
                        };
                        return (parent, Some(file_name));
                    },
                    None => {},
                }
            }
            (path, None)
        },
        None => (path, None),
    }
}

/// The view of an optional string.
pub open spec fn opt_view(s: Option<String>) -> Option<Seq<char>> {
    match s {
        Some(v) => Some(v@),
        None => None,
    }
}

/// Label of a page's format: its extension in ASCII upper case, or "Unknown".
pub open spec fn format_label(name: Seq<char>) -> Seq<char> {
    match path_extension(name) {
        Some(e) => ascii_upper(e),
        None => "Unknown"@,
    }
}

/// Page `i` named `name` as listed, before any metadata is known.
pub open spec fn is_listed_page(p: PageMeta, i: int, name: Seq<char>) -> bool {
    &&& p.index == i
    &&& p.name@ == name
    &&& p.format_label@ == format_label(name)
    &&& p.file_size_bytes is None
    &&& p.width == 0
    &&& p.height == 0
    &&& !p.metadata_probe_failed
    &&& !p.is_wide
    &&& !p.is_animated
    &&& p.icc_profile is None
    &&& p.exif_camera is None
    &&& p.exif_lens is None
    &&& p.exif_f_stop is None
    &&& p.exif_shutter is None
    &&& p.exif_iso is None
    &&& p.exif_datetime is None
}

/// The format label of a page name.
fn page_format_label(name: &str) -> (r: String)
    ensures
        r@ == format_label(name@),
{
    match extension_of(name) {
        Some(e) => to_ascii_uppercase(e.as_str()),
        None => {
            let r = "Unknown".to_string();
            proof {
                broadcast use vstd::string::group_string_axioms;

            }
            r
        },
    }
}

/// Whether `idx` is the index of the first name equal to `initial`, or 0 where no name is
/// (or where there is no `initial`).
pub open spec fn first_named(names: Seq<String>, initial: Option<&str>, idx: int) -> bool {
    match initial {
        Some(n) => {
            ||| (0 <= idx < names.len() && names[idx]@ == n@ && forall|k: int|
                0 <= k < idx ==> names[k]@ != n@)
            ||| (idx == 0 && forall|k: int| 0 <= k < names.len() ==> names[k]@ != n@)
        },
        None => idx == 0,
    }
}

/// Index of the page to show first: the first page named `initial_page_name`, else 0.
fn initial_index(image_names: &Vec<String>, initial_page_name: Option<&str>) -> (r: usize)
    ensures
        first_named(image_names@, initial_page_name, r as int),
{
    match initial_page_name {
        Some(n) => {
            let mut i: usize = 0;
            while i < image_names.len()
                invariant
                    i <= image_names@.len(),
                    initial_page_name == Some(n),
                    forall|k: int| 0 <= k < i ==> image_names@[k]@ != n@,
                decreases image_names@.len() - i,
            {
                if str_equals(image_names[i].as_str(), n) {
                    return i;
                }
                i = i + 1;
            }
            0
        },
        None => 0,
    }
}

/// The pages listed by a reader, in order, and the index of the page to show first:
/// the first page named `initial_page_name`, else 0. No image is an error.
pub fn build_pages_with_initial_metadata(
    image_names: Vec<String>,
    initial_page_name: Option<&str>,
) -> (r: Result<(Vec<PageMeta>, usize), OpenError>)
    ensures
        image_names@.len() == 0 <==> r == Err::<(Vec<PageMeta>, usize), OpenError>(
            OpenError::NoImages,
        ),
        image_names@.len() > 0 ==> r is Ok,
        match r {
            Ok((pages, idx)) => {
                &&& pages@.len() == image_names@.len()
                &&& forall|i: int|
                    0 <= i < pages@.len() ==> is_listed_page(
                        #[trigger] pages@[i],
                        i,
                        image_names@[i]@,
                    )
                &&& idx < pages@.len()
                &&& first_named(image_names@, initial_page_name, idx as int)
            },
            Err(_) => true,
        },
{
    if image_names.len() == 0 {
        return Err(OpenError::NoImages);
    }
    let initial = initial_index(&image_names, initial_page_name);
    let mut pages: Vec<PageMeta> = Vec::new();
    let mut i: usize = 0;
    while i < image_names.len()
        invariant
            i <= image_names@.len(),
            pages@.len() == i,
            forall|k: int|
                0 <= k < i ==> is_listed_page(#[trigger] pages@[k], k, image_names@[k]@),
        decreases image_names@.len() - i,
    {
        let name = image_names[i].clone();
        let label = page_format_label(name.as_str());
        pages.push(
            PageMeta {
                index: i,
                name,
                format_label: label,
                file_size_bytes: None,
                width: 0,
                height: 0,
                metadata_probe_failed: false,
                is_wide: false,
                is_animated: false,
                icc_profile: None,
                exif_camera: None,
                exif_lens: None,
                exif_f_stop: None,
                exif_shutter: None,
                exif_iso: None,
                exif_datetime: None,
            },
        );
        i = i + 1;
    }
    Ok((pages, initial))
}

/// The metadata that the first page gets: what the header gave, else what the deeper
/// header gave.
pub open spec fn initial_metadata(
    header_meta: Option<ImageMetadata>,
    deep_meta: Option<ImageMetadata>,
) -> Option<ImageMetadata> {
    match header_meta {
        Some(m) => Some(m),
        None => deep_meta,
    }
}

/// Page `p` after the metadata `m` was probed for it.
pub open spec fn with_metadata(p: PageMeta, m: ImageMetadata) -> PageMeta {
    PageMeta { width: m.width, height: m.height, is_wide: m.width > m.height, is_animated: m.is_animated, ..p }
}

/// Gives the page at `initial_index` the size and animation flag probed from its header,
/// or, where the header gave nothing, from a deeper header.
pub fn apply_initial_metadata(
    pages: &mut Vec<PageMeta>,
    initial_index: usize,
    header_meta: Option<ImageMetadata>,
    deep_meta: Option<ImageMetadata>,
)
    ensures
        final(pages)@ == match initial_metadata(header_meta, deep_meta) {
            Some(m) => if initial_index < old(pages)@.len() {
                old(pages)@.update(
                    initial_index as int,
                    with_metadata(old(pages)@[initial_index as int], m),
                )
            } else {
                old(pages)@
            },
            None => old(pages)@,
        },
{
    let meta = match header_meta {
        Some(m) => Some(m),
        None => deep_meta,
    };
    match meta {
        Some(m) => {
            if initial_index < pages.len() {
                let ghost before = pages@;
                let mut page = pages.remove(initial_index);
                page.width = m.width;
                page.height = m.height;
                page.is_wide = page.width > page.height;
                page.is_animated = m.is_animated;
                pages.insert(initial_index, page);
                assert(pages@ =~= before.update(
                    initial_index as int,
                    with_metadata(before[initial_index as int], m),
                ));
            }
        },
        None => {},
    }
}

/// The spreads a document starts with: one page each.
pub fn build_initial_spreads(pages: &[PageMeta]) -> (r: Vec<LogicalSpread>)
    ensures
        r@ == spreads_for(pages@, LayoutMode::Single),
{
    build_spreads(pages, LayoutMode::Single)
}

/// The document made of `pages`, read through `reader`, with its initial spreads.
pub fn assemble_document<R>(doc_id: u64, path: String, pages: Vec<PageMeta>, reader: R) -> (r:
    Document<R>)
    ensures
        r.id == doc_id,
        r.path@ == path@,
        r.pages@ == pages@,
        r.spreads@ == spreads_for(pages@, LayoutMode::Single),
        r.reader == reader,
{
    let spreads = build_initial_spreads(pages.as_slice());
    Document { id: doc_id, path, pages, spreads, reader }
}

} // verus!
