//! What a file name or path text says: whether it names an image or an archive by its
//! extension, and the normalized form of a path used to recognize it.
use crate::paths::{extension_of, lowercase, path_extension, to_lowercase};
use crate::text::{chars_of, push_char, str_equals};
use vstd::prelude::*;

verus! {

/// Whether `e` (in lower case) is the extension of an image format the viewer reads.
pub open spec fn is_image_extension(e: Seq<char>) -> bool {
    ||| e == "jpg"@
    ||| e == "jpeg"@
    ||| e == "png"@
    ||| e == "gif"@
    ||| e == "webp"@
    ||| e == "bmp"@
    ||| e == "tif"@
    ||| e == "tiff"@
    ||| e == "avif"@
    ||| e == "heic"@
    ||| e == "heif"@
    ||| e == "jxl"@
    ||| e == "tga"@
    ||| e == "exr"@
    ||| e == "hdr"@
    ||| e == "pbm"@
    ||| e == "pgm"@
    ||| e == "ppm"@
    ||| e == "pnm"@
    ||| e == "dds"@
}

/// Whether `e` (in lower case) is the extension of an archive opened as a document.
pub open spec fn is_archive_extension(e: Seq<char>) -> bool {
    e == "zip"@ || e == "cbz"@
}

/// Whether the name has an extension that, in lower case, is an image extension.
pub open spec fn names_image(name: Seq<char>) -> bool {
    path_extension(name) matches Some(e) && is_image_extension(lowercase(e))
}

/// Whether the name has an extension that, in lower case, is an archive extension.
pub open spec fn names_archive(name: Seq<char>) -> bool {
    path_extension(name) matches Some(e) && is_archive_extension(lowercase(e))
}

fn image_extension(e: &str) -> (r: bool)
    ensures
        r == is_image_extension(e@),
{
    str_equals(e, "jpg") || str_equals(e, "jpeg") || str_equals(e, "png") || str_equals(e, "gif")
        || str_equals(e, "webp") || str_equals(e, "bmp") || str_equals(e, "tif") || str_equals(
        e,
        "tiff",
    ) || str_equals(e, "avif") || str_equals(e, "heic") || str_equals(e, "heif") || str_equals(
        e,
        "jxl",
    ) || str_equals(e, "tga") || str_equals(e, "exr") || str_equals(e, "hdr") || str_equals(
        e,
        "pbm",
    ) || str_equals(e, "pgm") || str_equals(e, "ppm") || str_equals(e, "pnm") || str_equals(
        e,
        "dds",
    )
}

/// Whether a file name has an image extension, in any case.
pub fn is_supported_image_name(name: &str) -> (r: bool)
    ensures
        r == names_image(name@),
{
    match extension_of(name) {
        Some(e) => {
            let l = to_lowercase(e.as_str());
            image_extension(l.as_str())
        },
        None => false,
    }
}

/// Whether a file name has an archive extension (`zip` or `cbz`), in any case.
pub fn is_archive_name(name: &str) -> (r: bool)
    ensures
        r == names_archive(name@),
{
    match extension_of(name) {
        Some(e) => {
            let l = to_lowercase(e.as_str());
            str_equals(l.as_str(), "zip") || str_equals(l.as_str(), "cbz")
        },
        None => false,
    }
}

/// The text with every `\` turned into `/`.
pub open spec fn forward_slashes(s: Seq<char>) -> Seq<char> {
    s.map_values(|c: char| if c == '\\' { '/' } else { c })
}

/// The path text used to recognize a document or an archive: `/` as the separator, in
/// lower case.
pub fn normalize_path(path: &str) -> (r: String)
    ensures
        r@ == lowercase(forward_slashes(path@)),
{
    let chars = chars_of(path);
    let mut out = String::new();
    let mut i: usize = 0;
    while i < chars.len()
        invariant
            chars@ == path@,
            i <= chars@.len(),
            out@ == forward_slashes(path@).take(i as int),
        decreases chars@.len() - i,
    {
        let c = chars[i];
        let d = if c == '\\' {
            '/'
        } else {
            c
        };
        push_char(&mut out, d);
        assert(out@ =~= forward_slashes(path@).take(i + 1));
        i = i + 1;
    }
    assert(forward_slashes(path@).take(chars@.len() as int) =~= forward_slashes(path@));
    to_lowercase(out.as_str())
}

} // verus!
