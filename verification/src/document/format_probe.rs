//! Recognizing file formats and reading image dimensions and color profiles from headers.
use crate::paths::{extension_of, lowercase, path_extension, to_lowercase};
use crate::text::{push_text, str_equals};
use vstd::prelude::*;

verus! {

broadcast use vstd::string::group_string_axioms;

/// A short summary of a photo's EXIF data.
#[derive(Debug, Clone, Default)]
pub struct ExifSummary {
    pub camera: Option<String>,
    pub lens: Option<String>,
    pub f_stop: Option<String>,
    pub shutter_speed: Option<String>,
    pub iso: Option<String>,
    pub datetime: Option<String>,
}

/// What kind of document a path is.
#[derive(Debug, Clone, Copy, PartialEq, Eq, Structural)]
pub enum FileFormat {
    Folder,
    Zip,
    Image,
    Unknown,
}

/// The encoding of an image.
#[derive(Debug, Clone, Copy, PartialEq, Eq, Structural)]
pub enum ImageFormat {
    Jpeg,
    Png,
    Webp,
    Gif,
    Bmp,
    Avif,
    Heif,
    Jxl,
    Unknown,
}

/// Dimensions, encoding and animation of an image, read from its header.
#[derive(Debug, Clone, Copy)]
pub struct ImageMetadata {
    pub width: u32,
    pub height: u32,
    pub format: ImageFormat,
    pub is_animated: bool,
}

/// The bytes b'RIFF'.
pub open spec fn riff() -> Seq<u8> {
    seq![0x52u8, 0x49u8, 0x46u8, 0x46u8]
}

/// The bytes b'GIF8'.
pub open spec fn gif8() -> Seq<u8> {
    seq![0x47u8, 0x49u8, 0x46u8, 0x38u8]
}

/// The bytes b'BM'.
pub open spec fn bm() -> Seq<u8> {
    seq![0x42u8, 0x4Du8]
}

/// The bytes b'ftypavif'.
pub open spec fn ftypavif() -> Seq<u8> {
    seq![0x66u8, 0x74u8, 0x79u8, 0x70u8, 0x61u8, 0x76u8, 0x69u8, 0x66u8]
}

/// The bytes b'ftypavis'.
pub open spec fn ftypavis() -> Seq<u8> {
    seq![0x66u8, 0x74u8, 0x79u8, 0x70u8, 0x61u8, 0x76u8, 0x69u8, 0x73u8]
}

/// The bytes b'ftyp'.
pub open spec fn ftyp() -> Seq<u8> {
    seq![0x66u8, 0x74u8, 0x79u8, 0x70u8]
}

/// The bytes b'heic'.
pub open spec fn heic() -> Seq<u8> {
    seq![0x68u8, 0x65u8, 0x69u8, 0x63u8]
}

/// The bytes b'heix'.
pub open spec fn heix() -> Seq<u8> {
    seq![0x68u8, 0x65u8, 0x69u8, 0x78u8]
}

/// The bytes b'mif1'.
pub open spec fn mif1() -> Seq<u8> {
    seq![0x6Du8, 0x69u8, 0x66u8, 0x31u8]
}

/// The bytes b'msf1'.
pub open spec fn msf1() -> Seq<u8> {
    seq![0x6Du8, 0x73u8, 0x66u8, 0x31u8]
}

/// The bytes b'JXL '.
pub open spec fn jxl() -> Seq<u8> {
    seq![0x4Au8, 0x58u8, 0x4Cu8, 0x20u8]
}

/// The bytes b'II'.
pub open spec fn tiff_le() -> Seq<u8> {
    seq![0x49u8, 0x49u8]
}

/// The bytes b'MM'.
pub open spec fn tiff_be() -> Seq<u8> {
    seq![0x4Du8, 0x4Du8]
}

/// The bytes b'DDS '.
pub open spec fn dds() -> Seq<u8> {
    seq![0x44u8, 0x44u8, 0x53u8, 0x20u8]
}

/// The bytes b'v/1\x01'.
pub open spec fn exr() -> Seq<u8> {
    seq![0x76u8, 0x2Fu8, 0x31u8, 0x01u8]
}

/// The bytes b'#?RADIANCE'.
pub open spec fn radiance() -> Seq<u8> {
    seq![0x23u8, 0x3Fu8, 0x52u8, 0x41u8, 0x44u8, 0x49u8, 0x41u8, 0x4Eu8, 0x43u8, 0x45u8]
}

/// A PNM header: b'P' followed by a format digit, b'1' to b'6'.
pub open spec fn is_pnm_header(d: Seq<u8>) -> bool {
    d.len() >= 2 && d[0] == 0x50u8 && 0x31u8 <= d[1] <= 0x36u8
}

/// The bytes b'WEBP'.
pub open spec fn webp() -> Seq<u8> {
    seq![0x57u8, 0x45u8, 0x42u8, 0x50u8]
}

/// The bytes b'ICCP'.
pub open spec fn iccp() -> Seq<u8> {
    seq![0x49u8, 0x43u8, 0x43u8, 0x50u8]
}

/// The bytes b'acsp'.
pub open spec fn acsp() -> Seq<u8> {
    seq![0x61u8, 0x63u8, 0x73u8, 0x70u8]
}

/// The bytes b'ICC_PROFILE\x00'.
pub open spec fn icc_profile() -> Seq<u8> {
    seq![0x49u8, 0x43u8, 0x43u8, 0x5Fu8, 0x50u8, 0x52u8, 0x4Fu8, 0x46u8, 0x49u8, 0x4Cu8, 0x45u8, 0x00u8]
}

/// The bytes b'iCCP'.
pub open spec fn iccp_chunk() -> Seq<u8> {
    seq![0x69u8, 0x43u8, 0x43u8, 0x50u8]
}

/// The bytes b'meta'.
pub open spec fn meta() -> Seq<u8> {
    seq![0x6Du8, 0x65u8, 0x74u8, 0x61u8]
}

/// The bytes b'iprp'.
pub open spec fn iprp() -> Seq<u8> {
    seq![0x69u8, 0x70u8, 0x72u8, 0x70u8]
}

/// The bytes b'ipco'.
pub open spec fn ipco() -> Seq<u8> {
    seq![0x69u8, 0x70u8, 0x63u8, 0x6Fu8]
}

/// The bytes b'ispe'.
pub open spec fn ispe() -> Seq<u8> {
    seq![0x69u8, 0x73u8, 0x70u8, 0x65u8]
}

/// The bytes b'VP8X'.
pub open spec fn vp8x() -> Seq<u8> {
    seq![0x56u8, 0x50u8, 0x38u8, 0x58u8]
}

/// The bytes b'PK\x03\x04'.
pub open spec fn zip_magic() -> Seq<u8> {
    seq![0x50u8, 0x4Bu8, 0x03u8, 0x04u8]
}

/// The bytes b'\x89PNG\r\n\x1a\n'.
pub open spec fn png_signature() -> Seq<u8> {
    seq![0x89u8, 0x50u8, 0x4Eu8, 0x47u8, 0x0Du8, 0x0Au8, 0x1Au8, 0x0Au8]
}

/// The bytes b'\x89PNG'.
pub open spec fn png_magic() -> Seq<u8> {
    seq![0x89u8, 0x50u8, 0x4Eu8, 0x47u8]
}

/// The bytes b'\xff\xd8'.
pub open spec fn jpeg_magic() -> Seq<u8> {
    seq![0xFFu8, 0xD8u8]
}


/// Whether `p` occurs in `d` at offset `off`.
pub open spec fn bytes_at(d: Seq<u8>, off: int, p: Seq<u8>) -> bool {
    0 <= off && off + p.len() <= d.len() && d.subrange(off, off + p.len()) == p
}

/// Whether `d` starts with `p`.
pub open spec fn starts_with(d: Seq<u8>, p: Seq<u8>) -> bool {
    bytes_at(d, 0, p)
}

/// The big-endian number in the two bytes at `i`.
pub open spec fn be16(d: Seq<u8>, i: int) -> int {
    d[i] * 256 + d[i + 1]
}

/// The big-endian number in the four bytes at `i`.
pub open spec fn be32(d: Seq<u8>, i: int) -> int {
    d[i] * 16777216 + d[i + 1] * 65536 + d[i + 2] * 256 + d[i + 3]
}

fn has_bytes_at(data: &[u8], off: usize, pat: &[u8]) -> (r: bool)
    ensures
        r == bytes_at(data@, off as int, pat@),
{
    if off > data.len() || pat.len() > data.len() - off {
        return false;
    }
    let dl = data.len();
    let mut k: usize = 0;
    while k < pat.len()
        invariant
            dl == data@.len(),
            off + pat@.len() <= data@.len(),
            k <= pat@.len(),
            forall|j: int| 0 <= j < k ==> data@[off + j] == pat@[j],
        decreases pat@.len() - k,
    {
        if data[off + k] != pat[k] {
            assert(data@.subrange(off as int, off + pat@.len())[k as int] != pat@[k as int]);
            return false;
        }
        k = k + 1;
    }
    assert(data@.subrange(off as int, off + pat@.len()) =~= pat@);
    true
}

/// Whether the header names an AVIF file (`ftypavif` or `ftypavis` at offset 4).
pub open spec fn is_avif_header(d: Seq<u8>) -> bool {
    d.len() > 12 && (bytes_at(d, 4, ftypavif()) || bytes_at(d, 4, ftypavis()))
}

/// Whether the header names a HEIF file (`ftyp` with a HEIF brand at offset 4).
pub open spec fn is_heif_header(d: Seq<u8>) -> bool {
    d.len() > 12 && bytes_at(d, 4, ftyp()) && (bytes_at(d, 8, heic()) || bytes_at(d, 8, heix())
        || bytes_at(d, 8, mif1()) || bytes_at(d, 8, msf1()))
}

/// Whether the header names a JPEG XL codestream or container.
pub open spec fn is_jxl_header(d: Seq<u8>) -> bool {
    (d.len() >= 2 && d[0] == 0xFF && d[1] == 0x0A) || (d.len() >= 8 && bytes_at(d, 4, jxl()))
}

/// Whether the header carries the magic number of a supported image format.
pub open spec fn image_header(d: Seq<u8>) -> bool {
    d.len() >= 2 && (starts_with(d, png_magic()) || starts_with(d, jpeg_magic()) || starts_with(
        d,
        riff(),
    ) || starts_with(d, gif8()) || starts_with(d, bm()) || is_avif_header(d) || is_heif_header(d)
        || is_jxl_header(d) || starts_with(d, tiff_le()) || starts_with(d, tiff_be())
        || starts_with(d, dds()) || starts_with(d, exr()) || starts_with(d, radiance())
        || is_pnm_header(d))
}

/// Whether the first bytes of `d` are, byte by byte, the magic number of one of the
/// supported image formats: PNG, JPEG, RIFF (WebP), GIF, BMP, AVIF or HEIF (`ftyp` box),
/// JPEG XL (codestream or container), TIFF (either byte order), DDS, OpenEXR, Radiance
/// HDR, or PNM (`P` and a digit from 1 to 6).
pub open spec fn magic_bytes(d: Seq<u8>) -> bool {
    ||| d.len() >= 4 && d[0] == 0x89u8 && d[1] == 0x50u8 && d[2] == 0x4Eu8 && d[3] == 0x47u8
    ||| d.len() >= 2 && d[0] == 0xFFu8 && d[1] == 0xD8u8
    ||| d.len() >= 4 && d[0] == 0x52u8 && d[1] == 0x49u8 && d[2] == 0x46u8 && d[3] == 0x46u8
    ||| d.len() >= 4 && d[0] == 0x47u8 && d[1] == 0x49u8 && d[2] == 0x46u8 && d[3] == 0x38u8
    ||| d.len() >= 2 && d[0] == 0x42u8 && d[1] == 0x4Du8
    ||| d.len() > 12 && d[4] == 0x66u8 && d[5] == 0x74u8 && d[6] == 0x79u8 && d[7] == 0x70u8 && ((d[8] == 0x61u8 && d[9] == 0x76u8 && d[10] == 0x69u8 && d[11] == 0x66u8) || (d[8] == 0x61u8 && d[9] == 0x76u8 && d[10] == 0x69u8 && d[11] == 0x73u8))
    ||| d.len() > 12 && d[4] == 0x66u8 && d[5] == 0x74u8 && d[6] == 0x79u8 && d[7] == 0x70u8 && ((d[8] == 0x68u8 && d[9] == 0x65u8 && d[10] == 0x69u8 && d[11] == 0x63u8) || (d[8] == 0x68u8 && d[9] == 0x65u8 && d[10] == 0x69u8 && d[11] == 0x78u8)
        || (d[8] == 0x6Du8 && d[9] == 0x69u8 && d[10] == 0x66u8 && d[11] == 0x31u8) || (d[8] == 0x6Du8 && d[9] == 0x73u8 && d[10] == 0x66u8 && d[11] == 0x31u8))
    ||| d.len() >= 2 && d[0] == 0xFFu8 && d[1] == 0x0Au8
    ||| d.len() >= 8 && d[4] == 0x4Au8 && d[5] == 0x58u8 && d[6] == 0x4Cu8 && d[7] == 0x20u8
    ||| d.len() >= 2 && d[0] == 0x49u8 && d[1] == 0x49u8
    ||| d.len() >= 2 && d[0] == 0x4Du8 && d[1] == 0x4Du8
    ||| d.len() >= 4 && d[0] == 0x44u8 && d[1] == 0x44u8 && d[2] == 0x53u8 && d[3] == 0x20u8
    ||| d.len() >= 4 && d[0] == 0x76u8 && d[1] == 0x2Fu8 && d[2] == 0x31u8 && d[3] == 0x01u8
    ||| d.len() >= 10 && d[0] == 0x23u8 && d[1] == 0x3Fu8 && d[2] == 0x52u8 && d[3] == 0x41u8 && d[4] == 0x44u8 && d[5] == 0x49u8 && d[6] == 0x41u8 && d[7] == 0x4Eu8 && d[8] == 0x43u8 && d[9] == 0x45u8
    ||| d.len() >= 2 && d[0] == 0x50u8 && 0x31u8 <= d[1] <= 0x36u8
}

proof fn lemma_bytes_at_each(d: Seq<u8>, off: int, p: Seq<u8>)
    ensures
        bytes_at(d, off, p) <==> (0 <= off && off + p.len() <= d.len() && forall|i: int|
            0 <= i < p.len() ==> #[trigger] d[off + i] == p[i]),
{
    if 0 <= off && off + p.len() <= d.len() {
        if forall|i: int| 0 <= i < p.len() ==> #[trigger] d[off + i] == p[i] {
            assert forall|i: int| 0 <= i < p.len() implies d.subrange(off, off + p.len())[i]
                == p[i] by {
                assert(d[off + i] == p[i]);
            }
            assert(d.subrange(off, off + p.len()) =~= p);
        }
        if d.subrange(off, off + p.len()) == p {
            assert forall|i: int| 0 <= i < p.len() implies #[trigger] d[off + i] == p[i] by {
                assert(d.subrange(off, off + p.len())[i] == d[off + i]);
            }
        }
    }
}

/// Image headers are exactly those that begin with the magic number of a supported
/// image format, checked byte by byte: every such header is an image header, and no
/// other is.
pub proof fn law_image_header_is_magic(d: Seq<u8>)
    ensures
        image_header(d) <==> magic_bytes(d),
{
    lemma_bytes_at_each(d, 0, png_magic());
    lemma_bytes_at_each(d, 0, jpeg_magic());
    lemma_bytes_at_each(d, 0, riff());
    lemma_bytes_at_each(d, 0, gif8());
    lemma_bytes_at_each(d, 0, bm());
    lemma_bytes_at_each(d, 4, ftypavif());
    lemma_bytes_at_each(d, 4, ftypavis());
    lemma_bytes_at_each(d, 4, ftyp());
    lemma_bytes_at_each(d, 8, heic());
    lemma_bytes_at_each(d, 8, heix());
    lemma_bytes_at_each(d, 8, mif1());
    lemma_bytes_at_each(d, 8, msf1());
    lemma_bytes_at_each(d, 4, jxl());
    lemma_bytes_at_each(d, 0, tiff_le());
    lemma_bytes_at_each(d, 0, tiff_be());
    lemma_bytes_at_each(d, 0, dds());
    lemma_bytes_at_each(d, 0, exr());
    lemma_bytes_at_each(d, 0, radiance());
    if d.len() > 12 {
        assert(bytes_at(d, 4, ftypavif()) <==> (d[4] == 0x66u8 && d[5] == 0x74u8 && d[6] == 0x79u8 && d[7] == 0x70u8 && d[8] == 0x61u8 && d[9] == 0x76u8 && d[10] == 0x69u8 && d[11] == 0x66u8)) by {
            if bytes_at(d, 4, ftypavif()) {
                assert(d[4] == ftypavif()[0] && d[5] == ftypavif()[1] && d[6] == ftypavif()[2]
                    && d[7] == ftypavif()[3] && d[8] == ftypavif()[4] && d[9] == ftypavif()[5]
                    && d[10] == ftypavif()[6] && d[11] == ftypavif()[7]);
            }
        }
        assert(bytes_at(d, 4, ftypavis()) <==> (d[4] == 0x66u8 && d[5] == 0x74u8 && d[6] == 0x79u8 && d[7] == 0x70u8 && d[8] == 0x61u8 && d[9] == 0x76u8 && d[10] == 0x69u8 && d[11] == 0x73u8)) by {
            if bytes_at(d, 4, ftypavis()) {
                assert(d[4] == ftypavis()[0] && d[5] == ftypavis()[1] && d[6] == ftypavis()[2]
                    && d[7] == ftypavis()[3] && d[8] == ftypavis()[4] && d[9] == ftypavis()[5]
                    && d[10] == ftypavis()[6] && d[11] == ftypavis()[7]);
            }
        }
    }
}

/// A file whose first bytes carry the magic number of a supported image format, checked
/// byte by byte, and not that of a ZIP archive (`PK\x03\x04`), opens as an image
/// whatever its name.
pub proof fn law_magic_opens_as_image(path: Seq<char>, h: Seq<u8>)
    requires
        h.len() >= 4,
        magic_bytes(h),
        !(h[0] == 0x50u8 && h[1] == 0x4Bu8 && h[2] == 0x03u8 && h[3] == 0x04u8),
    ensures
        file_format(path, false, Some(h)) == FileFormat::Image,
{
    law_image_header_is_magic(h);
    lemma_bytes_at_each(h, 0, zip_magic());
    if starts_with(h, zip_magic()) {
        assert(h[0int + 0] == zip_magic()[0]);
        assert(h[0int + 1] == zip_magic()[1]);
        assert(h[0int + 2] == zip_magic()[2]);
        assert(h[0int + 3] == zip_magic()[3]);
    }
}

fn avif_header(data: &[u8]) -> (r: bool)
    ensures
        r == is_avif_header(data@),
{
    data.len() > 12 && (has_bytes_at(data, 4, &[0x66u8, 0x74u8, 0x79u8, 0x70u8, 0x61u8, 0x76u8, 0x69u8, 0x66u8]) || has_bytes_at(data, 4, &[0x66u8, 0x74u8, 0x79u8, 0x70u8, 0x61u8, 0x76u8, 0x69u8, 0x73u8]))
}

fn heif_header(data: &[u8]) -> (r: bool)
    ensures
        r == is_heif_header(data@),
{
    data.len() > 12 && has_bytes_at(data, 4, &[0x66u8, 0x74u8, 0x79u8, 0x70u8]) && (has_bytes_at(data, 8, &[0x68u8, 0x65u8, 0x69u8, 0x63u8])
        || has_bytes_at(data, 8, &[0x68u8, 0x65u8, 0x69u8, 0x78u8]) || has_bytes_at(data, 8, &[0x6Du8, 0x69u8, 0x66u8, 0x31u8]) || has_bytes_at(
        data,
        8,
        &[0x6Du8, 0x73u8, 0x66u8, 0x31u8],
    ))
}

/// Checks the magic numbers of all supported image formats.
pub fn is_image_header(data: &[u8]) -> (r: bool)
    ensures
        r == image_header(data@),
{
    if data.len() < 2 {
        return false;
    }
    let is_avif = avif_header(data);
    let is_heif = heif_header(data);
    let is_jxl = (data.len() >= 2 && data[0] == 0xFF && data[1] == 0x0A) || (data.len() >= 8
        && has_bytes_at(data, 4, &[0x4Au8, 0x58u8, 0x4Cu8, 0x20u8]));
    let m0 = has_bytes_at(data, 0, &[0x89u8, 0x50u8, 0x4Eu8, 0x47u8]);
    assert(m0 == starts_with(data@, png_magic()));
    let m1 = has_bytes_at(data, 0, &[0xFFu8, 0xD8u8]);
    assert(m1 == starts_with(data@, jpeg_magic()));
    let m2 = has_bytes_at(data, 0, &[0x52u8, 0x49u8, 0x46u8, 0x46u8]);
    assert(m2 == starts_with(data@, riff()));
    let m3 = has_bytes_at(data, 0, &[0x47u8, 0x49u8, 0x46u8, 0x38u8]);
    assert(m3 == starts_with(data@, gif8()));
    let m4 = has_bytes_at(data, 0, &[0x42u8, 0x4Du8]);
    assert(m4 == starts_with(data@, bm()));
    let m5 = has_bytes_at(data, 0, &[0x49u8, 0x49u8]);
    assert(m5 == starts_with(data@, tiff_le()));
    let m6 = has_bytes_at(data, 0, &[0x4Du8, 0x4Du8]);
    assert(m6 == starts_with(data@, tiff_be()));
    let m7 = has_bytes_at(data, 0, &[0x44u8, 0x44u8, 0x53u8, 0x20u8]);
    assert(m7 == starts_with(data@, dds()));
    let m8 = has_bytes_at(data, 0, &[0x76u8, 0x2Fu8, 0x31u8, 0x01u8]);
    assert(m8 == starts_with(data@, exr()));
    let m9 = has_bytes_at(data, 0, &[0x23u8, 0x3Fu8, 0x52u8, 0x41u8, 0x44u8, 0x49u8, 0x41u8, 0x4Eu8, 0x43u8, 0x45u8]);
    assert(m9 == starts_with(data@, radiance()));
    let m10 = data[0] == 0x50u8 && 0x31u8 <= data[1] && data[1] <= 0x36u8;
    let first = m0 || m1 || m2 || m3 || m4;
    let second = m5 || m6 || m7 || m8 || m9 || m10;
    first || is_avif || is_heif || is_jxl || second
}


// ---------------------------------------------------------------------------
// ICC profiles

/// Whether a JPEG marker scan from offset `i` finds an APP2 segment holding an ICC profile.
pub open spec fn jpeg_icc_from(d: Seq<u8>, i: int) -> bool
    decreases d.len() - i,
{
    if i < 0 || i + 4 >= d.len() {
        false
    } else if d[i] != 0xFF {
        jpeg_icc_from(d, i + 1)
    } else if d[i + 1] == 0xDA || d[i + 1] == 0xD9 {
        false
    } else if d[i + 1] == 0x01 || (0xD0 <= d[i + 1] <= 0xD7) {
        jpeg_icc_from(d, i + 2)
    } else if be16(d, i + 2) < 2 || i + 2 + be16(d, i + 2) > d.len() {
        false
    } else if d[i + 1] == 0xE2 && be16(d, i + 2) >= 14 && bytes_at(d, i + 4, icc_profile()) {
        true
    } else {
        jpeg_icc_from(d, i + 2 + be16(d, i + 2))
    }
}

fn parse_jpeg_icc(data: &[u8]) -> (r: Option<String>)
    ensures
        match r {
            Some(s) => jpeg_icc_from(data@, 2) && s@ == "ICC Profile"@,
            None => !jpeg_icc_from(data@, 2),
        },
{
    let n = data.len();
    let mut i: usize = 2;
    while n > 4 && i < n - 4
        invariant
            n == data@.len(),
            i >= 2,
            jpeg_icc_from(data@, 2) == jpeg_icc_from(data@, i as int),
        decreases n - i,
    {
        if data[i] != 0xFF {
            i = i + 1;
            continue;
        }
        let marker = data[i + 1];
        if marker == 0xDA || marker == 0xD9 {
            return None;
        }
        if marker == 0x01 || (0xD0 <= marker && marker <= 0xD7) {
            i = i + 2;
            continue;
        }
        let seg_len: usize = (data[i + 2] as usize) * 256 + (data[i + 3] as usize);
        assert(seg_len == be16(data@, i + 2));
        if seg_len < 2 || seg_len > n - i - 2 {
            return None;
        }
        if marker == 0xE2 && seg_len - 2 >= 12 && has_bytes_at(data, i + 4, &[0x49u8, 0x43u8, 0x43u8, 0x5Fu8, 0x50u8, 0x52u8, 0x4Fu8, 0x46u8, 0x49u8, 0x4Cu8, 0x45u8, 0x00u8]) {
            return Some("ICC Profile".to_string());
        }
        i = i + 2 + seg_len;
    }
    None
}

/// The position of the first zero byte of `s` at or after `k`.
pub open spec fn first_zero_from(s: Seq<u8>, k: int) -> Option<int>
    decreases s.len() - k,
{
    if k < 0 || k >= s.len() {
        None
    } else if s[k] == 0 {
        Some(k)
    } else {
        first_zero_from(s, k + 1)
    }
}

/// Text decoded from UTF-8, every invalid sequence replaced by U+FFFD.
pub uninterp spec fn utf8_lossy(b: Seq<u8>) -> Seq<char>;

/// Whether every byte is ASCII (below 128).
pub open spec fn all_ascii(b: Seq<u8>) -> bool {
    forall|i: int| 0 <= i < b.len() ==> #[trigger] b[i] < 128
}

/// ASCII bytes read as the characters with the same codes.
pub open spec fn ascii_text(b: Seq<u8>) -> Seq<char> {
    b.map_values(|x: u8| x as char)
}

/// Bytes read as UTF-8: ASCII bytes as their characters, any other as `utf8_lossy` names it.
pub open spec fn decoded_text(b: Seq<u8>) -> Seq<char> {
    if all_ascii(b) {
        ascii_text(b)
    } else {
        utf8_lossy(b)
    }
}

/// `String::from_utf8_lossy`, copied into a `String`.
/// Claimed: the text is `utf8_lossy` of the bytes; valid UTF-8 is kept as it is, so ASCII
/// bytes give the characters with the same codes.
#[verifier::external_body]
fn lossy_text(bytes: &[u8]) -> (r: String)
    ensures
        r@ == utf8_lossy(bytes@),
        all_ascii(bytes@) ==> r@ == ascii_text(bytes@),
{
    String::from_utf8_lossy(bytes).into_owned()
}

/// The profile name of a PNG `iCCP` chunk: the text before its first zero byte,
/// or "ICC Profile" when that text is empty or there is no zero byte.
pub open spec fn iccp_name(chunk: Seq<u8>) -> Seq<char> {
    match first_zero_from(chunk, 0) {
        Some(z) => if decoded_text(chunk.take(z)).len() > 0 {
            decoded_text(chunk.take(z))
        } else {
            "ICC Profile"@
        },
        None => "ICC Profile"@,
    }
}

/// The ICC profile name found by a PNG chunk scan from offset `i`.
pub open spec fn png_icc_from(d: Seq<u8>, i: int) -> Option<Seq<char>>
    decreases d.len() - i,
{
    if i < 0 || i + 12 > d.len() {
        None
    } else if i + 12 + be32(d, i) > d.len() {
        None
    } else if bytes_at(d, i + 4, iccp_chunk()) {
        Some(iccp_name(d.subrange(i + 8, i + 8 + be32(d, i))))
    } else {
        png_icc_from(d, i + 12 + be32(d, i))
    }
}

fn read_be32(data: &[u8], i: usize) -> (r: u32)
    requires
        i + 4 <= data@.len(),
    ensures
        r == be32(data@, i as int),
{
    (data[i] as u32) * 16777216 + (data[i + 1] as u32) * 65536 + (data[i + 2] as u32) * 256 + (data[i
        + 3] as u32)
}

fn parse_png_icc(data: &[u8]) -> (r: Option<String>)
    ensures
        opt_text(r) == png_icc_from(data@, 8),
{
    let n = data.len();
    let mut i: usize = 8;
    while n >= 12 && i <= n - 12
        invariant
            n == data@.len(),
            i >= 8,
            png_icc_from(data@, 8) == png_icc_from(data@, i as int),
        decreases n - i,
    {
        let len = read_be32(data, i) as usize;
        if len > n - i - 12 {
            return None;
        }
        if has_bytes_at(data, i + 4, &[0x69u8, 0x43u8, 0x43u8, 0x50u8]) {
            let ghost chunk = data@.subrange(i + 8, i + 8 + len);
            let mut name_bytes: Vec<u8> = Vec::new();
            let mut k: usize = 0;
            while k < len && data[i + 8 + k] != 0
                invariant
                    n == data@.len(),
                    i + 12 + len <= n,
                    k <= len,
                    chunk == data@.subrange(i + 8, i + 8 + len),
                    name_bytes@ == chunk.take(k as int),
                    first_zero_from(chunk, 0) == first_zero_from(chunk, k as int),
                decreases len - k,
            {
                name_bytes.push(data[i + 8 + k]);
                k = k + 1;
                assert(name_bytes@ =~= chunk.take(k as int));
            }
            if k < len {
                let name = lossy_text(name_bytes.as_slice());
                if name.as_str().is_empty() {
                    return Some("ICC Profile".to_string());
                }
                return Some(name);
            }
            return Some("ICC Profile".to_string());
        }
        i = i + 12 + len;
    }
    None
}

/// The text of an optional string.
pub open spec fn opt_text(o: Option<String>) -> Option<Seq<char>> {
    match o {
        Some(s) => Some(s@),
        None => None,
    }
}

/// Whether the header is a RIFF WebP header.
pub open spec fn is_webp_header(d: Seq<u8>) -> bool {
    d.len() >= 12 && bytes_at(d, 0, riff()) && bytes_at(d, 8, webp())
}

/// The name of the color profile embedded in an image header, if one is found.
pub open spec fn icc_profile_name(d: Seq<u8>) -> Option<Seq<char>> {
    if starts_with(d, jpeg_magic()) {
        if jpeg_icc_from(d, 2) {
            Some("ICC Profile"@)
        } else {
            None
        }
    } else if starts_with(d, png_signature()) {
        png_icc_from(d, 8)
    } else if is_webp_header(d) {
        if exists|k: int| #[trigger] bytes_at(d, k, iccp()) {
            Some("Embedded ICC"@)
        } else {
            None
        }
    } else if d.len() >= 40 && bytes_at(d, 36, acsp()) {
        Some("Embedded ICC Profile"@)
    } else {
        None
    }
}

/// Finds an embedded color profile in a JPEG, PNG or WebP header, or a raw ICC profile.
pub fn probe_icc_profile_name(data: &[u8]) -> (r: Option<String>)
    ensures
        opt_text(r) == icc_profile_name(data@),
{
    if has_bytes_at(data, 0, &[0xFFu8, 0xD8u8]) {
        return parse_jpeg_icc(data);
    }
    if has_bytes_at(data, 0, &[0x89u8, 0x50u8, 0x4Eu8, 0x47u8, 0x0Du8, 0x0Au8, 0x1Au8, 0x0Au8]) {
        return parse_png_icc(data);
    }
    if data.len() >= 12 && has_bytes_at(data, 0, &[0x52u8, 0x49u8, 0x46u8, 0x46u8]) && has_bytes_at(data, 8, &[0x57u8, 0x45u8, 0x42u8, 0x50u8]) {
        let n = data.len();
        let mut k: usize = 0;
        assert(!starts_with(data@, jpeg_magic()));
        assert(!starts_with(data@, png_signature()));
        assert(is_webp_header(data@));
        while k <= n - 4
            invariant
                !starts_with(data@, jpeg_magic()),
                !starts_with(data@, png_signature()),
                is_webp_header(data@),
                n == data@.len(),
                n >= 12,
                k <= n,
                forall|j: int| 0 <= j < k ==> !#[trigger] bytes_at(data@, j, iccp()),
            decreases n - k,
        {
            if has_bytes_at(data, k, &[0x49u8, 0x43u8, 0x43u8, 0x50u8]) {
                assert(bytes_at(data@, k as int, iccp()));
                return Some("Embedded ICC".to_string());
            }
            k = k + 1;
        }
        assert forall|j: int| !#[trigger] bytes_at(data@, j, iccp()) by {
            if j >= k {
                assert(j + 4 > n);
            }
        }
        return None;
    }
    if data.len() >= 40 && has_bytes_at(data, 36, &[0x61u8, 0x63u8, 0x73u8, 0x70u8]) {
        return Some("Embedded ICC Profile".to_string());
    }
    None
}


// ---------------------------------------------------------------------------
// ISOBMFF (AVIF / HEIF) dimensions

/// The end of a box of `size` bytes at `i`, cut to the data.
pub open spec fn box_end(d: Seq<u8>, i: int, size: int) -> int {
    if i + size < d.len() {
        i + size
    } else {
        d.len() as int
    }
}

/// The width and height of the first `ispe` box found by the box scan from `i`,
/// entering `meta`, `iprp` and `ipco` boxes.
pub open spec fn iso_scan(d: Seq<u8>, i: int) -> Option<(u32, u32)>
    decreases d.len(), d.len() - i,
{
    if i < 0 || i + 8 > d.len() {
        None
    } else {
        let size = be32(d, i);
        let end = box_end(d, i, size);
        if size < 8 {
            None
        } else if bytes_at(d, i + 4, meta()) {
            if i + 12 <= end {
                iso_scan(d.subrange(i + 12, end), 0)
            } else {
                None
            }
        } else if bytes_at(d, i + 4, iprp()) || bytes_at(d, i + 4, ipco()) {
            iso_scan(d.subrange(i + 8, end), 0)
        } else if bytes_at(d, i + 4, ispe()) && i + 20 <= d.len() {
            Some((be32(d, i + 12) as u32, be32(d, i + 16) as u32))
        } else if i + size > d.len() {
            None
        } else {
            iso_scan(d, i + size)
        }
    }
}

proof fn lemma_sub_bytes_at(data: Seq<u8>, lo: int, hi: int, k: int, p: Seq<u8>)
    requires
        0 <= lo <= hi <= data.len(),
        0 <= k,
        k + p.len() <= hi - lo,
    ensures
        bytes_at(data.subrange(lo, hi), k, p) == bytes_at(data, lo + k, p),
{
    assert(data.subrange(lo, hi).subrange(k, k + p.len()) =~= data.subrange(lo + k, lo + k + p.len()));
}

#[verifier::rlimit(40)]
fn isobmff_in(data: &[u8], lo: usize, hi: usize) -> (r: Option<(u32, u32)>)
    requires
        lo <= hi <= data@.len(),
    ensures
        r == iso_scan(data@.subrange(lo as int, hi as int), 0),
    decreases hi - lo,
{
    let ghost d = data@.subrange(lo as int, hi as int);
    let n = hi - lo;
    let mut i: usize = 0;
    while n >= 8 && i <= n - 8
        invariant
            lo <= hi <= data@.len(),
            n == hi - lo,
            d == data@.subrange(lo as int, hi as int),
            iso_scan(d, 0) == iso_scan(d, i as int),
        decreases n - i,
    {
        let size = read_be32(data, lo + i) as usize;
        assert(size == be32(d, i as int));
        if size < 8 {
            return None;
        }
        let end = if size < n - i {
            i + size
        } else {
            n
        };
        assert(end == box_end(d, i as int, size as int));
        proof {
            lemma_sub_bytes_at(data@, lo as int, hi as int, i + 4, meta());
            lemma_sub_bytes_at(data@, lo as int, hi as int, i + 4, iprp());
            lemma_sub_bytes_at(data@, lo as int, hi as int, i + 4, ipco());
            lemma_sub_bytes_at(data@, lo as int, hi as int, i + 4, ispe());
        }
        if has_bytes_at(data, lo + i + 4, &[0x6Du8, 0x65u8, 0x74u8, 0x61u8]) {
            assert(bytes_at(d, i + 4, meta()));
            if end - i < 12 {
                return None;
            }
            assert(d.subrange(i + 12, end as int) =~= data@.subrange(lo + i + 12, lo + end));
            return isobmff_in(data, lo + i + 12, lo + end);
        } else if has_bytes_at(data, lo + i + 4, &[0x69u8, 0x70u8, 0x72u8, 0x70u8]) || has_bytes_at(
            data,
            lo + i + 4,
            &[0x69u8, 0x70u8, 0x63u8, 0x6Fu8],
        ) {
            assert(bytes_at(d, i + 4, iprp()) || bytes_at(d, i + 4, ipco()));
            assert(d.subrange(i + 8, end as int) =~= data@.subrange(lo + i + 8, lo + end));
            return isobmff_in(data, lo + i + 8, lo + end);
        } else if has_bytes_at(data, lo + i + 4, &[0x69u8, 0x73u8, 0x70u8, 0x65u8]) {
            assert(bytes_at(d, i + 4, ispe()));
            if n - i >= 20 {
                let width = read_be32(data, lo + i + 12);
                let height = read_be32(data, lo + i + 16);
                assert(width == be32(d, i + 12));
                assert(height == be32(d, i + 16));
                return Some((width, height));
            }
        }
        if size > n - i {
            return None;
        }
        i = i + size;
    }
    None
}

/// Reads the width and height of an AVIF or HEIF image from its `ispe` box.
pub fn parse_isobmff_dimensions(data: &[u8]) -> (r: Option<(u32, u32)>)
    ensures
        r == iso_scan(data@, 0),
{
    assert(data@.subrange(0, data@.len() as int) =~= data@);
    isobmff_in(data, 0, data.len())
}

// ---------------------------------------------------------------------------
// Container format

/// Whether a WebP header declares an animation (the animation flag of its `VP8X` chunk).
pub open spec fn webp_declares_animation(d: Seq<u8>) -> bool {
    bytes_at(d, 12, vp8x()) && d.len() > 20 && d[20] & 2u8 != 0u8
}

fn webp_animated(data: &[u8]) -> (r: bool)
    ensures
        r == webp_declares_animation(data@),
{
    has_bytes_at(data, 12, &[0x56u8, 0x50u8, 0x38u8, 0x58u8]) && data.len() > 20 && data[20] & 2u8 != 0u8
}

/// Whether a lower-case extension names a ZIP archive.
pub open spec fn is_zip_extension(e: Seq<char>) -> bool {
    e == "zip"@ || e == "cbz"@
}

/// Whether a lower-case extension names an image format without reliable magic numbers.
pub open spec fn is_headerless_image_extension(e: Seq<char>) -> bool {
    e == "tga"@ || e == "exr"@ || e == "hdr"@ || e == "pbm"@ || e == "pgm"@ || e == "ppm"@ || e
        == "pnm"@
}

/// The kind of document at a path, from whether it is a directory, the first bytes of
/// the file (`None` when it cannot be opened) and the path's extension.
pub open spec fn file_format(path: Seq<char>, is_dir: bool, header: Option<Seq<u8>>) -> FileFormat {
    if is_dir {
        FileFormat::Folder
    } else {
        match header {
            None => FileFormat::Unknown,
            Some(h) => if h.len() < 4 {
                FileFormat::Unknown
            } else if starts_with(h, zip_magic()) {
                FileFormat::Zip
            } else if image_header(h) {
                FileFormat::Image
            } else {
                match path_extension(path) {
                    Some(e) => if is_zip_extension(lowercase(e)) {
                        FileFormat::Zip
                    } else if is_headerless_image_extension(lowercase(e)) {
                        FileFormat::Image
                    } else {
                        FileFormat::Unknown
                    },
                    None => FileFormat::Unknown,
                }
            },
        }
    }
}

/// How a path is recognized: a directory is a folder whatever else holds; a file that
/// cannot be read, or whose header is shorter than four bytes, is unknown; one that starts
/// with `PK\x03\x04` is a ZIP archive; one with an image magic number is an image; a file
/// with neither is a ZIP archive or an image only by a `zip`/`cbz` or a headerless image
/// extension, and unknown when it has no extension.
pub proof fn law_format_recognition(path: Seq<char>, b: Seq<u8>)
    ensures
        file_format(path, true, Some(b)) == FileFormat::Folder,
        file_format(path, true, None) == FileFormat::Folder,
        file_format(path, false, None) == FileFormat::Unknown,
        b.len() < 4 ==> file_format(path, false, Some(b)) == FileFormat::Unknown,
        b.len() >= 4 && b[0] == 0x50u8 && b[1] == 0x4Bu8 && b[2] == 0x03u8 && b[3] == 0x04u8
            ==> file_format(path, false, Some(b)) == FileFormat::Zip,
        b.len() >= 4 && !magic_bytes(b) && path_extension(path) is None && !(b[0] == 0x50u8
            && b[1] == 0x4Bu8 && b[2] == 0x03u8 && b[3] == 0x04u8) ==> file_format(
            path,
            false,
            Some(b),
        ) == FileFormat::Unknown,
        b.len() >= 4 && !magic_bytes(b) && path_extension(path) is Some && (lowercase(
            path_extension(path)->0,
        ) == "zip"@ || lowercase(path_extension(path)->0) == "cbz"@) ==> file_format(
            path,
            false,
            Some(b),
        ) == FileFormat::Zip,
{
    law_image_header_is_magic(b);
    lemma_bytes_at_each(b, 0, zip_magic());
    if b.len() >= 4 && b[0] == 0x50u8 && b[1] == 0x4Bu8 && b[2] == 0x03u8 && b[3] == 0x04u8 {
        assert(b.subrange(0, 4) =~= zip_magic());
    }
    if b.len() >= 4 && starts_with(b, zip_magic()) {
        assert(b[0int + 0] == zip_magic()[0]);
        assert(b[0int + 1] == zip_magic()[1]);
        assert(b[0int + 2] == zip_magic()[2]);
        assert(b[0int + 3] == zip_magic()[3]);
    }
}

/// Detects the container format of a path: folder, ZIP archive, image, or unknown.
///
/// The caller states whether the path is a directory and hands over the first bytes of
/// the file (up to 16), or `None` when the file cannot be opened.
pub fn probe_format_from(path: &str, is_dir: bool, header: Option<&[u8]>) -> (r: FileFormat)
    ensures
        r == file_format(
            path@,
            is_dir,
            match header {
                Some(h) => Some(h@),
                None => None,
            },
        ),
{
    if is_dir {
        return FileFormat::Folder;
    }
    let h = match header {
        Some(h) => h,
        None => return FileFormat::Unknown,
    };
    if h.len() < 4 {
        return FileFormat::Unknown;
    }
    if has_bytes_at(h, 0, &[0x50u8, 0x4Bu8, 0x03u8, 0x04u8]) {
        return FileFormat::Zip;
    }
    if is_image_header(h) {
        return FileFormat::Image;
    }
    if let Some(ext) = extension_of(path) {
        let e = to_lowercase(ext.as_str());
        let s = e.as_str();
        if str_equals(s, "zip") || str_equals(s, "cbz") {
            return FileFormat::Zip;
        }
        if str_equals(s, "tga") || str_equals(s, "exr") || str_equals(s, "hdr") || str_equals(s, "pbm")
            || str_equals(s, "pgm") || str_equals(s, "ppm") || str_equals(s, "pnm") {
            return FileFormat::Image;
        }
    }
    FileFormat::Unknown
}

// ---------------------------------------------------------------------------
// Image metadata

/// The image type `imagesize` recognizes in the data, if any.
pub uninterp spec fn imagesize_type(d: Seq<u8>) -> Option<ImageFormat>;

/// `imagesize::image_type`, each recognized type mapped to the library's format and the
/// others to `ImageFormat::Unknown`.
/// Claimed: the result is `imagesize_type` of the data.
#[verifier::external_body]
fn detect_image_type(data: &[u8]) -> (r: Option<ImageFormat>)
    ensures
        r == imagesize_type(data@),
{
    match imagesize::image_type(data) {
        Ok(imagesize::ImageType::Jpeg) => Some(ImageFormat::Jpeg),
        Ok(imagesize::ImageType::Png) => Some(ImageFormat::Png),
        Ok(imagesize::ImageType::Webp) => Some(ImageFormat::Webp),
        Ok(imagesize::ImageType::Gif) => Some(ImageFormat::Gif),
        Ok(imagesize::ImageType::Bmp) => Some(ImageFormat::Bmp),
        Ok(imagesize::ImageType::Heif(_)) => Some(ImageFormat::Heif),
        Ok(imagesize::ImageType::Jxl) => Some(ImageFormat::Jxl),
        Ok(_) => Some(ImageFormat::Unknown),
        Err(_) => None,
    }
}

/// The width and height `imagesize` reads from the data, if it can.
pub uninterp spec fn imagesize_dims(d: Seq<u8>) -> Option<(usize, usize)>;

/// `imagesize::blob_size`.
/// Claimed: the result is `imagesize_dims` of the data.
#[verifier::external_body]
fn detect_image_size(data: &[u8]) -> (r: Option<(usize, usize)>)
    ensures
        r == imagesize_dims(data@),
{
    match imagesize::blob_size(data) {
        Ok(sz) => Some((sz.width, sz.height)),
        Err(_) => None,
    }
}

/// Whether the metadata probe needs an AVIF decoder: the header is AVIF and the box
/// scan finds no `ispe` box.
pub open spec fn avif_needs_decoder(d: Seq<u8>) -> bool {
    d.len() >= 4 && is_avif_header(d) && iso_scan(d, 0) is None
}

/// The format and dimensions read from a header; `avif_decoded` is what an AVIF decoder
/// read when the box scan found nothing.
pub open spec fn probed_fields(d: Seq<u8>, avif_decoded: Option<(u32, u32)>) -> (ImageFormat, u32, u32) {
    if is_avif_header(d) || is_heif_header(d) {
        match iso_scan(d, 0) {
            Some((w, h)) => (
                if is_avif_header(d) {
                    ImageFormat::Avif
                } else {
                    ImageFormat::Heif
                },
                w,
                h,
            ),
            None => if is_avif_header(d) {
                match avif_decoded {
                    Some((w, h)) => (ImageFormat::Avif, w, h),
                    None => (ImageFormat::Unknown, 0u32, 0u32),
                }
            } else {
                (ImageFormat::Unknown, 0u32, 0u32)
            },
        }
    } else {
        (
            match imagesize_type(d) {
                Some(f) => f,
                None => ImageFormat::Unknown,
            },
            match imagesize_dims(d) {
                Some((w, _)) => w as u32,
                None => 0u32,
            },
            match imagesize_dims(d) {
                Some((_, h)) => h as u32,
                None => 0u32,
            },
        )
    }
}

/// The metadata of an image header: `None` when the format is unknown or a dimension
/// is zero; GIF images and WebP images that declare an animation are animated.
pub open spec fn image_metadata(d: Seq<u8>, avif_decoded: Option<(u32, u32)>) -> Option<ImageMetadata> {
    if d.len() < 4 {
        None
    } else {
        let (format, width, height) = probed_fields(d, avif_decoded);
        if format == ImageFormat::Unknown || width == 0 || height == 0 {
            None
        } else {
            Some(
                ImageMetadata {
                    width,
                    height,
                    format,
                    is_animated: format == ImageFormat::Gif || (format == ImageFormat::Webp
                        && webp_declares_animation(d)),
                },
            )
        }
    }
}

/// Whether an AVIF decoder must be asked for the dimensions of this header.
pub fn needs_avif_decoder(data: &[u8]) -> (r: bool)
    ensures
        r == avif_needs_decoder(data@),
{
    data.len() >= 4 && avif_header(data) && parse_isobmff_dimensions(data).is_none()
}

/// Extracts dimensions, format and animation from the first bytes of an image.
///
/// AVIF and HEIF headers are read by a box scan; when an AVIF header has no `ispe` box,
/// `avif_decoded` holds what an AVIF decoder read (see `needs_avif_decoder`). Other
/// formats are recognized and measured by `imagesize`.
pub fn probe_image_metadata(data: &[u8], avif_decoded: Option<(u32, u32)>) -> (r: Option<
    ImageMetadata,
>)
    ensures
        r == image_metadata(data@, avif_decoded),
{
    if data.len() < 4 {
        return None;
    }
    let is_avif = avif_header(data);
    let is_heif = heif_header(data);
    let mut format = ImageFormat::Unknown;
    let mut width: u32 = 0;
    let mut height: u32 = 0;
    if is_avif || is_heif {
        if let Some((w, h)) = parse_isobmff_dimensions(data) {
            format = if is_avif {
                ImageFormat::Avif
            } else {
                ImageFormat::Heif
            };
            width = w;
            height = h;
        } else if is_avif {
            if let Some((w, h)) = avif_decoded {
                format = ImageFormat::Avif;
                width = w;
                height = h;
            }
        }
    } else {
        if let Some(it) = detect_image_type(data) {
            format = it;
        }
        if let Some((w, h)) = detect_image_size(data) {
            width = w as u32;
            height = h as u32;
        }
    }
    if format == ImageFormat::Unknown || width == 0 || height == 0 {
        return None;
    }
    let mut is_animated = format == ImageFormat::Gif;
    if format == ImageFormat::Webp {
        is_animated = webp_animated(data);
    }
    Some(ImageMetadata { width, height, format, is_animated })
}

/// The IFD that holds an EXIF tag.
#[derive(Debug, Clone, Copy, PartialEq, Eq, Structural)]
pub enum ExifIfd {
    /// The TIFF attributes of the primary image.
    Tiff,
    /// The EXIF attributes.
    Exif,
}

/// The text that the `exif` crate displays, with its unit, for tag number `tag` of IFD
/// `ifd` of the primary image of `data`, read as an image container or else as raw EXIF
/// data; None where neither reading succeeds or the tag is absent.
pub uninterp spec fn exif_field_text(data: Seq<u8>, ifd: ExifIfd, tag: u16) -> Option<Seq<char>>;

/// Reads one EXIF field of the primary image with the `exif` crate: `Reader::read_from_container`,
/// falling back to `Reader::read_raw`, then `Exif::get_field` and `Field::display_value`
/// with its unit.
/// Claimed: the result is `exif_field_text` of the bytes, the IFD and the tag number.
#[verifier::external_body]
fn exif_field(data: &[u8], ifd: ExifIfd, tag: u16) -> (r: Option<String>)
    ensures
        r matches Some(t) ==> exif_field_text(data@, ifd, tag) == Some(t@),
        r is None ==> exif_field_text(data@, ifd, tag) is None,
{
    let context = match ifd {
        ExifIfd::Tiff => exif::Context::Tiff,
        ExifIfd::Exif => exif::Context::Exif,
    };
    let mut cursor = std::io::Cursor::new(data);
    let read = exif::Reader::new().read_from_container(&mut cursor);
    let exif = read.or_else(|_| exif::Reader::new().read_raw(data.to_vec())).ok()?;
    let field = exif.get_field(exif::Tag(context, tag), exif::In::PRIMARY)?;
    Some(field.display_value().with_unit(&exif).to_string())
}

/// Whether `c` has the Unicode property `White_Space` (as `char::is_whitespace`).
pub open spec fn is_white_space(c: char) -> bool {
    ||| '\u{9}' <= c && c <= '\u{d}'
    ||| c == ' ' || c == '\u{85}' || c == '\u{a0}' || c == '\u{1680}'
    ||| '\u{2000}' <= c && c <= '\u{200a}'
    ||| c == '\u{2028}' || c == '\u{2029}' || c == '\u{202f}' || c == '\u{205f}' || c == '\u{3000}'
}

/// The text without its leading whitespace.
pub open spec fn trim_start(s: Seq<char>) -> Seq<char>
    decreases s.len(),
{
    if s.len() > 0 && is_white_space(s[0]) {
        trim_start(s.skip(1))
    } else {
        s
    }
}

/// The text without its trailing whitespace.
pub open spec fn trim_end(s: Seq<char>) -> Seq<char>
    decreases s.len(),
{
    if s.len() > 0 && is_white_space(s.last()) {
        trim_end(s.drop_last())
    } else {
        s
    }
}

/// The text without leading and trailing whitespace.
pub open spec fn trimmed(s: Seq<char>) -> Seq<char> {
    trim_end(trim_start(s))
}

/// `str::trim`.
/// Claimed: the text without its leading and trailing characters that have the Unicode
/// property `White_Space`, as the standard library documents `trim`.
#[verifier::external_body]
fn trim_text(s: &str) -> (r: String)
    ensures
        r@ == trimmed(s@),
{
    s.trim().to_string()
}

/// Tag number of the camera maker (TIFF IFD).
pub const TAG_MAKE: u16 = 0x10f;
/// Tag number of the camera model (TIFF IFD).
pub const TAG_MODEL: u16 = 0x110;
/// Tag number of the file's date and time (TIFF IFD).
pub const TAG_DATE_TIME: u16 = 0x132;
/// Tag number of the exposure time (EXIF IFD).
pub const TAG_EXPOSURE_TIME: u16 = 0x829a;
/// Tag number of the f-number (EXIF IFD).
pub const TAG_F_NUMBER: u16 = 0x829d;
/// Tag number of the photographic sensitivity (EXIF IFD).
pub const TAG_PHOTOGRAPHIC_SENSITIVITY: u16 = 0x8827;
/// Tag number of the ISO speed (EXIF IFD).
pub const TAG_ISO_SPEED: u16 = 0x8833;
/// Tag number of the original date and time (EXIF IFD).
pub const TAG_DATE_TIME_ORIGINAL: u16 = 0x9003;
/// Tag number of the lens model (EXIF IFD).
pub const TAG_LENS_MODEL: u16 = 0xa434;

/// The texts of the EXIF fields a summary is made from.
#[derive(Debug, Clone)]
pub struct ExifFieldTexts {
    pub make: Option<String>,
    pub model: Option<String>,
    pub lens_model: Option<String>,
    pub f_number: Option<String>,
    pub exposure_time: Option<String>,
    pub iso_speed: Option<String>,
    pub photographic_sensitivity: Option<String>,
    pub date_time_original: Option<String>,
    pub date_time: Option<String>,
}

/// `a` where present, else `b`.
pub open spec fn or_else_text(a: Option<Seq<char>>, b: Option<Seq<char>>) -> Option<Seq<char>> {
    match a {
        Some(x) => Some(x),
        None => b,
    }
}

/// The camera: maker and model, each trimmed, joined by a space; or the one present.
pub open spec fn camera_text(make: Option<Seq<char>>, model: Option<Seq<char>>) -> Option<Seq<char>> {
    match (make, model) {
        (Some(a), Some(b)) => Some(trimmed(a) + " "@ + trimmed(b)),
        (Some(a), None) => Some(a),
        (None, Some(b)) => Some(b),
        (None, None) => None,
    }
}

/// Whether the summary's fields are the ones made from the field texts: camera, lens,
/// f-number, exposure time, ISO speed (else photographic sensitivity), original date
/// (else file date).
pub open spec fn summarizes(s: ExifSummary, f: ExifFieldTexts) -> bool {
    &&& opt_text(s.camera) == camera_text(opt_text(f.make), opt_text(f.model))
    &&& opt_text(s.lens) == opt_text(f.lens_model)
    &&& opt_text(s.f_stop) == opt_text(f.f_number)
    &&& opt_text(s.shutter_speed) == opt_text(f.exposure_time)
    &&& opt_text(s.iso) == or_else_text(opt_text(f.iso_speed), opt_text(f.photographic_sensitivity))
    &&& opt_text(s.datetime) == or_else_text(opt_text(f.date_time_original), opt_text(f.date_time))
}

/// Whether none of the fields a summary shows is present.
pub open spec fn nothing_to_show(f: ExifFieldTexts) -> bool {
    &&& camera_text(opt_text(f.make), opt_text(f.model)) is None
    &&& f.lens_model is None
    &&& f.f_number is None
    &&& f.exposure_time is None
    &&& f.iso_speed is None && f.photographic_sensitivity is None
    &&& f.date_time_original is None && f.date_time is None
}

/// The summary of the field texts; None where it would show nothing.
pub fn summarize_exif(f: ExifFieldTexts) -> (r: Option<ExifSummary>)
    ensures
        r is None <==> nothing_to_show(f),
        r matches Some(s) ==> summarizes(s, f),
{
    let camera = match (f.make, f.model) {
        (Some(a), Some(b)) => {
            let mut joined = trim_text(a.as_str());
            let tb = trim_text(b.as_str());
            proof {
                reveal_strlit(" ");
            }
            push_text(&mut joined, " ");
            push_text(&mut joined, tb.as_str());
            Some(joined)
        },
        (Some(a), None) => Some(a),
        (None, Some(b)) => Some(b),
        (None, None) => None,
    };
    let iso = match f.iso_speed {
        Some(v) => Some(v),
        None => f.photographic_sensitivity,
    };
    let datetime = match f.date_time_original {
        Some(v) => Some(v),
        None => f.date_time,
    };
    if camera.is_none() && f.lens_model.is_none() && f.f_number.is_none()
        && f.exposure_time.is_none() && iso.is_none() && datetime.is_none() {
        return None;
    }
    Some(
        ExifSummary {
            camera,
            lens: f.lens_model,
            f_stop: f.f_number,
            shutter_speed: f.exposure_time,
            iso,
            datetime,
        },
    )
}

/// The field texts that the `exif` crate reads from `data`.
pub open spec fn read_field_texts(data: Seq<u8>, f: ExifFieldTexts) -> bool {
    &&& opt_text(f.make) == exif_field_text(data, ExifIfd::Tiff, TAG_MAKE)
    &&& opt_text(f.model) == exif_field_text(data, ExifIfd::Tiff, TAG_MODEL)
    &&& opt_text(f.lens_model) == exif_field_text(data, ExifIfd::Exif, TAG_LENS_MODEL)
    &&& opt_text(f.f_number) == exif_field_text(data, ExifIfd::Exif, TAG_F_NUMBER)
    &&& opt_text(f.exposure_time) == exif_field_text(data, ExifIfd::Exif, TAG_EXPOSURE_TIME)
    &&& opt_text(f.iso_speed) == exif_field_text(data, ExifIfd::Exif, TAG_ISO_SPEED)
    &&& opt_text(f.photographic_sensitivity) == exif_field_text(
        data,
        ExifIfd::Exif,
        TAG_PHOTOGRAPHIC_SENSITIVITY,
    )
    &&& opt_text(f.date_time_original) == exif_field_text(data, ExifIfd::Exif, TAG_DATE_TIME_ORIGINAL)
    &&& opt_text(f.date_time) == exif_field_text(data, ExifIfd::Tiff, TAG_DATE_TIME)
}

/// The EXIF fields of `data` that a summary is made from.
pub fn read_exif_fields(data: &[u8]) -> (r: ExifFieldTexts)
    ensures
        read_field_texts(data@, r),
{
    ExifFieldTexts {
        make: exif_field(data, ExifIfd::Tiff, TAG_MAKE),
        model: exif_field(data, ExifIfd::Tiff, TAG_MODEL),
        lens_model: exif_field(data, ExifIfd::Exif, TAG_LENS_MODEL),
        f_number: exif_field(data, ExifIfd::Exif, TAG_F_NUMBER),
        exposure_time: exif_field(data, ExifIfd::Exif, TAG_EXPOSURE_TIME),
        iso_speed: exif_field(data, ExifIfd::Exif, TAG_ISO_SPEED),
        photographic_sensitivity: exif_field(data, ExifIfd::Exif, TAG_PHOTOGRAPHIC_SENSITIVITY),
        date_time_original: exif_field(data, ExifIfd::Exif, TAG_DATE_TIME_ORIGINAL),
        date_time: exif_field(data, ExifIfd::Tiff, TAG_DATE_TIME),
    }
}

/// The summary of the EXIF data in `data`: camera, lens, f-number, exposure time, ISO and
/// date; None where there is no such field.
pub fn extract_exif_summary(data: &[u8]) -> (r: Option<ExifSummary>)
    ensures
        exists|f: ExifFieldTexts|
            read_field_texts(data@, f) && (r is None <==> nothing_to_show(f)) && (r matches Some(
                s,
            ) ==> summarizes(s, f)),
{
    let f = read_exif_fields(data);
    let ghost g = f;
    let r = summarize_exif(f);
    assert(read_field_texts(data@, g));
    r
}

} // verus!
