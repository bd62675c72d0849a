use hinaview::document::archive::{handle_pool_size, zip_handle_pool_size, ZIP_HANDLE_POOL_MAX};
use hinaview::document::format_probe::{
    extract_exif_summary, is_image_header, needs_avif_decoder, parse_isobmff_dimensions,
    probe_format_from, probe_icc_profile_name, probe_image_metadata, summarize_exif,
    ExifFieldTexts, FileFormat, ImageFormat,
};

fn png_header(width: u32, height: u32) -> Vec<u8> {
    let mut v = vec![0x89, b'P', b'N', b'G', 0x0D, 0x0A, 0x1A, 0x0A, 0, 0, 0, 13];
    v.extend_from_slice(b"IHDR");
    v.extend_from_slice(&width.to_be_bytes());
    v.extend_from_slice(&height.to_be_bytes());
    v.extend_from_slice(&[8, 6, 0, 0, 0, 0, 0, 0, 0]);
    v
}

fn png_chunk(kind: &[u8; 4], data: &[u8]) -> Vec<u8> {
    let mut v = (data.len() as u32).to_be_bytes().to_vec();
    v.extend_from_slice(kind);
    v.extend_from_slice(data);
    v.extend_from_slice(&[0, 0, 0, 0]);
    v
}

fn avif_with_ispe(width: u32, height: u32) -> Vec<u8> {
    let mut ispe = vec![0, 0, 0, 20];
    ispe.extend_from_slice(b"ispe");
    ispe.extend_from_slice(&[0, 0, 0, 0]);
    ispe.extend_from_slice(&width.to_be_bytes());
    ispe.extend_from_slice(&height.to_be_bytes());
    let mut v = vec![0, 0, 0, 16];
    v.extend_from_slice(b"ftypavif");
    v.extend_from_slice(&[0, 0, 0, 0]);
    v.extend_from_slice(&ispe);
    v
}

#[test]
fn image_headers_are_recognized() {
    assert!(is_image_header(&png_header(1, 1)));
    assert!(is_image_header(&[0xFF, 0xD8, 0xFF, 0xE0]));
    assert!(is_image_header(b"GIF89a"));
    assert!(is_image_header(b"BM\0\0"));
    assert!(!is_image_header(b"PK\x03\x04"));
    assert!(!is_image_header(b"PK\x05\x06"));
    assert!(is_image_header(b"P6\n1 1\n255\n"));
    assert!(is_image_header(b"P1"));
    assert!(!is_image_header(b"P7"));
    assert!(!is_image_header(b"hello world"));
    assert!(!is_image_header(b"x"));
}

#[test]
fn formats_are_probed_from_header_then_extension() {
    assert_eq!(probe_format_from("/books", true, None), FileFormat::Folder);
    assert_eq!(probe_format_from("/a.bin", false, Some(b"PK\x03\x04rest")), FileFormat::Zip);
    assert_eq!(probe_format_from("/a.bin", false, Some(&png_header(2, 2))), FileFormat::Image);
    assert_eq!(probe_format_from("/a.CBZ", false, Some(b"zzzzzzzz")), FileFormat::Zip);
    assert_eq!(probe_format_from("/a.tga", false, Some(b"zzzzzzzz")), FileFormat::Image);
    assert_eq!(probe_format_from("/a.txt", false, Some(b"zzzzzzzz")), FileFormat::Unknown);
    assert_eq!(probe_format_from("/a.zip", false, Some(b"PK")), FileFormat::Unknown);
    assert_eq!(probe_format_from("/a.zip", false, None), FileFormat::Unknown);
}

#[test]
fn image_metadata_from_headers() {
    let png = probe_image_metadata(&png_header(256, 128), None).unwrap();
    assert_eq!((png.width, png.height, png.format, png.is_animated), (256, 128, ImageFormat::Png, false));
    let gif = probe_image_metadata(&[0x47, 0x49, 0x46, 0x38, 0x39, 0x61, 10, 0, 20, 0, 0, 0, 0], None).unwrap();
    assert_eq!((gif.width, gif.height, gif.format, gif.is_animated), (10, 20, ImageFormat::Gif, true));
    assert!(probe_image_metadata(b"abc", None).is_none());
    assert!(probe_image_metadata(&png_header(0, 5), None).is_none());
}

#[test]
fn avif_dimensions_come_from_ispe_or_the_decoder() {
    let data = avif_with_ispe(640, 480);
    assert_eq!(parse_isobmff_dimensions(&data), Some((640, 480)));
    assert!(!needs_avif_decoder(&data));
    let m = probe_image_metadata(&data, None).unwrap();
    assert_eq!((m.width, m.height, m.format), (640, 480, ImageFormat::Avif));
    let mut bare = vec![0, 0, 0, 16];
    bare.extend_from_slice(b"ftypavif");
    bare.extend_from_slice(&[0, 0, 0, 0]);
    assert!(needs_avif_decoder(&bare));
    assert!(probe_image_metadata(&bare, None).is_none());
    let decoded = probe_image_metadata(&bare, Some((30, 40))).unwrap();
    assert_eq!((decoded.width, decoded.height, decoded.format), (30, 40, ImageFormat::Avif));
}

#[test]
fn icc_profiles_are_named() {
    let mut png = png_header(1, 1);
    png.extend(png_chunk(b"iCCP", b"Display P3\0\0xyz"));
    assert_eq!(probe_icc_profile_name(&png), Some("Display P3".to_string()));
    let mut unnamed = png_header(1, 1);
    unnamed.extend(png_chunk(b"iCCP", b"\0\0xyz"));
    assert_eq!(probe_icc_profile_name(&unnamed), Some("ICC Profile".to_string()));
    assert_eq!(probe_icc_profile_name(&png_header(1, 1)), None);
    let mut jpeg = vec![0xFF, 0xD8, 0xFF, 0xE2, 0x00, 0x10];
    jpeg.extend_from_slice(b"ICC_PROFILE\0\x01\x01");
    jpeg.extend_from_slice(&[0, 0, 0, 0]);
    assert_eq!(probe_icc_profile_name(&jpeg), Some("ICC Profile".to_string()));
    let mut webp = b"RIFF\0\0\0\0WEBPVP8X".to_vec();
    webp.extend_from_slice(b"....ICCP....");
    assert_eq!(probe_icc_profile_name(&webp), Some("Embedded ICC".to_string()));
    assert_eq!(probe_icc_profile_name(b"RIFF\0\0\0\0WEBPVP8 ...."), None);
    let mut raw = vec![0u8; 36];
    raw.extend_from_slice(b"acsp");
    assert_eq!(probe_icc_profile_name(&raw), Some("Embedded ICC Profile".to_string()));
}

#[test]
fn exif_summaries_combine_fields() {
    let none = ExifFieldTexts {
        make: None,
        model: None,
        lens_model: None,
        f_number: None,
        exposure_time: None,
        iso_speed: None,
        photographic_sensitivity: None,
        date_time_original: None,
        date_time: None,
    };
    assert!(summarize_exif(none.clone()).is_none());
    let mut f = none.clone();
    f.make = Some(" Canon ".to_string());
    f.model = Some("EOS R5 ".to_string());
    f.photographic_sensitivity = Some("400".to_string());
    f.date_time = Some("2024-01-02 03:04:05".to_string());
    let s = summarize_exif(f).unwrap();
    assert_eq!(s.camera.as_deref(), Some("Canon EOS R5"));
    assert_eq!(s.iso.as_deref(), Some("400"));
    assert_eq!(s.datetime.as_deref(), Some("2024-01-02 03:04:05"));
    assert!(s.lens.is_none());
    let mut g = none.clone();
    g.model = Some(" X100V".to_string());
    g.iso_speed = Some("200".to_string());
    g.photographic_sensitivity = Some("400".to_string());
    let t = summarize_exif(g).unwrap();
    assert_eq!(t.camera.as_deref(), Some(" X100V"));
    assert_eq!(t.iso.as_deref(), Some("200"));
    assert!(extract_exif_summary(b"not an image").is_none());
}

#[test]
fn zip_handle_pools_grow_with_large_archives() {
    assert_eq!(handle_pool_size(10, 8), 1);
    assert_eq!(handle_pool_size(256, 1), 2);
    assert_eq!(handle_pool_size(1000, 4), 8);
    assert_eq!(handle_pool_size(1000, 64), ZIP_HANDLE_POOL_MAX);
    assert_eq!(handle_pool_size(1000, usize::MAX), ZIP_HANDLE_POOL_MAX);
    assert_eq!(zip_handle_pool_size(3), 1);
    let n = zip_handle_pool_size(5000);
    assert!(n >= 2 && n <= ZIP_HANDLE_POOL_MAX);
}

#[test]
fn exif_fields_are_read_from_tiff_data() {
    let mut tiff = b"II\x2a\x00\x08\x00\x00\x00".to_vec();
    tiff.extend_from_slice(&1u16.to_le_bytes());
    tiff.extend_from_slice(&0x010fu16.to_le_bytes());
    tiff.extend_from_slice(&2u16.to_le_bytes());
    tiff.extend_from_slice(&6u32.to_le_bytes());
    tiff.extend_from_slice(&26u32.to_le_bytes());
    tiff.extend_from_slice(&0u32.to_le_bytes());
    tiff.extend_from_slice(b"Canon\0");
    let summary = extract_exif_summary(&tiff).expect("a summary");
    assert!(summary.camera.as_deref().unwrap_or("").contains("Canon"));
    assert!(summary.lens.is_none());
    assert!(summary.iso.is_none());
}

#[test]
fn truncated_ispe_boxes_are_detected() {
    let mut data = vec![0, 0, 0, 16];
    data.extend_from_slice(b"ftypavif");
    data.extend_from_slice(&[0, 0, 0, 0]);
    data.extend_from_slice(&[0, 0, 0, 20]);
    data.extend_from_slice(b"ispe");
    data.extend_from_slice(&[0, 0, 0, 0, 0, 0, 1, 0]);
    assert_eq!(parse_isobmff_dimensions(&data), None);
    assert!(probe_image_metadata(&data, None).is_none());
    let cut = [0u8, 0, 0, 16, b'i', b's', b'p', b'e', 0, 0, 0, 0, 0, 0, 1, 0];
    assert_eq!(parse_isobmff_dimensions(&cut), None);
    let mut short_meta = vec![0, 0, 0, 10];
    short_meta.extend_from_slice(b"meta\0\0");
    assert_eq!(parse_isobmff_dimensions(&short_meta), None);
    assert_eq!(parse_isobmff_dimensions(&avif_with_ispe(2, 2)), Some((2, 2)));
}
