use hinaview::document::spread_builder::build_spreads;
use hinaview::document::PageMeta;
use hinaview::types::LayoutMode;

fn page(index: usize) -> PageMeta {
    PageMeta {
        index,
        name: format!("page_{}", index),
        format_label: "Unknown".to_string(),
        file_size_bytes: None,
        width: 1000,
        height: 1500,
        metadata_probe_failed: false,
        is_wide: false,
        is_animated: false,
        icc_profile: None,
        exif_camera: None,
        exif_lens: None,
        exif_f_stop: None,
        exif_shutter: None,
        exif_iso: None,
        exif_datetime: None,
    }
}

#[test]
fn dual_ltr_pairs_pages_normally() {
    let pages = vec![page(1), page(2), page(3), page(4)];
    let spreads = build_spreads(&pages, LayoutMode::Dual { rtl: false, first_page_offset: false });
    assert_eq!(spreads.len(), 2);
    assert_eq!(spreads[0].left, Some(1));
    assert_eq!(spreads[0].right, Some(2));
    assert_eq!(spreads[1].left, Some(3));
    assert_eq!(spreads[1].right, Some(4));
}

#[test]
fn dual_ltr_with_offset_places_first_page_on_right_slot() {
    let pages = vec![page(1), page(2), page(3), page(4)];
    let spreads = build_spreads(&pages, LayoutMode::Dual { rtl: false, first_page_offset: true });
    assert_eq!(spreads[0].left, None);
    assert_eq!(spreads[0].right, Some(1));
    assert_eq!(spreads[1].left, Some(2));
    assert_eq!(spreads[1].right, Some(3));
}

#[test]
fn wide_or_animated_pages_are_forced_to_single_spread() {
    let mut p5 = page(5);
    p5.is_wide = true;
    let mut p8 = page(8);
    p8.is_animated = true;
    let pages = vec![page(1), page(2), page(3), page(4), p5, page(6), page(7), p8];
    let spreads = build_spreads(&pages, LayoutMode::Dual { rtl: false, first_page_offset: false });
    assert_eq!(spreads[0].left, Some(1));
    assert_eq!(spreads[0].right, Some(2));
    assert_eq!(spreads[1].left, Some(3));
    assert_eq!(spreads[1].right, Some(4));
    assert_eq!(spreads[2].left, Some(5));
    assert_eq!(spreads[2].right, None);
    assert_eq!(spreads[3].left, Some(6));
    assert_eq!(spreads[3].right, Some(7));
    assert_eq!(spreads[4].left, Some(8));
    assert_eq!(spreads[4].right, None);
}

#[test]
fn dual_rtl_mirrors_the_ltr_slots() {
    let pages = vec![page(0), page(1), page(2)];
    let ltr = build_spreads(&pages, LayoutMode::Dual { rtl: false, first_page_offset: false });
    let rtl = build_spreads(&pages, LayoutMode::Dual { rtl: true, first_page_offset: false });
    assert_eq!(ltr.len(), rtl.len());
    for (a, b) in ltr.iter().zip(rtl.iter()) {
        assert_eq!(a.left, b.right);
        assert_eq!(a.right, b.left);
    }
    assert_eq!(rtl[0].left, Some(1));
    assert_eq!(rtl[0].right, Some(0));
    assert_eq!(rtl[1].left, None);
    assert_eq!(rtl[1].right, Some(2));
}

#[test]
fn single_and_scroll_layouts_show_one_page_each() {
    let pages = vec![page(0), page(1), page(2)];
    for mode in [LayoutMode::Single, LayoutMode::VerticalScroll] {
        let spreads = build_spreads(&pages, mode);
        assert_eq!(spreads.len(), 3);
        for (i, s) in spreads.iter().enumerate() {
            assert_eq!(s.left, Some(i));
            assert_eq!(s.right, None);
        }
    }
    let none: Vec<PageMeta> = Vec::new();
    assert!(build_spreads(&none, LayoutMode::Dual { rtl: false, first_page_offset: true }).is_empty());
}

#[test]
fn dual_spreads_show_one_or_two_pages_and_offset_cover_stands_alone() {
    let mut p2 = page(2);
    p2.is_wide = true;
    let pages = vec![page(0), page(1), p2, page(3), page(4), page(5)];
    let spreads = build_spreads(&pages, LayoutMode::Dual { rtl: true, first_page_offset: true });
    for s in &spreads {
        assert!(s.left.is_some() || s.right.is_some());
    }
    assert_eq!(spreads[0].left, Some(0));
    assert_eq!(spreads[0].right, None);
    // page 1 is followed by a wide page, so it stands alone as well
    assert_eq!(spreads[1].left, None);
    assert_eq!(spreads[1].right, Some(1));
    assert_eq!(spreads[2].left, None);
    assert_eq!(spreads[2].right, Some(2));
    assert_eq!(spreads[3].left, Some(4));
    assert_eq!(spreads[3].right, Some(3));
    assert_eq!(spreads[4].left, None);
    assert_eq!(spreads[4].right, Some(5));
    assert_eq!(spreads.len(), 5);
}

#[test]
fn wide_page_stands_alone_by_position_even_with_a_repeated_index() {
    let mut wide = page(0);
    wide.is_wide = true;
    let pages = vec![wide, page(0), page(1)];
    let spreads = build_spreads(&pages, LayoutMode::Dual { rtl: false, first_page_offset: false });
    assert_eq!(spreads.len(), 2);
    assert_eq!(spreads[0].left, Some(0));
    assert_eq!(spreads[0].right, None);
    assert_eq!(spreads[1].left, Some(0));
    assert_eq!(spreads[1].right, Some(1));
}
