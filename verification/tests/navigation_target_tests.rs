use hinaview::document::LogicalSpread;
use hinaview::navigation_targets::{first_page_jump, last_page_jump, PageJump};
use hinaview::types::LayoutMode;

fn spreads() -> Vec<LogicalSpread> {
    vec![
        LogicalSpread { left: None, right: Some(0) },
        LogicalSpread { left: Some(1), right: Some(2) },
        LogicalSpread { left: Some(3), right: None },
    ]
}

#[test]
fn first_page_in_each_layout() {
    let sp = spreads();
    let dual = LayoutMode::Dual { rtl: false, first_page_offset: true };
    assert_eq!(first_page_jump(LayoutMode::VerticalScroll, Some(&sp), Some(5)), PageJump::ScrollTo(0));
    assert_eq!(first_page_jump(dual, Some(&sp), Some(3)), PageJump::To(0));
    assert_eq!(first_page_jump(LayoutMode::Single, Some(&sp), Some(3)), PageJump::Step(-3));
    assert_eq!(first_page_jump(dual, None, None), PageJump::Step(0));
}

#[test]
fn last_page_in_each_layout() {
    let sp = spreads();
    let ltr = LayoutMode::Dual { rtl: false, first_page_offset: true };
    let rtl = LayoutMode::Dual { rtl: true, first_page_offset: true };
    assert_eq!(last_page_jump(LayoutMode::VerticalScroll, Some((&sp, 4)), Some(0)), Some(PageJump::ScrollTo(3)));
    assert_eq!(last_page_jump(LayoutMode::VerticalScroll, Some((&sp, 0)), Some(0)), None);
    assert_eq!(last_page_jump(ltr, Some((&sp, 4)), Some(0)), Some(PageJump::To(3)));
    assert_eq!(last_page_jump(rtl, Some((&sp, 4)), Some(0)), Some(PageJump::To(3)));
    let pair = vec![LogicalSpread { left: Some(4), right: Some(5) }];
    assert_eq!(last_page_jump(ltr, Some((&pair, 6)), Some(0)), Some(PageJump::To(5)));
    assert_eq!(last_page_jump(rtl, Some((&pair, 6)), Some(0)), Some(PageJump::To(4)));
    assert_eq!(last_page_jump(LayoutMode::Single, Some((&sp, 4)), Some(1)), Some(PageJump::Step(2)));
    assert_eq!(last_page_jump(LayoutMode::Single, None, Some(1)), None);
}
