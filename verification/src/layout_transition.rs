//! Changing the page layout: the layout setting, what a change of layout entails, and the
//! largest video memory setting offered.
use crate::document::PageMeta;
use crate::types::LayoutMode;
use vstd::prelude::*;

verus! {

/// The layout as it is stored in the settings.
#[derive(Debug, Clone, Copy, PartialEq, Eq, Structural)]
pub enum LayoutModeSetting {
    Single,
    DualLtr,
    DualRtl,
    VerticalScroll,
}

/// The layout for a setting; dual layouts keep the first-page offset in use.
pub fn layout_from_setting(setting: LayoutModeSetting, first_page_offset: bool) -> (r: LayoutMode)
    ensures
        r == match setting {
            LayoutModeSetting::Single => LayoutMode::Single,
            LayoutModeSetting::DualLtr => LayoutMode::Dual { rtl: false, first_page_offset },
            LayoutModeSetting::DualRtl => LayoutMode::Dual { rtl: true, first_page_offset },
            LayoutModeSetting::VerticalScroll => LayoutMode::VerticalScroll,
        },
{
    match setting {
        LayoutModeSetting::Single => LayoutMode::Single,
        LayoutModeSetting::DualLtr => LayoutMode::Dual { rtl: false, first_page_offset },
        LayoutModeSetting::DualRtl => LayoutMode::Dual { rtl: true, first_page_offset },
        LayoutModeSetting::VerticalScroll => LayoutMode::VerticalScroll,
    }
}

/// The setting that stores a layout.
pub fn setting_for_layout(mode: LayoutMode) -> (r: LayoutModeSetting)
    ensures
        r == match mode {
            LayoutMode::Single => LayoutModeSetting::Single,
            LayoutMode::Dual { rtl, .. } => if rtl {
                LayoutModeSetting::DualRtl
            } else {
                LayoutModeSetting::DualLtr
            },
            LayoutMode::VerticalScroll => LayoutModeSetting::VerticalScroll,
        },
{
    match mode {
        LayoutMode::Single => LayoutModeSetting::Single,
        LayoutMode::Dual { rtl, .. } => {
            if rtl {
                LayoutModeSetting::DualRtl
            } else {
                LayoutModeSetting::DualLtr
            }
        },
        LayoutMode::VerticalScroll => LayoutModeSetting::VerticalScroll,
    }
}

/// Whether the current page of the open document is animated.
pub fn is_current_page_animated(pages: Option<&[PageMeta]>, current: Option<usize>) -> (r: bool)
    ensures
        r == (pages matches Some(ps) && current matches Some(c) && c < ps@.len() && ps@[c as int].is_animated),
{
    match (pages, current) {
        (Some(ps), Some(c)) => c < ps.len() && ps[c].is_animated,
        _ => false,
    }
}

/// What changing from layout `current` to `target` entails.
#[derive(Debug, Clone, Copy, PartialEq, Eq, Structural)]
pub struct LayoutTransition {
    /// The layout taken.
    pub layout: LayoutMode,
    /// The vertical scroll was refused for an animated page, and single layout taken.
    pub refused_scroll_for_animation: bool,
    /// Pages are about to be paired, so their sizes must be known first.
    pub entering_dual: bool,
    /// The view's rotation goes back to none (dual and vertical scroll are never rotated).
    pub reset_rotation: bool,
}

/// The transition from `current` to `target`: vertical scroll is refused on an animated
/// page (single layout instead); entering a dual layout from another asks for page sizes;
/// dual and vertical scroll reset the rotation.
pub open spec fn transition(current: LayoutMode, target: LayoutMode, animated: bool) -> LayoutTransition {
    let refused = target == LayoutMode::VerticalScroll && animated;
    let layout = if refused { LayoutMode::Single } else { target };
    LayoutTransition {
        layout,
        refused_scroll_for_animation: refused,
        entering_dual: !(current is Dual) && layout is Dual,
        reset_rotation: layout is Dual || layout == LayoutMode::VerticalScroll,
    }
}

/// Plans the change from layout `current` to `target`, the current page being animated
/// or not.
pub fn plan_layout_transition(current: LayoutMode, target: LayoutMode, current_page_animated: bool) -> (r:
    LayoutTransition)
    ensures
        r == transition(current, target, current_page_animated),
{
    let refused = matches!(target, LayoutMode::VerticalScroll) && current_page_animated;
    let layout = if refused {
        LayoutMode::Single
    } else {
        target
    };
    let entering_dual = !matches!(current, LayoutMode::Dual { .. }) && matches!(layout, LayoutMode::Dual { .. });
    let reset_rotation = matches!(layout, LayoutMode::Dual { .. }) || matches!(layout, LayoutMode::VerticalScroll);
    LayoutTransition { layout, refused_scroll_for_animation: refused, entering_dual, reset_rotation }
}

/// Whether the vertical scroll in use must give way to single layout because the current
/// page is animated.
pub fn must_leave_scroll_for_animation(mode: LayoutMode, current_page_animated: bool) -> (r: bool)
    ensures
        r == (mode == LayoutMode::VerticalScroll && current_page_animated),
{
    matches!(mode, LayoutMode::VerticalScroll) && current_page_animated
}

/// The largest video memory setting offered, in MB: half the capacity, at least 64, rounded
/// down to a multiple of 64.
pub fn max_gpu_setting_mb(vram_capacity_mb: usize) -> (r: usize)
    ensures
        r == (if vram_capacity_mb / 2 > 64 { vram_capacity_mb / 2 } else { 64 }) / 64 * 64,
        r % 64 == 0,
        64 <= r,
        2 * r <= vram_capacity_mb || r == 64,
{
    let half = vram_capacity_mb / 2;
    let floor = if half > 64 {
        half
    } else {
        64
    };
    floor / 64 * 64
}

/// What a layout change does: the target layout is taken, except that vertical scroll is
/// refused on an animated page and the single-page layout taken instead (and only then is
/// a refusal reported); page sizes are asked for exactly when a dual layout is entered from
/// one that is not; the rotation goes back to none exactly when the layout taken is not
/// the single-page one.
pub proof fn law_layout_transition(current: LayoutMode, target: LayoutMode, animated: bool)
    ensures
        ({
            let t = transition(current, target, animated);
            &&& !(target == LayoutMode::VerticalScroll && animated) ==> t.layout == target
                && !t.refused_scroll_for_animation
            &&& target == LayoutMode::VerticalScroll && animated ==> t.layout == LayoutMode::Single
                && t.refused_scroll_for_animation
            &&& t.entering_dual <==> (!(current is Dual) && t.layout is Dual)
            &&& t.reset_rotation <==> t.layout != LayoutMode::Single
        }),
{
}

} // verus!
