//! Where the commands to go to the first or the last page lead, in each layout.
use crate::document::LogicalSpread;
use crate::types::LayoutMode;
use vstd::prelude::*;

verus! {

/// How a jump is carried out.
#[derive(Debug, Clone, Copy, PartialEq, Eq, Structural)]
pub enum PageJump {
    /// Scroll the vertical strip to this page.
    ScrollTo(usize),
    /// Go to this page directly.
    To(usize),
    /// Step this many pages from the current one.
    Step(i32),
}

/// The first page: the top of the strip in vertical scroll; in dual layout the first
/// spread's left page (else its right page, else page 0); otherwise a step back by the
/// current page's number.
pub open spec fn first_jump(mode: LayoutMode, spreads: Option<Seq<LogicalSpread>>, current: Option<usize>) -> PageJump {
    if mode == LayoutMode::VerticalScroll {
        PageJump::ScrollTo(0)
    } else if mode is Dual && spreads is Some && spreads.unwrap().len() > 0 {
        let s = spreads.unwrap()[0];
        PageJump::To(
            match s.left {
                Some(p) => p,
                None => match s.right {
                    Some(q) => q,
                    None => 0,
                },
            },
        )
    } else {
        let c = match current {
            Some(c) => c,
            None => 0,
        };
        PageJump::Step((-((c as i32) as int)) as i32)
    }
}

/// The view of optional spreads.
pub open spec fn spreads_opt(spreads: Option<&[LogicalSpread]>) -> Option<Seq<LogicalSpread>> {
    match spreads {
        Some(s) => Some(s@),
        None => None,
    }
}

/// Where the command to go to the first page leads.
pub fn first_page_jump(mode: LayoutMode, spreads: Option<&[LogicalSpread]>, current: Option<usize>) -> (r: PageJump)
    requires
        current matches Some(c) ==> (c as i32) != i32::MIN,
    ensures
        r == first_jump(mode, spreads_opt(spreads), current),
{
    if let LayoutMode::VerticalScroll = mode {
        return PageJump::ScrollTo(0);
    }
    if let LayoutMode::Dual { .. } = mode {
        if let Some(sp) = spreads {
            if sp.len() > 0 {
                let s = sp[0];
                let target = match s.left {
                    Some(p) => p,
                    None => match s.right {
                        Some(q) => q,
                        None => 0,
                    },
                };
                return PageJump::To(target);
            }
        }
    }
    let c = match current {
        Some(c) => c,
        None => 0,
    };
    PageJump::Step(-(c as i32))
}

/// The last page of a document of `page_count` pages: the bottom of the strip in vertical
/// scroll; in dual layout the last spread's right page (its left page reading right to
/// left), else its other page, else the last page; otherwise a step forward by the
/// distance from the current page. No document, nothing.
pub open spec fn last_jump(
    mode: LayoutMode,
    document: Option<(Seq<LogicalSpread>, usize)>,
    current: Option<usize>,
) -> Option<PageJump> {
    match document {
        None => None,
        Some((spreads, count)) => if mode == LayoutMode::VerticalScroll {
            if count == 0 {
                None
            } else {
                Some(PageJump::ScrollTo((count - 1) as usize))
            }
        } else if mode is Dual && spreads.len() > 0 {
            let s = spreads.last();
            let (first, second) = if mode->rtl {
                (s.left, s.right)
            } else {
                (s.right, s.left)
            };
            Some(
                PageJump::To(
                    match first {
                        Some(p) => p,
                        None => match second {
                            Some(q) => q,
                            None => (count - 1) as usize,
                        },
                    },
                ),
            )
        } else {
            let last = if count == 0 {
                0usize
            } else {
                (count - 1) as usize
            };
            let c = match current {
                Some(c) => c,
                None => 0,
            };
            Some(PageJump::Step(((last as i32) - (c as i32)) as i32))
        },
    }
}

/// Whether the step from the current page to the last one fits in an `i32`.
pub open spec fn last_step_fits(count: usize, current: Option<usize>) -> bool {
    let last: usize = if count == 0 {
        0usize
    } else {
        (count - 1) as usize
    };
    let c: usize = match current {
        Some(c) => c,
        None => 0,
    };
    i32::MIN <= (last as i32) - (c as i32) <= i32::MAX
}

/// The view of an optional document.
pub open spec fn document_opt(document: Option<(&[LogicalSpread], usize)>) -> Option<(Seq<LogicalSpread>, usize)> {
    match document {
        Some((s, n)) => Some((s@, n)),
        None => None,
    }
}

/// Where the command to go to the last page leads.
pub fn last_page_jump(mode: LayoutMode, document: Option<(&[LogicalSpread], usize)>, current: Option<usize>) -> (r:
    Option<PageJump>)
    requires
        match document {
            Some((spreads, count)) => {
                &&& (mode is Dual && spreads@.len() > 0 && spreads@.last().left is None
                    && spreads@.last().right is None) ==> count > 0
                &&& (mode != LayoutMode::VerticalScroll && !(mode is Dual && spreads@.len() > 0))
                    ==> last_step_fits(count, current)
            },
            None => true,
        },
    ensures
        r == last_jump(mode, document_opt(document), current),
{
    let (spreads, count) = match document {
        Some(d) => d,
        None => return None,
    };
    if let LayoutMode::VerticalScroll = mode {
        if count == 0 {
            return None;
        }
        return Some(PageJump::ScrollTo(count - 1));
    }
    if let LayoutMode::Dual { rtl, .. } = mode {
        if spreads.len() > 0 {
            let s = spreads[spreads.len() - 1];
            let (first, second) = if rtl {
                (s.left, s.right)
            } else {
                (s.right, s.left)
            };
            let target = match first {
                Some(p) => p,
                None => match second {
                    Some(q) => q,
                    None => count - 1,
                },
            };
            return Some(PageJump::To(target));
        }
    }
    let last: usize = if count == 0 {
        0
    } else {
        count - 1
    };
    let c: usize = match current {
        Some(c) => c,
        None => 0,
    };
    Some(PageJump::Step((last as i32) - (c as i32)))
}

/// The first-page command lands on the first page: in vertical scroll the strip scrolls
/// to page 0; in the dual layout the jump goes to a page that the first spread shows; in
/// the single-page layout the step from the current page `c` goes back exactly `c` pages,
/// to page 0.
pub proof fn law_first_jump_lands_on_first(spreads: Seq<LogicalSpread>, c: usize, rtl: bool, offset: bool)
    requires
        c <= i32::MAX,
    ensures
        first_jump(LayoutMode::VerticalScroll, Some(spreads), Some(c)) == PageJump::ScrollTo(0),
        spreads.len() > 0 && (spreads[0].left is Some || spreads[0].right is Some) ==> (first_jump(
            LayoutMode::Dual { rtl, first_page_offset: offset },
            Some(spreads),
            Some(c),
        ) matches PageJump::To(t) && (spreads[0].left == Some(t) || spreads[0].right == Some(t))),
        first_jump(LayoutMode::Single, Some(spreads), Some(c)) matches PageJump::Step(st) && c + st
            == 0,
        first_jump(LayoutMode::Single, None, None) == PageJump::Step(0),
{
}

/// The last-page command lands on the last page: with no document nothing happens; in
/// vertical scroll the strip scrolls to page `count - 1` (nothing for an empty document);
/// in the dual layout the jump goes to the page of the last spread that is read last
/// (the right one reading left to right, the left one reading right to left, or the only
/// one shown); in the single-page layout the step from page `c` ends on page `count - 1`.
pub proof fn law_last_jump_lands_on_last(
    spreads: Seq<LogicalSpread>,
    count: usize,
    c: usize,
    rtl: bool,
    offset: bool,
)
    requires
        count <= i32::MAX,
        c <= i32::MAX,
    ensures
        last_jump(LayoutMode::Single, None, Some(c)) is None,
        count > 0 ==> last_jump(LayoutMode::VerticalScroll, Some((spreads, count)), Some(c)) == Some(
            PageJump::ScrollTo((count - 1) as usize),
        ),
        count == 0 ==> last_jump(LayoutMode::VerticalScroll, Some((spreads, count)), Some(c)) is None,
        spreads.len() > 0 && (spreads.last().left is Some || spreads.last().right is Some) ==> (last_jump(
            LayoutMode::Dual { rtl, first_page_offset: offset },
            Some((spreads, count)),
            Some(c),
        ) matches Some(PageJump::To(t)) && t == (if rtl {
            if spreads.last().left is Some { spreads.last().left->0 } else { spreads.last().right->0 }
        } else {
            if spreads.last().right is Some { spreads.last().right->0 } else { spreads.last().left->0 }
        })),
        count > 0 ==> (last_jump(LayoutMode::Single, Some((spreads, count)), Some(c)) matches Some(
            PageJump::Step(st),
        ) && c + st == count - 1),
{
}

} // verus!
