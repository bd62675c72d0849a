//! When to show the page the reader is heading to: a page is committed once its
//! textures (the whole spread, in dual layout) are uploaded; while navigating fast, the
//! furthest ready page on the way is shown first.
use crate::document::LogicalSpread;
use crate::types::LayoutMode;
use vstd::prelude::*;

verus! {

/// Whether spread `s` shows page `p`.
pub open spec fn shows(s: LogicalSpread, p: usize) -> bool {
    s.left == Some(p) || s.right == Some(p)
}

/// Position of the first spread that shows page `p`.
pub open spec fn is_first_spread_of(spreads: Seq<LogicalSpread>, p: usize, i: int) -> bool {
    &&& 0 <= i < spreads.len()
    &&& shows(spreads[i], p)
    &&& forall|k: int| 0 <= k < i ==> !shows(spreads[k], p)
}

/// Whether the page in a slot, if any, has its texture.
pub open spec fn slot_loaded(slot: Option<usize>, loaded: Seq<usize>) -> bool {
    match slot {
        Some(q) => loaded.contains(q),
        None => true,
    }
}

/// Whether page `p` can be shown: in dual layout, when a spread of the document shows
/// it, every page of the first such spread has its texture; otherwise `p` has its own.
pub open spec fn spread_ready(
    mode: LayoutMode,
    spreads: Option<Seq<LogicalSpread>>,
    loaded: Seq<usize>,
    p: usize,
) -> bool {
    match (mode, spreads) {
        (LayoutMode::Dual { .. }, Some(sp)) => if exists|i: int| is_first_spread_of(sp, p, i) {
            let i = choose|i: int| is_first_spread_of(sp, p, i);
            slot_loaded(sp[i].left, loaded) && slot_loaded(sp[i].right, loaded)
        } else {
            loaded.contains(p)
        },
        _ => loaded.contains(p),
    }
}

/// Whether page `p` lies on the way from `current` (excluded) to `pending` (included).
pub open spec fn on_the_way(current: usize, pending: usize, p: usize) -> bool {
    if current < pending {
        current < p <= pending
    } else {
        pending <= p < current
    }
}

/// Whether page `p` is a page on the way that is loaded and ready.
pub open spec fn chase_candidate(
    current: usize,
    pending: usize,
    mode: LayoutMode,
    spreads: Option<Seq<LogicalSpread>>,
    loaded: Seq<usize>,
    p: usize,
) -> bool {
    loaded.contains(p) && on_the_way(current, pending, p) && spread_ready(mode, spreads, loaded, p)
}

/// The page to commit and whether the pending target is then reached.
#[derive(Debug, Clone, Copy, PartialEq, Eq, Structural)]
pub struct NavigationCommit {
    pub page: usize,
    pub reaches_pending: bool,
}

/// The view of optional spreads.
pub open spec fn spreads_view(spreads: Option<&[LogicalSpread]>) -> Option<Seq<LogicalSpread>> {
    match spreads {
        Some(s) => Some(s@),
        None => None,
    }
}

/// Position of the first spread that shows page `p`, if any.
fn first_spread_of(spreads: &[LogicalSpread], p: usize) -> (r: Option<usize>)
    ensures
        match r {
            Some(i) => is_first_spread_of(spreads@, p, i as int),
            None => forall|i: int| !is_first_spread_of(spreads@, p, i),
        },
{
    let mut i: usize = 0;
    while i < spreads.len()
        invariant
            i <= spreads@.len(),
            forall|k: int| 0 <= k < i ==> !shows(spreads@[k], p),
        decreases spreads@.len() - i,
    {
        let s = spreads[i];
        if s.left == Some(p) || s.right == Some(p) {
            return Some(i);
        }
        i = i + 1;
    }
    proof {
        assert forall|j: int| !is_first_spread_of(spreads@, p, j) by {
            if 0 <= j < spreads@.len() {
                assert(!shows(spreads@[j], p));
            }
        }
    }
    None
}

/// Whether page `q` has its texture.
fn has_page(loaded: &[usize], q: usize) -> (r: bool)
    ensures
        r == loaded@.contains(q),
{
    let mut i: usize = 0;
    while i < loaded.len()
        invariant
            i <= loaded@.len(),
            forall|k: int| 0 <= k < i ==> loaded@[k] != q,
        decreases loaded@.len() - i,
    {
        if loaded[i] == q {
            assert(loaded@[i as int] == q);
            return true;
        }
        i = i + 1;
    }
    false
}

/// Whether page `page_id` can be shown, given the pages whose textures are uploaded.
pub fn is_spread_ready(
    mode: LayoutMode,
    spreads: Option<&[LogicalSpread]>,
    loaded: &[usize],
    page_id: usize,
) -> (r: bool)
    ensures
        r == spread_ready(mode, spreads_view(spreads), loaded@, page_id),
{
    match (mode, spreads) {
        (LayoutMode::Dual { .. }, Some(sp)) => {
            match first_spread_of(sp, page_id) {
                Some(i) => {
                    proof {
                        let j = choose|j: int| is_first_spread_of(sp@, page_id, j);
                        if j < i {
                            assert(!shows(sp@[j], page_id));
                        }
                        if j > i {
                            assert(!shows(sp@[i as int], page_id));
                        }
                    }
                    let s = sp[i];
                    let left_ready = match s.left {
                        Some(q) => has_page(loaded, q),
                        None => true,
                    };
                    let right_ready = match s.right {
                        Some(q) => has_page(loaded, q),
                        None => true,
                    };
                    left_ready && right_ready
                },
                None => has_page(loaded, page_id),
            }
        },
        _ => has_page(loaded, page_id),
    }
}

/// The furthest loaded, ready page on the way from `current` to `pending`: the
/// largest such page moving forward, the smallest moving back.
pub fn furthest_ready_page(
    current: usize,
    pending: usize,
    mode: LayoutMode,
    spreads: Option<&[LogicalSpread]>,
    loaded: &[usize],
) -> (r: Option<usize>)
    requires
        current != pending,
    ensures
        match r {
            Some(x) => {
                &&& chase_candidate(current, pending, mode, spreads_view(spreads), loaded@, x)
                &&& forall|y: usize|
                    chase_candidate(current, pending, mode, spreads_view(spreads), loaded@, y)
                        ==> (if current < pending {
                        y <= x
                    } else {
                        x <= y
                    })
            },
            None => forall|y: usize|
                !chase_candidate(current, pending, mode, spreads_view(spreads), loaded@, y),
        },
{
    let ghost sv = spreads_view(spreads);
    let mut best: Option<usize> = None;
    let mut i: usize = 0;
    while i < loaded.len()
        invariant
            i <= loaded@.len(),
            sv == spreads_view(spreads),
            current != pending,
            match best {
                Some(x) => {
                    &&& chase_candidate(current, pending, mode, sv, loaded@, x)
                    &&& forall|k: int|
                        0 <= k < i && chase_candidate(current, pending, mode, sv, loaded@, #[trigger] loaded@[k])
                            ==> (if current < pending {
                            loaded@[k] <= x
                        } else {
                            x <= loaded@[k]
                        })
                },
                None => forall|k: int|
                    0 <= k < i ==> !chase_candidate(current, pending, mode, sv, loaded@, #[trigger] loaded@[k]),
            },
        decreases loaded@.len() - i,
    {
        let p = loaded[i];
        let in_range = if current < pending {
            current < p && p <= pending
        } else {
            pending <= p && p < current
        };
        if in_range && is_spread_ready(mode, spreads, loaded, p) {
            assert(loaded@.contains(p)) by {
                assert(loaded@[i as int] == p);
            }
            best = match best {
                None => Some(p),
                Some(prev) => if current < pending {
                    if p > prev {
                        Some(p)
                    } else {
                        Some(prev)
                    }
                } else {
                    if p < prev {
                        Some(p)
                    } else {
                        Some(prev)
                    }
                },
            };
        }
        i = i + 1;
    }
    proof {
        assert forall|y: usize|
            chase_candidate(current, pending, mode, sv, loaded@, y) implies match best {
                Some(x) => if current < pending {
                    y <= x
                } else {
                    x <= y
                },
                None => false,
            } by {
            let k = choose|k: int| 0 <= k < loaded@.len() && loaded@[k] == y;
            assert(chase_candidate(current, pending, mode, sv, loaded@, loaded@[k]));
        }
    }
    best
}

/// What to commit: while heading from `current` to a different `pending` page, the
/// furthest ready page on the way; failing that, `pending` itself once it is ready;
/// else nothing.
pub fn commit_decision(
    current: Option<usize>,
    pending: Option<usize>,
    mode: LayoutMode,
    spreads: Option<&[LogicalSpread]>,
    loaded: &[usize],
) -> (r: Option<NavigationCommit>)
    ensures
        match pending {
            None => r is None,
            Some(p) => if current matches Some(c) && c != p && exists|y: usize|
                chase_candidate(c, p, mode, spreads_view(spreads), loaded@, y) {
                let c = current.unwrap();
                &&& r matches Some(cm) && chase_candidate(
                    c,
                    p,
                    mode,
                    spreads_view(spreads),
                    loaded@,
                    cm.page,
                )
                &&& forall|y: usize|
                    chase_candidate(c, p, mode, spreads_view(spreads), loaded@, y) ==> (if c < p {
                        y <= r.unwrap().page
                    } else {
                        r.unwrap().page <= y
                    })
                &&& r.unwrap().reaches_pending == (r.unwrap().page == p)
            } else if spread_ready(mode, spreads_view(spreads), loaded@, p) {
                r == Some(NavigationCommit { page: p, reaches_pending: true })
            } else {
                r is None
            },
        },
{
    match (current, pending) {
        (Some(c), Some(p)) => {
            if c != p {
                match furthest_ready_page(c, p, mode, spreads, loaded) {
                    Some(x) => {
                        return Some(NavigationCommit { page: x, reaches_pending: x == p });
                    },
                    None => {},
                }
            }
        },
        _ => {},
    }
    match pending {
        Some(p) => if is_spread_ready(mode, spreads, loaded, p) {
            Some(NavigationCommit { page: p, reaches_pending: true })
        } else {
            None
        },
        None => None,
    }
}

/// Which pages are on the way: heading up from `current` to `pending`, the pages above
/// `current` up to `pending`; heading down, the pages below `current` down to `pending`;
/// the current page itself never.
pub proof fn law_on_the_way(current: usize, pending: usize, p: usize)
    ensures
        current < pending ==> (on_the_way(current, pending, p) <==> current < p && p <= pending),
        current > pending ==> (on_the_way(current, pending, p) <==> pending <= p && p < current),
        !on_the_way(current, pending, current),
{
}

/// When a page is ready to show: outside the dual layout (or without spreads) exactly when
/// its own texture is uploaded; in the dual layout, for a page that a spread shows, exactly
/// when every page of the first spread that shows it is uploaded, so the page's own texture
/// among them.
pub proof fn law_ready_pages(
    mode: LayoutMode,
    spreads: Seq<LogicalSpread>,
    loaded: Seq<usize>,
    p: usize,
    i: int,
)
    ensures
        !(mode is Dual) ==> (spread_ready(mode, Some(spreads), loaded, p) <==> loaded.contains(p)),
        spread_ready(mode, None, loaded, p) <==> loaded.contains(p),
        mode is Dual && is_first_spread_of(spreads, p, i) ==> (spread_ready(
            mode,
            Some(spreads),
            loaded,
            p,
        ) <==> ((spreads[i].left matches Some(a) ==> loaded.contains(a)) && (spreads[i].right matches Some(
            b,
        ) ==> loaded.contains(b)))),
        mode is Dual && is_first_spread_of(spreads, p, i) && spread_ready(mode, Some(spreads), loaded, p)
            ==> loaded.contains(p),
{
    if mode is Dual && is_first_spread_of(spreads, p, i) {
        let j = choose|j: int| is_first_spread_of(spreads, p, j);
        if j < i {
            assert(!shows(spreads[j], p));
        }
        if i < j {
            assert(!shows(spreads[i], p));
        }
        assert(j == i);
    }
    match mode {
        LayoutMode::Dual { .. } => {},
        _ => {},
    }
}

} // verus!
