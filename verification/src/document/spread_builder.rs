//! Builds the spreads of a document from its pages and the layout mode.
use super::logical_spread::LogicalSpread;
use super::page_meta::PageMeta;
use crate::types::LayoutMode;
use vstd::prelude::*;

verus! {

/// A spread holding `first` (read first) and `second`, placed for the reading direction.
pub open spec fn place(first: Option<usize>, second: Option<usize>, rtl: bool) -> LogicalSpread {
    if rtl {
        LogicalSpread { left: second, right: first }
    } else {
        LogicalSpread { left: first, right: second }
    }
}

/// The spreads of the pages from position `i` on, two normal pages per spread.
pub open spec fn dual_from(pages: Seq<PageMeta>, i: int, rtl: bool) -> Seq<LogicalSpread>
    decreases pages.len() - i,
{
    if i < 0 || i >= pages.len() {
        Seq::empty()
    } else if pages[i].stands_alone() {
        seq![place(Some(pages[i].index), None, rtl)] + dual_from(pages, i + 1, rtl)
    } else if i + 1 < pages.len() {
        if pages[i + 1].stands_alone() {
            seq![place(Some(pages[i].index), None, rtl)] + dual_from(pages, i + 1, rtl)
        } else {
            seq![place(Some(pages[i].index), Some(pages[i + 1].index), rtl)] + dual_from(
                pages,
                i + 2,
                rtl,
            )
        }
    } else {
        seq![place(Some(pages[i].index), None, rtl)]
    }
}

/// The spread of the first page when it is offset (a cover shown on its own).
pub open spec fn offset_spread(first: PageMeta, rtl: bool) -> LogicalSpread {
    if first.stands_alone() {
        place(Some(first.index), None, rtl)
    } else {
        place(None, Some(first.index), rtl)
    }
}

/// The spreads of the dual layout.
pub open spec fn dual_spreads(pages: Seq<PageMeta>, rtl: bool, first_page_offset: bool) -> Seq<
    LogicalSpread,
> {
    if first_page_offset && pages.len() > 0 {
        seq![offset_spread(pages[0], rtl)] + dual_from(pages, 1, rtl)
    } else {
        dual_from(pages, 0, rtl)
    }
}

/// One spread per page, the page in the left slot.
pub open spec fn single_spreads(pages: Seq<PageMeta>) -> Seq<LogicalSpread> {
    Seq::new(pages.len(), |k: int| LogicalSpread { left: Some(pages[k].index), right: None })
}

/// The spreads of `pages` in layout `mode`.
pub open spec fn spreads_for(pages: Seq<PageMeta>, mode: LayoutMode) -> Seq<LogicalSpread> {
    match mode {
        LayoutMode::Single => single_spreads(pages),
        LayoutMode::Dual { rtl, first_page_offset } => dual_spreads(pages, rtl, first_page_offset),
        LayoutMode::VerticalScroll => single_spreads(pages),
    }
}

/// Constructs logical spreads based on the specified layout mode and page metadata.
pub fn build_spreads(pages: &[PageMeta], mode: LayoutMode) -> (spreads: Vec<LogicalSpread>)
    ensures
        spreads@ == spreads_for(pages@, mode),
{
    match mode {
        LayoutMode::Single => build_single_spreads(pages),
        LayoutMode::Dual { rtl, first_page_offset } => build_dual_spreads(
            pages,
            rtl,
            first_page_offset,
        ),
        LayoutMode::VerticalScroll => build_single_spreads(pages),
    }
}

fn build_single_spreads(pages: &[PageMeta]) -> (spreads: Vec<LogicalSpread>)
    ensures
        spreads@ == single_spreads(pages@),
{
    let mut spreads: Vec<LogicalSpread> = Vec::new();
    let mut i: usize = 0;
    while i < pages.len()
        invariant
            i <= pages@.len(),
            spreads@ == single_spreads(pages@).take(i as int),
        decreases pages@.len() - i,
    {
        spreads.push(LogicalSpread { left: Some(pages[i].index), right: None });
        i = i + 1;
        assert(spreads@ =~= single_spreads(pages@).take(i as int));
    }
    assert(single_spreads(pages@).take(i as int) =~= single_spreads(pages@));
    spreads
}

fn create_spread(idx1: Option<usize>, idx2: Option<usize>, rtl: bool) -> (s: LogicalSpread)
    ensures
        s == place(idx1, idx2, rtl),
{
    if rtl {
        LogicalSpread { left: idx2, right: idx1 }
    } else {
        LogicalSpread { left: idx1, right: idx2 }
    }
}

fn build_dual_spreads(pages: &[PageMeta], rtl: bool, first_page_offset: bool) -> (spreads: Vec<
    LogicalSpread,
>)
    ensures
        spreads@ == dual_spreads(pages@, rtl, first_page_offset),
{
    let ghost target = dual_spreads(pages@, rtl, first_page_offset);
    let mut spreads: Vec<LogicalSpread> = Vec::new();
    let mut i: usize = 0;
    let n = pages.len();
    if first_page_offset && n > 0 {
        let first = &pages[0];
        if first.is_wide || first.is_animated {
            spreads.push(create_spread(Some(first.index), None, rtl));
        } else {
            spreads.push(create_spread(None, Some(first.index), rtl));
        }
        i = 1;
    }
    assert(spreads@ + dual_from(pages@, i as int, rtl) =~= target);
    while i < n
        invariant
            n == pages@.len(),
            i <= n,
            spreads@ + dual_from(pages@, i as int, rtl) == target,
        decreases n - i,
    {
        let ghost before = spreads@;
        let p1 = &pages[i];
        if p1.is_wide || p1.is_animated {
            spreads.push(create_spread(Some(p1.index), None, rtl));
            i = i + 1;
        } else if i + 1 < n {
            let p2 = &pages[i + 1];
            if p2.is_wide || p2.is_animated {
                spreads.push(create_spread(Some(p1.index), None, rtl));
                i = i + 1;
            } else {
                spreads.push(create_spread(Some(p1.index), Some(p2.index), rtl));
                i = i + 2;
            }
        } else {
            spreads.push(create_spread(Some(p1.index), None, rtl));
            i = i + 1;
        }
        assert(spreads@ + dual_from(pages@, i as int, rtl) =~= target);
    }
    assert(spreads@ =~= target);
    spreads
}


/// The pages of an optional slot.
pub open spec fn slot_pages(slot: Option<usize>) -> Seq<usize> {
    match slot {
        Some(p) => seq![p],
        None => Seq::empty(),
    }
}

/// The pages of a spread in reading order: right to left when `rtl`.
pub open spec fn reading_order(s: LogicalSpread, rtl: bool) -> Seq<usize> {
    if rtl {
        slot_pages(s.right) + slot_pages(s.left)
    } else {
        slot_pages(s.left) + slot_pages(s.right)
    }
}

/// The pages met when reading the spreads one after another.
pub open spec fn read_through(spreads: Seq<LogicalSpread>, rtl: bool) -> Seq<usize>
    decreases spreads.len(),
{
    if spreads.len() == 0 {
        Seq::empty()
    } else {
        reading_order(spreads[0], rtl) + read_through(spreads.drop_first(), rtl)
    }
}

/// The indices of the pages, in order.
pub open spec fn page_indices(pages: Seq<PageMeta>) -> Seq<usize> {
    pages.map_values(|p: PageMeta| p.index)
}

/// The same spread seen from the other reading direction.
pub open spec fn mirrored(s: LogicalSpread) -> LogicalSpread {
    LogicalSpread { left: s.right, right: s.left }
}

/// Whether the layout reads right to left.
pub open spec fn reads_rtl(mode: LayoutMode) -> bool {
    match mode {
        LayoutMode::Dual { rtl, .. } => rtl,
        _ => false,
    }
}

proof fn lemma_read_through_cons(x: LogicalSpread, rest: Seq<LogicalSpread>, rtl: bool)
    ensures
        read_through(seq![x] + rest, rtl) == reading_order(x, rtl) + read_through(rest, rtl),
{
    assert((seq![x] + rest).drop_first() =~= rest);
    assert((seq![x] + rest)[0] == x);
}

proof fn lemma_dual_from_order(pages: Seq<PageMeta>, i: int, rtl: bool)
    requires
        0 <= i <= pages.len(),
    ensures
        read_through(dual_from(pages, i, rtl), rtl) == page_indices(pages.subrange(i, pages.len() as int)),
    decreases pages.len() - i,
{
    let rest = page_indices(pages.subrange(i, pages.len() as int));
    if i == pages.len() {
        assert(rest =~= Seq::<usize>::empty());
    } else if pages[i].stands_alone() || i + 1 == pages.len() || pages[i + 1].stands_alone() {
        lemma_dual_from_order(pages, i + 1, rtl);
        if i + 1 == pages.len() && !pages[i].stands_alone() {
            assert(dual_from(pages, i, rtl) == seq![place(Some(pages[i].index), None, rtl)]);
            assert(dual_from(pages, i, rtl) =~= seq![place(Some(pages[i].index), None, rtl)]
                + dual_from(pages, i + 1, rtl));
        }
        lemma_read_through_cons(place(Some(pages[i].index), None, rtl), dual_from(pages, i + 1, rtl), rtl);
        assert(rest =~= seq![pages[i].index] + page_indices(pages.subrange(i + 1, pages.len() as int)));
    } else {
        lemma_dual_from_order(pages, i + 2, rtl);
        lemma_read_through_cons(
            place(Some(pages[i].index), Some(pages[i + 1].index), rtl),
            dual_from(pages, i + 2, rtl),
            rtl,
        );
        assert(rest =~= seq![pages[i].index, pages[i + 1].index] + page_indices(
            pages.subrange(i + 2, pages.len() as int),
        ));
    }
}

proof fn lemma_single_order(pages: Seq<PageMeta>)
    ensures
        read_through(single_spreads(pages), false) == page_indices(pages),
    decreases pages.len(),
{
    if pages.len() == 0 {
        assert(page_indices(pages) =~= Seq::<usize>::empty());
    } else {
        lemma_single_order(pages.drop_first());
        assert(single_spreads(pages).drop_first() =~= single_spreads(pages.drop_first()));
        assert(page_indices(pages) =~= seq![pages[0].index] + page_indices(pages.drop_first()));
    }
}

/// Every page appears in exactly one spread, and reading the spreads in the layout's
/// reading direction meets the pages in document order.
pub proof fn law_spreads_keep_page_order(pages: Seq<PageMeta>, mode: LayoutMode)
    ensures
        read_through(spreads_for(pages, mode), reads_rtl(mode)) == page_indices(pages),
{
    match mode {
        LayoutMode::Dual { rtl, first_page_offset } => {
            if first_page_offset && pages.len() > 0 {
                lemma_dual_from_order(pages, 1, rtl);
                lemma_read_through_cons(offset_spread(pages[0], rtl), dual_from(pages, 1, rtl), rtl);
                assert(page_indices(pages) =~= seq![pages[0].index] + page_indices(
                    pages.subrange(1, pages.len() as int),
                ));
            } else {
                lemma_dual_from_order(pages, 0, rtl);
                assert(pages.subrange(0, pages.len() as int) =~= pages);
            }
        },
        _ => {
            lemma_single_order(pages);
        },
    }
}

proof fn lemma_dual_from_mirror(pages: Seq<PageMeta>, i: int)
    requires
        0 <= i,
    ensures
        dual_from(pages, i, true) == dual_from(pages, i, false).map_values(|s: LogicalSpread| mirrored(s)),
    decreases pages.len() - i,
{
    if i < pages.len() {
        if pages[i].stands_alone() || (i + 1 < pages.len() && pages[i + 1].stands_alone()) {
            lemma_dual_from_mirror(pages, i + 1);
        } else if i + 1 < pages.len() {
            lemma_dual_from_mirror(pages, i + 2);
        }
    }
    assert(dual_from(pages, i, true) =~= dual_from(pages, i, false).map_values(
        |s: LogicalSpread| mirrored(s),
    ));
}

/// The right-to-left dual layout is the left-to-right one with every spread mirrored.
pub proof fn law_rtl_mirrors_ltr(pages: Seq<PageMeta>, first_page_offset: bool)
    ensures
        dual_spreads(pages, true, first_page_offset) == dual_spreads(pages, false, first_page_offset).map_values(
            |s: LogicalSpread| mirrored(s),
        ),
{
    if first_page_offset && pages.len() > 0 {
        lemma_dual_from_mirror(pages, 1);
    } else {
        lemma_dual_from_mirror(pages, 0);
    }
    assert(dual_spreads(pages, true, first_page_offset) =~= dual_spreads(pages, false, first_page_offset).map_values(
        |s: LogicalSpread| mirrored(s),
    ));
}


/// Whether spread `s` shows two pages, the pages at positions `a` and `a + 1`,
/// neither of which stands alone.
pub open spec fn is_pair_of_normal_pages(pages: Seq<PageMeta>, s: LogicalSpread, a: int, rtl: bool) -> bool {
    &&& 0 <= a && a + 1 < pages.len()
    &&& !pages[a].stands_alone()
    &&& !pages[a + 1].stands_alone()
    &&& s == place(Some(pages[a].index), Some(pages[a + 1].index), rtl)
}

/// Whether a spread shows a page in both slots.
pub open spec fn shows_two(s: LogicalSpread) -> bool {
    s.left is Some && s.right is Some
}

proof fn lemma_dual_from_pairs(pages: Seq<PageMeta>, i: int, rtl: bool)
    requires
        0 <= i,
    ensures
        forall|k: int|
            0 <= k < dual_from(pages, i, rtl).len() && shows_two(#[trigger] dual_from(pages, i, rtl)[k])
                ==> exists|a: int| is_pair_of_normal_pages(pages, dual_from(pages, i, rtl)[k], a, rtl),
    decreases pages.len() - i,
{
    let d = dual_from(pages, i, rtl);
    if i < pages.len() {
        if pages[i].stands_alone() || (i + 1 < pages.len() && pages[i + 1].stands_alone()) {
            lemma_dual_from_pairs(pages, i + 1, rtl);
            let rest = dual_from(pages, i + 1, rtl);
            assert forall|k: int| 0 <= k < d.len() && shows_two(#[trigger] d[k]) implies exists|a: int|
                is_pair_of_normal_pages(pages, d[k], a, rtl) by {
                assert(k > 0);
                assert(d[k] == rest[k - 1]);
            }
        } else if i + 1 < pages.len() {
            lemma_dual_from_pairs(pages, i + 2, rtl);
            let rest = dual_from(pages, i + 2, rtl);
            assert forall|k: int| 0 <= k < d.len() && shows_two(#[trigger] d[k]) implies exists|a: int|
                is_pair_of_normal_pages(pages, d[k], a, rtl) by {
                if k == 0 {
                    assert(is_pair_of_normal_pages(pages, d[k], i, rtl));
                } else {
                    assert(d[k] == rest[k - 1]);
                }
            }
        }
    }
}

/// Whether no two pages carry the same index.
pub open spec fn indices_distinct(pages: Seq<PageMeta>) -> bool {
    forall|i: int, j: int|
        0 <= i < pages.len() && 0 <= j < pages.len() && i != j ==> #[trigger] pages[i].index
            != #[trigger] pages[j].index
}

/// Whether spread `s` shows the page with index `idx`.
pub open spec fn shows(s: LogicalSpread, idx: usize) -> bool {
    s.left == Some(idx) || s.right == Some(idx)
}

/// In the dual layout a wide or animated page is never paired: the spread that
/// shows it leaves its other slot empty.
pub proof fn law_lone_pages_stay_alone(pages: Seq<PageMeta>, rtl: bool, first_page_offset: bool)
    requires
        indices_distinct(pages),
    ensures
        forall|k: int, j: int|
            0 <= k < dual_spreads(pages, rtl, first_page_offset).len() && 0 <= j < pages.len()
                && pages[j].stands_alone() && shows(
                #[trigger] dual_spreads(pages, rtl, first_page_offset)[k],
                #[trigger] pages[j].index,
            ) ==> !shows_two(dual_spreads(pages, rtl, first_page_offset)[k]),
{
    let d = dual_spreads(pages, rtl, first_page_offset);
    let start: int = if first_page_offset && pages.len() > 0 { 1 } else { 0 };
    lemma_dual_from_pairs(pages, start, rtl);
    let rest = dual_from(pages, start, rtl);
    assert forall|k: int, j: int|
        0 <= k < d.len() && 0 <= j < pages.len() && pages[j].stands_alone() && shows(
            #[trigger] d[k],
            #[trigger] pages[j].index,
        ) implies !shows_two(d[k]) by {
        if shows_two(d[k]) {
            let r = if start == 1 { k - 1 } else { k };
            if start == 1 && k == 0 {
                assert(d[0] == offset_spread(pages[0], rtl));
            } else {
                assert(d[k] == rest[r]);
                let a = choose|a: int| is_pair_of_normal_pages(pages, rest[r], a, rtl);
                assert(is_pair_of_normal_pages(pages, rest[r], a, rtl));
                assert(pages[j].index == pages[a].index || pages[j].index == pages[a + 1].index);
                if pages[j].index == pages[a].index {
                    assert(j == a);
                } else {
                    assert(j == a + 1);
                }
            }
        }
    }
}

/// Whether a spread shows at least one page (it has two slots, so it shows one or two).
pub open spec fn shows_a_page(s: LogicalSpread) -> bool {
    s.left is Some || s.right is Some
}

/// Whether spread `s` shows the page at position `a` alone, and that page may stand
/// alone there: it is wide or animated, it is the last page, or the page after it is
/// wide or animated.
pub open spec fn is_allowed_single(pages: Seq<PageMeta>, s: LogicalSpread, a: int, rtl: bool) -> bool {
    &&& 0 <= a < pages.len()
    &&& s == place(Some(pages[a].index), None, rtl)
    &&& (pages[a].stands_alone() || a + 1 == pages.len() || pages[a + 1].stands_alone())
}

proof fn lemma_dual_from_shape(pages: Seq<PageMeta>, i: int, rtl: bool)
    requires
        0 <= i,
    ensures
        forall|k: int|
            0 <= k < dual_from(pages, i, rtl).len() ==> shows_a_page(
                #[trigger] dual_from(pages, i, rtl)[k],
            ) && (shows_two(dual_from(pages, i, rtl)[k]) || exists|a: int|
                i <= a && #[trigger] is_allowed_single(pages, dual_from(pages, i, rtl)[k], a, rtl)),
    decreases pages.len() - i,
{
    let d = dual_from(pages, i, rtl);
    if i < pages.len() {
        if pages[i].stands_alone() || (i + 1 < pages.len() && pages[i + 1].stands_alone()) {
            lemma_dual_from_shape(pages, i + 1, rtl);
            let rest = dual_from(pages, i + 1, rtl);
            assert forall|k: int| 0 <= k < d.len() implies shows_a_page(#[trigger] d[k]) && (
            shows_two(d[k]) || exists|a: int| i <= a && #[trigger] is_allowed_single(pages, d[k], a, rtl)) by {
                if k == 0 {
                    assert(is_allowed_single(pages, d[k], i, rtl));
                } else {
                    assert(d[k] == rest[k - 1]);
                    if !shows_two(d[k]) {
                        let a = choose|a: int| i + 1 <= a && #[trigger] is_allowed_single(pages, rest[k - 1], a, rtl);
                        assert(is_allowed_single(pages, d[k], a, rtl));
                    }
                }
            }
        } else if i + 1 < pages.len() {
            lemma_dual_from_shape(pages, i + 2, rtl);
            let rest = dual_from(pages, i + 2, rtl);
            assert forall|k: int| 0 <= k < d.len() implies shows_a_page(#[trigger] d[k]) && (
            shows_two(d[k]) || exists|a: int| i <= a && #[trigger] is_allowed_single(pages, d[k], a, rtl)) by {
                if k > 0 {
                    assert(d[k] == rest[k - 1]);
                    if !shows_two(d[k]) {
                        let a = choose|a: int| i + 2 <= a && #[trigger] is_allowed_single(pages, rest[k - 1], a, rtl);
                        assert(is_allowed_single(pages, d[k], a, rtl));
                    }
                }
            }
        } else {
            assert(d =~= seq![place(Some(pages[i].index), None, rtl)]);
            assert(is_allowed_single(pages, d[0], i, rtl));
        }
    }
}

/// The shape of the dual layout: every spread shows one or two pages; a spread that
/// shows one page holds either the offset first page (then it is spread 0) or a page that
/// is wide or animated, is the last page, or is followed by a wide or animated page.
/// With the offset on, spread 0 shows the first page and nothing else.
pub proof fn law_dual_spread_shape(pages: Seq<PageMeta>, rtl: bool, first_page_offset: bool)
    ensures
        forall|k: int|
            0 <= k < dual_spreads(pages, rtl, first_page_offset).len() ==> {
                let s = #[trigger] dual_spreads(pages, rtl, first_page_offset)[k];
                &&& shows_a_page(s)
                &&& shows_two(s) || (first_page_offset && k == 0) || exists|a: int|
                    #[trigger] is_allowed_single(pages, s, a, rtl)
            },
        first_page_offset && pages.len() > 0 ==> {
            let s0 = dual_spreads(pages, rtl, first_page_offset)[0];
            &&& shows(s0, pages[0].index)
            &&& !shows_two(s0)
        },
{
    let d = dual_spreads(pages, rtl, first_page_offset);
    if first_page_offset && pages.len() > 0 {
        lemma_dual_from_shape(pages, 1, rtl);
        let rest = dual_from(pages, 1, rtl);
        assert(d[0] == offset_spread(pages[0], rtl));
        assert forall|k: int| 0 <= k < d.len() implies {
            let s = #[trigger] d[k];
            &&& shows_a_page(s)
            &&& shows_two(s) || (first_page_offset && k == 0) || exists|a: int|
                #[trigger] is_allowed_single(pages, s, a, rtl)
        } by {
            if k > 0 {
                assert(d[k] == rest[k - 1]);
                if !shows_two(d[k]) {
                    let a = choose|a: int| 1 <= a && #[trigger] is_allowed_single(pages, rest[k - 1], a, rtl);
                    assert(is_allowed_single(pages, d[k], a, rtl));
                }
            }
        }
    } else {
        lemma_dual_from_shape(pages, 0, rtl);
        assert forall|k: int| 0 <= k < d.len() implies {
            let s = #[trigger] d[k];
            &&& shows_a_page(s)
            &&& shows_two(s) || (first_page_offset && k == 0) || exists|a: int|
                #[trigger] is_allowed_single(pages, s, a, rtl)
        } by {
            if !shows_two(d[k]) {
                let a = choose|a: int| 0 <= a && #[trigger] is_allowed_single(pages, d[k], a, rtl);
                assert(is_allowed_single(pages, d[k], a, rtl));
            }
        }
    }
}

/// The positions each spread of `dual_from(pages, i, rtl)` covers, as (first position,
/// number of pages).
pub open spec fn groups_from(pages: Seq<PageMeta>, i: int) -> Seq<(int, int)>
    decreases pages.len() - i,
{
    if i < 0 || i >= pages.len() {
        Seq::empty()
    } else if pages[i].stands_alone() || i + 1 >= pages.len() || pages[i + 1].stands_alone() {
        seq![(i, 1int)] + groups_from(pages, i + 1)
    } else {
        seq![(i, 2int)] + groups_from(pages, i + 2)
    }
}

/// The positions each spread of the dual layout covers, as (first position, number of pages).
pub open spec fn dual_groups(pages: Seq<PageMeta>, first_page_offset: bool) -> Seq<(int, int)> {
    if first_page_offset && pages.len() > 0 {
        seq![(0int, 1int)] + groups_from(pages, 1)
    } else {
        groups_from(pages, 0)
    }
}

/// The spread that shows the pages of group `g` (not the offset cover).
pub open spec fn group_spread(pages: Seq<PageMeta>, g: (int, int), rtl: bool) -> LogicalSpread {
    if g.1 == 2 {
        place(Some(pages[g.0].index), Some(pages[g.0 + 1].index), rtl)
    } else {
        place(Some(pages[g.0].index), None, rtl)
    }
}

/// Whether groups `g` cover positions `i` to `n` one after another, each of one or two
/// pages, and a group of two holds no page that stands alone.
pub open spec fn groups_tile(pages: Seq<PageMeta>, g: Seq<(int, int)>, i: int, n: int) -> bool {
    &&& g.len() == 0 <==> i == n
    &&& g.len() > 0 ==> g[0].0 == i && g.last().0 + g.last().1 == n
    &&& forall|k: int|
        #![trigger g[k]]
        0 <= k < g.len() ==> 1 <= g[k].1 <= 2 && i <= g[k].0 && g[k].0 + g[k].1 <= n && (g[k].1
            == 2 ==> !pages[g[k].0].stands_alone() && !pages[g[k].0 + 1].stands_alone())
    &&& forall|k: int| 0 < k < g.len() ==> #[trigger] g[k].0 == g[k - 1].0 + g[k - 1].1
}

proof fn lemma_groups_from(pages: Seq<PageMeta>, i: int, rtl: bool)
    requires
        0 <= i <= pages.len(),
    ensures
        groups_tile(pages, groups_from(pages, i), i, pages.len() as int),
        groups_from(pages, i).len() == dual_from(pages, i, rtl).len(),
        forall|k: int|
            0 <= k < groups_from(pages, i).len() ==> dual_from(pages, i, rtl)[k] == group_spread(
                pages,
                #[trigger] groups_from(pages, i)[k],
                rtl,
            ),
    decreases pages.len() - i,
{
    let g = groups_from(pages, i);
    let d = dual_from(pages, i, rtl);
    if i < pages.len() {
        let w: int = if pages[i].stands_alone() || i + 1 >= pages.len() || pages[i + 1].stands_alone() {
            1
        } else {
            2
        };
        lemma_groups_from(pages, i + w, rtl);
        let rg = groups_from(pages, i + w);
        let rd = dual_from(pages, i + w, rtl);
        assert(g == seq![(i, w)] + rg);
        if w == 1 && i + 1 >= pages.len() && !pages[i].stands_alone() {
            assert(rd.len() == 0);
            assert(d =~= seq![place(Some(pages[i].index), None, rtl)] + rd);
        }
        assert(d =~= seq![group_spread(pages, (i, w), rtl)] + rd);
        assert forall|k: int| #![trigger g[k]] 0 <= k < g.len() implies 1 <= g[k].1 <= 2 && i
            <= g[k].0 && g[k].0 + g[k].1 <= pages.len() && (g[k].1 == 2 ==> !pages[g[k].0].stands_alone()
            && !pages[g[k].0 + 1].stands_alone()) by {
            if k > 0 {
                assert(g[k] == rg[k - 1]);
            }
        }
        assert forall|k: int| 0 < k < g.len() implies #[trigger] g[k].0 == g[k - 1].0 + g[k - 1].1 by {
            assert(g[k] == rg[k - 1]);
            if k > 1 {
                assert(g[k - 1] == rg[k - 2]);
            }
        }
        assert forall|k: int| 0 <= k < g.len() implies d[k] == group_spread(
            pages,
            #[trigger] g[k],
            rtl,
        ) by {
            if k > 0 {
                assert(g[k] == rg[k - 1]);
                assert(d[k] == rd[k - 1]);
            }
        }
        if rg.len() > 0 {
            assert(g.last() == rg.last());
        }
    } else {
        assert(g.len() == 0);
    }
}

/// A wide or animated page stands alone, by position: the spreads of the dual layout
/// cover the pages one after another, each spread the pages of one group of one or two
/// consecutive positions, and a page that stands alone is the only page of its group. The
/// offset cover, when there is one, is group (0, 1) and spread 0.
pub proof fn law_lone_pages_alone_by_position(pages: Seq<PageMeta>, rtl: bool, first_page_offset: bool)
    ensures
        groups_tile(pages, dual_groups(pages, first_page_offset), 0, pages.len() as int),
        dual_groups(pages, first_page_offset).len() == dual_spreads(pages, rtl, first_page_offset).len(),
        forall|k: int|
            0 <= k < dual_groups(pages, first_page_offset).len() && !(first_page_offset && k == 0)
                ==> dual_spreads(pages, rtl, first_page_offset)[k] == group_spread(
                pages,
                #[trigger] dual_groups(pages, first_page_offset)[k],
                rtl,
            ),
        first_page_offset && pages.len() > 0 ==> dual_groups(pages, first_page_offset)[0] == (
        0int,
        1int,
        ) && dual_spreads(pages, rtl, first_page_offset)[0] == offset_spread(pages[0], rtl),
        forall|k: int, j: int|
            0 <= k < dual_groups(pages, first_page_offset).len() && #[trigger] dual_groups(
                pages,
                first_page_offset,
            )[k].0 <= j < dual_groups(pages, first_page_offset)[k].0 + dual_groups(
                pages,
                first_page_offset,
            )[k].1 && #[trigger] pages[j].stands_alone() ==> dual_groups(pages, first_page_offset)[k].1
                == 1,
{
    let g = dual_groups(pages, first_page_offset);
    let d = dual_spreads(pages, rtl, first_page_offset);
    if first_page_offset && pages.len() > 0 {
        lemma_groups_from(pages, 1, rtl);
        let rg = groups_from(pages, 1);
        let rd = dual_from(pages, 1, rtl);
        assert forall|k: int| #![trigger g[k]] 0 <= k < g.len() implies 1 <= g[k].1 <= 2 && 0
            <= g[k].0 && g[k].0 + g[k].1 <= pages.len() && (g[k].1 == 2 ==> !pages[g[k].0].stands_alone()
            && !pages[g[k].0 + 1].stands_alone()) by {
            if k > 0 {
                assert(g[k] == rg[k - 1]);
            }
        }
        assert forall|k: int| 0 < k < g.len() implies #[trigger] g[k].0 == g[k - 1].0 + g[k - 1].1 by {
            assert(g[k] == rg[k - 1]);
            if k > 1 {
                assert(g[k - 1] == rg[k - 2]);
            }
        }
        assert forall|k: int|
            0 <= k < g.len() && !(first_page_offset && k == 0) implies d[k] == group_spread(
            pages,
            #[trigger] g[k],
            rtl,
        ) by {
            assert(g[k] == rg[k - 1]);
            assert(d[k] == rd[k - 1]);
        }
        if rg.len() > 0 {
            assert(g.last() == rg.last());
        }
    } else {
        lemma_groups_from(pages, 0, rtl);
    }
    assert forall|k: int, j: int|
        0 <= k < g.len() && #[trigger] g[k].0 <= j < g[k].0 + g[k].1 && #[trigger] pages[j].stands_alone()
            implies g[k].1 == 1 by {
        assert(1 <= g[k].1 <= 2);
        if g[k].1 == 2 {
            assert(j == g[k].0 || j == g[k].0 + 1);
        }
    }
}

} // verus!
