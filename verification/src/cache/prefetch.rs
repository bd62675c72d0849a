//! Which pages to prefetch, and how strongly to protect the pages around the reader.
use crate::types::PageId;
use vstd::prelude::*;

verus! {

/// Number of pages a prefetch window looks ahead by default.
pub const DEFAULT_PREFETCH_COUNT: usize = 3;

/// Direction of navigation for prefetching.
#[derive(Debug, Clone, Copy, PartialEq, Eq)]
pub enum PrefetchDirection {
    /// Previous page (navigate backward)
    Previous,
    /// Next page (navigate forward)
    Next,
}

/// A page of the sliding window and its protection priority (0 is the strongest).
#[derive(Debug, Clone, PartialEq, Eq)]
pub struct SlidingWindowPriority {
    pub page_id: PageId,
    pub priority: usize,
}

/// The pages `compute_prefetch_pages` lists for the steps `1..=n`, nearest first.
pub open spec fn prefetch_steps(cur: int, direction: PrefetchDirection, n: nat, total: int) -> Seq<
    PageId,
>
    decreases n,
{
    if n == 0 {
        Seq::empty()
    } else {
        let prev = prefetch_steps(cur, direction, (n - 1) as nat, total);
        match direction {
            PrefetchDirection::Next => if cur + n < total {
                prev.push((cur + n) as usize)
            } else {
                prev
            },
            PrefetchDirection::Previous => if cur >= n {
                prev.push((cur - n) as usize)
            } else {
                prev
            },
        }
    }
}

/// The prefetch list of a document of `total` pages read at `cur`.
pub open spec fn prefetch_pages(cur: int, direction: PrefetchDirection, count: nat, total: int) -> Seq<
    PageId,
> {
    if total == 0 {
        Seq::empty()
    } else {
        prefetch_steps(cur, direction, count, total)
    }
}

/// Whether `compute_prefetch_pages` can compute every candidate without overflow.
pub open spec fn prefetch_fits(cur: int, direction: PrefetchDirection, count: int, total: int) -> bool {
    (total > 0 && direction == PrefetchDirection::Next && count > 0) ==> cur + count <= usize::MAX
}

/// The page `i` steps from `cur`, upward or downward, if it lies inside the document.
pub open spec fn step_page(cur: int, up: bool, i: int, total: int) -> Option<PageId> {
    if up {
        if cur + i < total {
            Some((cur + i) as usize)
        } else {
            None
        }
    } else {
        if i <= cur && cur - i < total {
            Some((cur - i) as usize)
        } else {
            None
        }
    }
}

/// The window entries for steps `1..=n` in one direction, with priorities `base + i`.
pub open spec fn window_side(cur: int, up: bool, n: nat, total: int, base: int) -> Seq<
    SlidingWindowPriority,
>
    decreases n,
{
    if n == 0 {
        Seq::empty()
    } else {
        let prev = window_side(cur, up, (n - 1) as nat, total, base);
        match step_page(cur, up, n as int, total) {
            Some(p) => prev.push(SlidingWindowPriority { page_id: p, priority: (base + n) as usize }),
            None => prev,
        }
    }
}

/// The prioritized window: the current page, then the pages ahead, then the pages behind.
pub open spec fn sliding_window(cur: int, direction: PrefetchDirection, count: nat, total: int) -> Seq<
    SlidingWindowPriority,
> {
    if total == 0 {
        Seq::empty()
    } else {
        seq![SlidingWindowPriority { page_id: cur as usize, priority: 0 }] + window_side(
            cur,
            ahead_is_up(direction),
            count,
            total,
            0,
        ) + window_side(cur, behind_is_up(direction), count, total, count as int)
    }
}

/// Whether the pages ahead of the reader have higher page numbers.
pub open spec fn ahead_is_up(direction: PrefetchDirection) -> bool {
    direction == PrefetchDirection::Next
}

/// Whether the pages behind the reader have higher page numbers.
pub open spec fn behind_is_up(direction: PrefetchDirection) -> bool {
    direction == PrefetchDirection::Previous
}

/// Whether every priority of the pages behind fits in a `usize`.
pub open spec fn window_fits(cur: int, direction: PrefetchDirection, count: int, total: int) -> bool {
    total > 0 ==> forall|i: int|
        1 <= i <= count && (#[trigger] step_page(cur, behind_is_up(direction), i, total)) is Some
            ==> count + i <= usize::MAX
}

proof fn lemma_prefetch_steps_bounds(cur: int, direction: PrefetchDirection, n: nat, total: int)
    requires
        0 <= cur <= usize::MAX,
        0 <= total <= usize::MAX,
    ensures
        prefetch_steps(cur, direction, n, total).len() <= n,
        forall|k: int|
            0 <= k < prefetch_steps(cur, direction, n, total).len() ==> {
                let p = #[trigger] prefetch_steps(cur, direction, n, total)[k];
                &&& p != cur
                &&& direction == PrefetchDirection::Next ==> cur < p < total && p <= cur + n
                &&& direction == PrefetchDirection::Previous ==> p < cur && cur - n <= p
            },
        forall|j: int, k: int|
            0 <= j < k < prefetch_steps(cur, direction, n, total).len() ==> {
                &&& direction == PrefetchDirection::Next ==> #[trigger] prefetch_steps(
                    cur,
                    direction,
                    n,
                    total,
                )[j] < #[trigger] prefetch_steps(cur, direction, n, total)[k]
                &&& direction == PrefetchDirection::Previous ==> prefetch_steps(
                    cur,
                    direction,
                    n,
                    total,
                )[j] > prefetch_steps(cur, direction, n, total)[k]
            },
    decreases n,
{
    if n > 0 {
        lemma_prefetch_steps_bounds(cur, direction, (n - 1) as nat, total);
        let prev = prefetch_steps(cur, direction, (n - 1) as nat, total);
        let s = prefetch_steps(cur, direction, n, total);
        assert forall|k: int| 0 <= k < prev.len() implies #[trigger] s[k] == prev[k] by {}
    }
}

/// Computes the pages to prefetch in the direction of navigation, nearest first.
///
/// A document of `total_pages` pages read at `current_index` gets the pages
/// `current_index + 1 ..= current_index + prefetch_count` that exist (forward),
/// or `current_index - 1`, `current_index - 2`, ... down to page 0 (backward).
pub fn compute_prefetch_pages(
    current_index: PageId,
    direction: PrefetchDirection,
    prefetch_count: usize,
    total_pages: usize,
) -> (result: Vec<PageId>)
    requires
        prefetch_fits(current_index as int, direction, prefetch_count as int, total_pages as int),
    ensures
        result@ == prefetch_pages(
            current_index as int,
            direction,
            prefetch_count as nat,
            total_pages as int,
        ),
        result@.len() <= prefetch_count,
        forall|k: int|
            0 <= k < result@.len() ==> {
                &&& #[trigger] result@[k] != current_index
                &&& direction == PrefetchDirection::Next ==> result@[k] < total_pages
                &&& direction == PrefetchDirection::Previous ==> result@[k] < current_index
            },
        forall|j: int, k: int|
            0 <= j < k < result@.len() ==> {
                &&& direction == PrefetchDirection::Next ==> #[trigger] result@[j]
                    < #[trigger] result@[k]
                &&& direction == PrefetchDirection::Previous ==> result@[j] > result@[k]
            },
{
    proof {
        lemma_prefetch_steps_bounds(
            current_index as int,
            direction,
            prefetch_count as nat,
            total_pages as int,
        );
    }
    if total_pages == 0 {
        return Vec::new();
    }
    let mut result: Vec<PageId> = Vec::new();
    let mut i: usize = 0;
    while i < prefetch_count
        invariant
            i <= prefetch_count,
            total_pages > 0,
            prefetch_fits(current_index as int, direction, prefetch_count as int, total_pages as int),
            result@ == prefetch_steps(current_index as int, direction, i as nat, total_pages as int),
        decreases prefetch_count - i,
    {
        let step = i + 1;
        match direction {
            PrefetchDirection::Next => {
                let page_idx = current_index + step;
                if page_idx < total_pages {
                    result.push(page_idx);
                }
            },
            PrefetchDirection::Previous => {
                if current_index >= step {
                    result.push(current_index - step);
                }
            },
        }
        i = step;
    }
    result
}

proof fn lemma_window_side_bounds(cur: int, up: bool, n: nat, total: int, base: int)
    requires
        0 <= cur <= usize::MAX,
        0 <= total <= usize::MAX,
        0 <= base,
        forall|i: int|
            1 <= i <= n && (#[trigger] step_page(cur, up, i, total)) is Some ==> base + i
                <= usize::MAX,
    ensures
        window_side(cur, up, n, total, base).len() <= n,
        forall|k: int|
            0 <= k < window_side(cur, up, n, total, base).len() ==> {
                let e = #[trigger] window_side(cur, up, n, total, base)[k];
                &&& e.page_id < total
                &&& e.page_id != cur
                &&& base < e.priority <= base + n
                &&& up ==> cur < e.page_id
                &&& !up ==> e.page_id < cur
            },
        forall|j: int, k: int|
            0 <= j < k < window_side(cur, up, n, total, base).len() ==> (#[trigger] window_side(
                cur,
                up,
                n,
                total,
                base,
            )[j]).priority < (#[trigger] window_side(cur, up, n, total, base)[k]).priority,
    decreases n,
{
    if n > 0 {
        lemma_window_side_bounds(cur, up, (n - 1) as nat, total, base);
        let prev = window_side(cur, up, (n - 1) as nat, total, base);
        let s = window_side(cur, up, n, total, base);
        assert forall|k: int| 0 <= k < prev.len() implies #[trigger] s[k] == prev[k] by {}
        if step_page(cur, up, n as int, total) is Some {
            assert(base + n <= usize::MAX);
        }
    }
}

/// Computes the window of pages around `current_index` with their protection priorities.
///
/// The current page comes first with priority 0, then the pages in the direction of
/// navigation with priorities `1..=N`, then the pages behind with priorities `N+1..=2N`,
/// each side nearest first and limited to the pages of the document.
pub fn compute_sliding_window_priorities(
    current_index: PageId,
    direction: PrefetchDirection,
    prefetch_count: usize,
    total_pages: usize,
) -> (results: Vec<SlidingWindowPriority>)
    requires
        window_fits(current_index as int, direction, prefetch_count as int, total_pages as int),
    ensures
        results@ == sliding_window(
            current_index as int,
            direction,
            prefetch_count as nat,
            total_pages as int,
        ),
        total_pages > 0 ==> results@.len() >= 1 && results@[0] == (SlidingWindowPriority {
            page_id: current_index,
            priority: 0,
        }),
        results@.len() <= 1 + 2 * prefetch_count,
        forall|j: int, k: int|
            0 <= j < k < results@.len() ==> (#[trigger] results@[j]).priority
                < (#[trigger] results@[k]).priority,
        forall|k: int|
            1 <= k < results@.len() ==> (#[trigger] results@[k]).page_id < total_pages
                && results@[k].page_id != current_index,
{
    let ghost cur = current_index as int;
    let ghost total = total_pages as int;
    let ghost count = prefetch_count as nat;
    if total_pages == 0 {
        return Vec::new();
    }
    let mut results: Vec<SlidingWindowPriority> = Vec::new();
    results.push(SlidingWindowPriority { page_id: current_index, priority: 0 });
    let forward_up = match direction {
        PrefetchDirection::Next => true,
        PrefetchDirection::Previous => false,
    };
    let ghost head = seq![SlidingWindowPriority { page_id: current_index, priority: 0 }];
    let mut i: usize = 0;
    while i < prefetch_count
        invariant
            i <= prefetch_count,
            forward_up == (direction == PrefetchDirection::Next),
            results@ == head + window_side(cur, forward_up, i as nat, total, 0),
            cur == current_index,
            total == total_pages,
        decreases prefetch_count - i,
    {
        let step = i + 1;
        let page_idx = if forward_up {
            current_index.checked_add(step)
        } else {
            current_index.checked_sub(step)
        };
        if let Some(idx) = page_idx {
            if idx < total_pages {
                results.push(SlidingWindowPriority { page_id: idx, priority: step });
            }
        }
        i = step;
    }
    let ghost after_forward = results@;
    let mut i: usize = 0;
    while i < prefetch_count
        invariant
            i <= prefetch_count,
            forward_up == (direction == PrefetchDirection::Next),
            window_fits(cur, direction, prefetch_count as int, total),
            total > 0,
            results@ == after_forward + window_side(
                cur,
                !forward_up,
                i as nat,
                total,
                prefetch_count as int,
            ),
            cur == current_index,
            total == total_pages,
        decreases prefetch_count - i,
    {
        let step = i + 1;
        let page_idx = if !forward_up {
            current_index.checked_add(step)
        } else {
            current_index.checked_sub(step)
        };
        if let Some(idx) = page_idx {
            if idx < total_pages {
                assert(step_page(cur, behind_is_up(direction), step as int, total) is Some);
                results.push(SlidingWindowPriority { page_id: idx, priority: prefetch_count + step });
            }
        }
        i = step;
    }
    proof {
        lemma_window_side_bounds(cur, forward_up, count, total, 0);
        lemma_window_side_bounds(cur, !forward_up, count, total, count as int);
        assert(forward_up == ahead_is_up(direction));
        assert(!forward_up == behind_is_up(direction));
        let a = window_side(cur, forward_up, count, total, 0);
        let b = window_side(cur, !forward_up, count, total, count as int);
        assert(results@ == head + a + b);
        assert forall|j: int, k: int| 0 <= j < k < results@.len() implies (
        #[trigger] results@[j]).priority < (#[trigger] results@[k]).priority by {
            if j == 0 {
                if k <= a.len() {
                    assert(results@[k] == a[k - 1]);
                } else {
                    assert(results@[k] == b[k - 1 - a.len()]);
                }
            } else if j <= a.len() {
                assert(results@[j] == a[j - 1]);
                if k <= a.len() {
                    assert(results@[k] == a[k - 1]);
                } else {
                    assert(results@[k] == b[k - 1 - a.len()]);
                }
            } else {
                assert(results@[j] == b[j - 1 - a.len()]);
                assert(results@[k] == b[k - 1 - a.len()]);
            }
        }
        assert forall|k: int| 1 <= k < results@.len() implies (#[trigger] results@[k]).page_id
            < total_pages && results@[k].page_id != current_index by {
            if k <= a.len() {
                assert(results@[k] == a[k - 1]);
            } else {
                assert(results@[k] == b[k - 1 - a.len()]);
            }
        }
    }
    results
}

proof fn lemma_steps_backward(cur: int, n: nat, total: int)
    requires
        0 <= cur,
    ensures
        prefetch_steps(cur, PrefetchDirection::Previous, n, total) == Seq::new(
            (if n <= cur { n as int } else { cur }) as nat,
            |k: int| (cur - 1 - k) as usize,
        ),
    decreases n,
{
    if n > 0 {
        lemma_steps_backward(cur, (n - 1) as nat, total);
        assert(prefetch_steps(cur, PrefetchDirection::Previous, n, total) =~= Seq::new(
            (if n <= cur { n as int } else { cur }) as nat,
            |k: int| (cur - 1 - k) as usize,
        ));
    } else {
        assert(prefetch_steps(cur, PrefetchDirection::Previous, n, total) =~= Seq::new(
            0,
            |k: int| (cur - 1 - k) as usize,
        ));
    }
}

proof fn lemma_steps_forward(cur: int, n: nat, total: int)
    requires
        0 <= cur,
    ensures
        prefetch_steps(cur, PrefetchDirection::Next, n, total) == Seq::new(
            (if cur + 1 >= total { 0 } else if n <= total - 1 - cur { n as int } else { total - 1
                - cur }) as nat,
            |k: int| (cur + 1 + k) as usize,
        ),
    decreases n,
{
    let len = (if cur + 1 >= total { 0 } else if n <= total - 1 - cur { n as int } else { total - 1
        - cur }) as nat;
    if n > 0 {
        lemma_steps_forward(cur, (n - 1) as nat, total);
    }
    assert(prefetch_steps(cur, PrefetchDirection::Next, n, total) =~= Seq::new(
        len,
        |k: int| (cur + 1 + k) as usize,
    ));
}

/// Backward prefetch lists every earlier page within reach, page 0 included: for a
/// document with pages, the list is `current - 1`, `current - 2`, ... for
/// `min(prefetch_count, current)` pages, nearest first; an empty document gets none.
pub proof fn law_prefetch_backward(cur: usize, count: usize, total: usize)
    ensures
        total > 0 ==> prefetch_pages(cur as int, PrefetchDirection::Previous, count as nat, total as int)
            .len() == (if count <= cur { count } else { cur }),
        total > 0 ==> forall|k: int|
            0 <= k < (if count <= cur { count } else { cur }) ==> #[trigger] prefetch_pages(
                cur as int,
                PrefetchDirection::Previous,
                count as nat,
                total as int,
            )[k] == cur - 1 - k,
        total > 0 ==> forall|p: usize|
            cur - count <= p < cur ==> #[trigger] prefetch_pages(
                cur as int,
                PrefetchDirection::Previous,
                count as nat,
                total as int,
            ).contains(p),
        total == 0 ==> prefetch_pages(cur as int, PrefetchDirection::Previous, count as nat, total as int)
            .len() == 0,
{
    lemma_steps_backward(cur as int, count as nat, total as int);
    if total > 0 {
        let s = prefetch_pages(cur as int, PrefetchDirection::Previous, count as nat, total as int);
        assert forall|p: usize| cur - count <= p < cur implies #[trigger] s.contains(p) by {
            assert(s[cur - 1 - p] == p);
        }
    }
}

/// Forward prefetch lists the following pages that exist: `current + 1`, `current + 2`,
/// ... for `prefetch_count` pages, stopping at the last page, nearest first.
pub proof fn law_prefetch_forward(cur: usize, count: usize, total: usize)
    ensures
        prefetch_pages(cur as int, PrefetchDirection::Next, count as nat, total as int).len() == (if cur
            + 1 >= total {
            0
        } else if count <= total - 1 - cur {
            count as int
        } else {
            total - 1 - cur
        }),
        forall|k: int|
            0 <= k < prefetch_pages(cur as int, PrefetchDirection::Next, count as nat, total as int).len()
                ==> #[trigger] prefetch_pages(
                cur as int,
                PrefetchDirection::Next,
                count as nat,
                total as int,
            )[k] == cur + 1 + k,
{
    lemma_steps_forward(cur as int, count as nat, total as int);
}

proof fn lemma_window_up(cur: int, n: nat, total: int, base: int)
    requires
        0 <= cur,
        0 <= base,
        base + n <= usize::MAX,
    ensures
        window_side(cur, true, n, total, base) == Seq::new(
            (if cur + 1 >= total { 0 } else if n <= total - 1 - cur { n as int } else { total - 1
                - cur }) as nat,
            |k: int| SlidingWindowPriority { page_id: (cur + 1 + k) as usize, priority: (base + 1 + k) as usize },
        ),
    decreases n,
{
    if n > 0 {
        lemma_window_up(cur, (n - 1) as nat, total, base);
    }
    assert(window_side(cur, true, n, total, base) =~= Seq::new(
        (if cur + 1 >= total { 0 } else if n <= total - 1 - cur { n as int } else { total - 1
            - cur }) as nat,
        |k: int| SlidingWindowPriority { page_id: (cur + 1 + k) as usize, priority: (base + 1 + k) as usize },
    ));
}

proof fn lemma_window_down(cur: int, n: nat, total: int, base: int)
    requires
        0 <= cur < total,
        0 <= base,
        base + n <= usize::MAX,
    ensures
        window_side(cur, false, n, total, base) == Seq::new(
            (if n <= cur { n as int } else { cur }) as nat,
            |k: int| SlidingWindowPriority { page_id: (cur - 1 - k) as usize, priority: (base + 1 + k) as usize },
        ),
    decreases n,
{
    if n > 0 {
        lemma_window_down(cur, (n - 1) as nat, total, base);
    }
    assert(window_side(cur, false, n, total, base) =~= Seq::new(
        (if n <= cur { n as int } else { cur }) as nat,
        |k: int| SlidingWindowPriority { page_id: (cur - 1 - k) as usize, priority: (base + 1 + k) as usize },
    ));
}

/// The prioritized window around page `cur` of a document of `total` pages: first `cur`
/// with priority 0; then the pages ahead in the direction of reading, nearest first, with
/// priorities 1, 2, ... (`min(count, pages left ahead)` of them); then the pages behind,
/// nearest first, with priorities `count + 1`, `count + 2`, ... (`min(count, pages left
/// behind)` of them).
pub proof fn law_window_layout(cur: usize, direction: PrefetchDirection, count: usize, total: usize)
    requires
        cur < total,
        2 * count <= usize::MAX,
    ensures
        ({
            let w = sliding_window(cur as int, direction, count as nat, total as int);
            let up_len = if count <= total - 1 - cur { count as int } else { total - 1 - cur };
            let down_len = if count <= cur { count as int } else { cur as int };
            let a = if direction == PrefetchDirection::Next { up_len } else { down_len };
            let b = if direction == PrefetchDirection::Next { down_len } else { up_len };
            &&& w.len() == 1 + a + b
            &&& w[0] == (SlidingWindowPriority { page_id: cur, priority: 0 })
            &&& forall|k: int| 0 <= k < a ==> (#[trigger] w[1 + k]).priority == k + 1 && w[1
                + k].page_id == (if direction == PrefetchDirection::Next {
                cur + 1 + k
            } else {
                cur - 1 - k
            })
            &&& forall|k: int| 0 <= k < b ==> (#[trigger] w[1 + a + k]).priority == count + 1 + k
                && w[1 + a + k].page_id == (if direction == PrefetchDirection::Next {
                cur - 1 - k
            } else {
                cur + 1 + k
            })
        }),
{
    lemma_window_up(cur as int, count as nat, total as int, 0);
    lemma_window_down(cur as int, count as nat, total as int, 0);
    lemma_window_up(cur as int, count as nat, total as int, count as int);
    lemma_window_down(cur as int, count as nat, total as int, count as int);
    let w = sliding_window(cur as int, direction, count as nat, total as int);
    let up_len = if count <= total - 1 - cur { count as int } else { total - 1 - cur };
    let down_len = if count <= cur { count as int } else { cur as int };
    let a = if direction == PrefetchDirection::Next { up_len } else { down_len };
    let b = if direction == PrefetchDirection::Next { down_len } else { up_len };
    let head = seq![SlidingWindowPriority { page_id: cur as usize, priority: 0 }];
    let ahead = window_side(cur as int, ahead_is_up(direction), count as nat, total as int, 0);
    let behind = window_side(cur as int, behind_is_up(direction), count as nat, total as int, count as int);
    assert(w == head + ahead + behind);
    assert forall|k: int| 0 <= k < a implies (#[trigger] w[1 + k]).priority == k + 1 && w[1
        + k].page_id == (if direction == PrefetchDirection::Next {
        cur + 1 + k
    } else {
        cur - 1 - k
    }) by {
        assert(w[1 + k] == ahead[k]);
    }
    assert forall|k: int| 0 <= k < b implies (#[trigger] w[1 + a + k]).priority == count + 1 + k
        && w[1 + a + k].page_id == (if direction == PrefetchDirection::Next {
        cur - 1 - k
    } else {
        cur + 1 + k
    }) by {
        assert(w[1 + a + k] == behind[k]);
    }
}

} // verus!
