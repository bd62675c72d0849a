//! The slideshow's decision on each frame: whether it stops because the last page is
//! shown, and whether it moves on to the next page.
use vstd::prelude::*;

verus! {

/// The most animation loops a slideshow waits for on an animated page.
pub const MAX_SLIDESHOW_LOOPS: u32 = 5;

/// What the slideshow does on one frame.
#[derive(Debug, Clone, Copy, PartialEq, Eq, Structural)]
pub struct SlideshowStep {
    /// The slideshow switches itself off (the last page is shown).
    pub stop: bool,
    /// The view steps one page on, and the slideshow timer starts again.
    pub advance: bool,
}

/// Whether the slideshow stops: it runs, a document is open with a current page, and
/// that page is the last one (or past it).
pub open spec fn stops_at_end(enabled: bool, page_count: Option<usize>, current: Option<usize>) -> bool {
    enabled && page_count is Some && current is Some && current->0 + 1 >= page_count->0
}

/// Whether a running slideshow moves on: not on a frame that committed a navigation;
/// an animated page once it has played as many loops as the interval has seconds (at
/// most five), a still page once the interval has passed.
pub open spec fn advances(
    running: bool,
    committed: bool,
    has_animation: bool,
    completed_loops: u32,
    interval_sec: u32,
    timer_due: bool,
) -> bool {
    running && !committed && if has_animation {
        completed_loops >= if interval_sec < 5 { interval_sec } else { 5 }
    } else {
        timer_due
    }
}

/// The slideshow's step for one frame. `page_count` is the number of pages of the open
/// document (None without one), `current` the page shown, `committed` whether this frame
/// committed a navigation, `has_animation` and `completed_loops` the current page's
/// animation state, and `timer_due` whether the interval has passed since the last step.
pub fn slideshow_step(
    enabled: bool,
    page_count: Option<usize>,
    current: Option<usize>,
    committed: bool,
    has_animation: bool,
    completed_loops: u32,
    interval_sec: u32,
    timer_due: bool,
) -> (r: SlideshowStep)
    ensures
        r.stop == stops_at_end(enabled, page_count, current),
        r.advance == advances(
            enabled && !r.stop,
            committed,
            has_animation,
            completed_loops,
            interval_sec,
            timer_due,
        ),
{
    let stop = match (enabled, page_count, current) {
        (true, Some(n), Some(c)) => c >= n.saturating_sub(1),
        _ => false,
    };
    let running = enabled && !stop;
    let advance = if !running || committed {
        false
    } else if has_animation {
        let target = if interval_sec < MAX_SLIDESHOW_LOOPS {
            interval_sec
        } else {
            MAX_SLIDESHOW_LOOPS
        };
        completed_loops >= target
    } else {
        timer_due
    };
    SlideshowStep { stop, advance }
}

/// A slideshow never moves past the last page: on a frame where the last page of the
/// open document is shown it stops and does not advance, and it only ever advances
/// while switched on.
pub proof fn law_slideshow_stops_at_last_page(
    enabled: bool,
    page_count: usize,
    current: usize,
    committed: bool,
    has_animation: bool,
    completed_loops: u32,
    interval_sec: u32,
    timer_due: bool,
)
    ensures
        enabled && current + 1 >= page_count ==> stops_at_end(enabled, Some(page_count), Some(current))
            && !advances(
            enabled && !stops_at_end(enabled, Some(page_count), Some(current)),
            committed,
            has_animation,
            completed_loops,
            interval_sec,
            timer_due,
        ),
        !enabled ==> !advances(
            enabled,
            committed,
            has_animation,
            completed_loops,
            interval_sec,
            timer_due,
        ),
{
}

/// The slideshow stops exactly on the last page: with a document of `n` pages open at
/// page `c`, it stops when it runs and `c` is the last page (or past it), and never before;
/// without a document or a current page it does not stop.
pub proof fn law_stops_exactly_at_last_page(enabled: bool, n: usize, c: usize)
    ensures
        stops_at_end(enabled, Some(n), Some(c)) <==> (enabled && c + 1 >= n),
        c + 1 < n ==> !stops_at_end(enabled, Some(n), Some(c)),
        !stops_at_end(enabled, None, Some(c)),
        !stops_at_end(enabled, Some(n), None),
{
}

/// When a running slideshow moves on, short of the last page: on a still page as soon as
/// the interval has passed, on an animated page once five loops have played or as many as
/// the interval has seconds; never on a frame that committed a navigation, never on a
/// still page before the interval, never on an animated page before those loops.
pub proof fn law_advance_timing(
    n: usize,
    c: usize,
    committed: bool,
    has_animation: bool,
    completed_loops: u32,
    interval_sec: u32,
    timer_due: bool,
)
    requires
        c + 1 < n,
    ensures
        ({
            let running = true && !stops_at_end(true, Some(n), Some(c));
            &&& !committed && !has_animation && timer_due ==> advances(
                running,
                committed,
                has_animation,
                completed_loops,
                interval_sec,
                timer_due,
            )
            &&& !has_animation && !timer_due ==> !advances(
                running,
                committed,
                has_animation,
                completed_loops,
                interval_sec,
                timer_due,
            )
            &&& committed ==> !advances(
                running,
                committed,
                has_animation,
                completed_loops,
                interval_sec,
                timer_due,
            )
            &&& !committed && has_animation && (completed_loops >= 5 || completed_loops
                >= interval_sec) ==> advances(
                running,
                committed,
                has_animation,
                completed_loops,
                interval_sec,
                timer_due,
            )
            &&& has_animation && completed_loops < 5 && completed_loops < interval_sec ==> !advances(
                running,
                committed,
                has_animation,
                completed_loops,
                interval_sec,
                timer_due,
            )
        }),
{
}

} // verus!
