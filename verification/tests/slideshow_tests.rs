use hinaview::slideshow::{slideshow_step, SlideshowStep};

#[test]
fn still_page_advances_when_the_interval_has_passed() {
    let s = slideshow_step(true, Some(10), Some(3), false, false, 0, 4, true);
    assert_eq!(s, SlideshowStep { stop: false, advance: true });
    let s = slideshow_step(true, Some(10), Some(3), false, false, 0, 4, false);
    assert_eq!(s, SlideshowStep { stop: false, advance: false });
}

#[test]
fn animated_page_waits_for_its_loops_at_most_five() {
    assert!(!slideshow_step(true, Some(10), Some(3), false, true, 2, 3, true).advance);
    assert!(slideshow_step(true, Some(10), Some(3), false, true, 3, 3, false).advance);
    assert!(slideshow_step(true, Some(10), Some(3), false, true, 5, 30, false).advance);
    assert!(!slideshow_step(true, Some(10), Some(3), false, true, 4, 30, true).advance);
}

#[test]
fn slideshow_stops_on_the_last_page_and_waits_after_a_commit() {
    assert_eq!(
        slideshow_step(true, Some(10), Some(9), false, false, 0, 1, true),
        SlideshowStep { stop: true, advance: false }
    );
    assert_eq!(
        slideshow_step(true, Some(0), Some(0), false, false, 0, 1, true),
        SlideshowStep { stop: true, advance: false }
    );
    assert!(!slideshow_step(true, Some(10), Some(2), true, false, 0, 1, true).advance);
    assert_eq!(
        slideshow_step(false, Some(10), Some(9), false, false, 0, 1, true),
        SlideshowStep { stop: false, advance: false }
    );
    assert_eq!(
        slideshow_step(true, None, None, false, false, 0, 1, true),
        SlideshowStep { stop: false, advance: true }
    );
}
