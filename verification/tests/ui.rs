use fireflydroid::geometry::{Point, Rect};
use fireflydroid::tracker::{Touch, TouchPhase};
use fireflydroid::ui::{released_inside, HitRegion, Renderer};

fn px(x: i32, y: i32) -> Point {
    Point::from_pixels(x, y).unwrap()
}

fn touch(id: u64, phase: TouchPhase, x: i32, y: i32) -> Touch {
    Touch { id, phase, position: px(x, y) }
}

/// A rectangle in whole pixels.
fn rect(x: i64, y: i64, w: i64, h: i64) -> Rect {
    Rect { x: x * 1000, y: y * 1000, w: w * 1000, h: h * 1000 }
}

/// Taps the screen at (x, y): down in one frame, up in the next.
fn tap(r: &mut Renderer, time: u64, x: i32, y: i32) {
    r.begin_frame(&[touch(1, TouchPhase::Started, x, y)], time, 0);
    r.begin_frame(&[touch(1, TouchPhase::Ended, x, y)], time + 50_000, 0);
}

/// Swipes from (x, y0) to (x, y1) over three frames.
fn swipe(r: &mut Renderer, time: u64, x: i32, y0: i32, y1: i32) {
    r.begin_frame(&[touch(1, TouchPhase::Started, x, y0)], time, 0);
    r.begin_frame(&[touch(1, TouchPhase::Moved, x, (y0 + y1) / 2)], time + 100_000, 0);
    r.begin_frame(&[touch(1, TouchPhase::Ended, x, y1)], time + 200_000, 0);
}

fn sorted(tags: &Vec<String>) -> Vec<String> {
    let mut v = tags.clone();
    v.sort();
    v
}

#[test]
fn a_new_screen_is_untouched() {
    let r = Renderer::new();
    assert!(r.clicked().is_empty());
    assert!(r.tapped().is_empty());
    assert_eq!(r.scroll(), 0);
    assert_eq!(r.scrolling(), 0);
    assert!(!r.is_tracking(1));
    assert!(!r.is_clicked("a"));
}

#[test]
fn a_tap_clicks_the_rectangle_under_it() {
    let mut r = Renderer::new();
    tap(&mut r, 1_000_000, 30, 40);
    assert_eq!(r.tapped(), &vec![px(30, 40)]);
    assert!(r.hit_test("list", &rect(0, 0, 100, 100), None));
    assert!(!r.hit_test("other", &rect(0, 50, 100, 100), None));
    assert!(r.hit_test("row", &rect(30, 40, 5, 5), None));
    assert_eq!(sorted(r.clicked()), vec!["list".to_string(), "row".to_string()]);
    assert!(r.is_clicked("list"));
    assert!(r.is_clicked("row"));
    assert!(!r.is_clicked("other"));
    assert!(!r.is_clicked(""));
}

#[test]
fn a_pointer_click_clicks_the_rectangle_under_it() {
    let mut r = Renderer::new();
    r.begin_frame(&[], 0, 0);
    assert!(r.hit_test("run", &rect(10, 10, 20, 20), Some(px(15, 15))));
    assert!(!r.hit_test("far", &rect(100, 10, 20, 20), Some(px(15, 15))));
    assert!(!r.hit_test("run", &rect(10, 10, 20, 20), None));
    assert_eq!(r.clicked(), &vec!["run".to_string()]);
}

#[test]
fn a_rectangle_without_a_tag_cannot_be_clicked() {
    let mut r = Renderer::new();
    tap(&mut r, 0, 30, 40);
    assert!(!r.hit_test("", &rect(0, 0, 100, 100), Some(px(1, 1))));
    assert!(r.clicked().is_empty());
    assert!(!r.is_clicked(""));
}

#[test]
fn a_tag_is_noted_once() {
    let mut r = Renderer::new();
    tap(&mut r, 0, 30, 40);
    assert!(r.hit_test("row", &rect(0, 0, 100, 100), None));
    assert!(r.hit_test("row", &rect(20, 20, 100, 100), None));
    assert!(r.hit_test("row", &rect(0, 0, 1, 1), Some(px(0, 0))));
    assert_eq!(r.clicked(), &vec!["row".to_string()]);
}

#[test]
fn clicks_and_taps_last_one_frame() {
    let mut r = Renderer::new();
    tap(&mut r, 0, 30, 40);
    assert!(r.hit_test("row", &rect(0, 0, 100, 100), None));
    r.begin_frame(&[], 100_000, 0);
    assert!(r.clicked().is_empty());
    assert!(r.tapped().is_empty());
    assert!(!r.is_clicked("row"));
    assert!(!r.hit_test("row", &rect(0, 0, 100, 100), None));
}

#[test]
fn two_taps_in_one_frame_are_both_noted() {
    let mut r = Renderer::new();
    r.begin_frame(
        &[touch(1, TouchPhase::Started, 10, 10), touch(2, TouchPhase::Started, 200, 200)],
        0,
        0,
    );
    r.begin_frame(
        &[touch(2, TouchPhase::Ended, 200, 200), touch(1, TouchPhase::Ended, 10, 10)],
        50_000,
        0,
    );
    assert_eq!(r.tapped(), &vec![px(200, 200), px(10, 10)]);
    assert!(r.hit_test("a", &rect(0, 0, 20, 20), None));
    assert!(r.hit_test("b", &rect(190, 190, 20, 20), None));
    assert!(!r.hit_test("c", &rect(100, 100, 20, 20), None));
    assert_eq!(sorted(r.clicked()), vec!["a".to_string(), "b".to_string()]);
}

#[test]
fn a_touch_that_starts_and_ends_in_one_frame_is_a_tap() {
    let mut r = Renderer::new();
    r.begin_frame(
        &[touch(5, TouchPhase::Started, 10, 10), touch(5, TouchPhase::Ended, 12, 10)],
        0,
        0,
    );
    assert_eq!(r.tapped(), &vec![px(11, 10)]);
    assert!(!r.is_tracking(5));
}

#[test]
fn a_slow_touch_is_no_tap() {
    let mut r = Renderer::new();
    r.begin_frame(&[touch(1, TouchPhase::Started, 10, 10)], 0, 0);
    assert!(r.is_tracking(1));
    r.begin_frame(&[touch(1, TouchPhase::Ended, 10, 10)], 300_000, 0);
    assert!(r.tapped().is_empty());
    assert!(!r.is_tracking(1));
    assert!(!r.hit_test("a", &rect(0, 0, 20, 20), None));
}

#[test]
fn a_cancelled_touch_is_no_tap() {
    let mut r = Renderer::new();
    r.begin_frame(&[touch(1, TouchPhase::Started, 10, 10)], 0, 0);
    r.begin_frame(&[touch(1, TouchPhase::Cancelled, 10, 10)], 50_000, 0);
    assert!(r.tapped().is_empty());
    assert!(!r.is_tracking(1));
}

#[test]
fn a_vertical_swipe_scrolls_in_its_direction() {
    let mut r = Renderer::new();
    swipe(&mut r, 0, 100, 360, 100);
    assert!(r.tapped().is_empty());
    assert_eq!(r.scroll(), -100_000);
    assert_eq!(r.scrolling(), -95_000);
    r.begin_frame(&[], 300_000, 0);
    assert_eq!(r.scroll(), -195_000);
    assert_eq!(r.scrolling(), -90_250);
    // A swipe down pushes the other way.
    swipe(&mut r, 1_000_000, 100, 100, 360);
    assert_eq!(r.scrolling(), (-90_250i64 * 95 / 100 * 95 / 100 + 100_000) * 95 / 100);
    assert!(r.scrolling() > 0);
}

#[test]
fn a_vertical_drag_of_160_pixels_does_not_scroll() {
    let mut r = Renderer::new();
    r.begin_frame(&[], 0, -1);
    swipe(&mut r, 0, 100, 100, 260);
    assert_eq!(r.scrolling(), 0);
    assert_eq!(r.scroll(), -30_000);
}

#[test]
fn a_horizontal_swipe_does_not_scroll() {
    let mut r = Renderer::new();
    r.begin_frame(&[touch(1, TouchPhase::Started, 10, 100)], 0, 0);
    r.begin_frame(&[touch(1, TouchPhase::Ended, 300, 110)], 200_000, 0);
    assert_eq!(r.scrolling(), 0);
    assert_eq!(r.scroll(), 0);
}

#[test]
fn the_content_never_scrolls_past_the_top() {
    let mut r = Renderer::new();
    swipe(&mut r, 0, 100, 100, 360);
    assert_eq!(r.scroll(), 0);
    assert_eq!(r.scrolling(), 0);
    r.begin_frame(&[], 300_000, 1);
    assert_eq!(r.scroll(), 0);
    r.begin_frame(&[], 400_000, -1);
    assert_eq!(r.scroll(), -30_000);
    r.begin_frame(&[], 500_000, 1);
    assert_eq!(r.scroll(), 0);
}

#[test]
fn rectangles_are_hit_where_they_are_shown() {
    let mut r = Renderer::new();
    r.begin_frame(&[], 0, -1);
    r.begin_frame(&[], 0, -1);
    assert_eq!(r.scroll(), -60_000);
    // Laid out at y = 100..120, the row is shown at y = 40..60.
    let row = rect(0, 100, 200, 20);
    assert!(r.hit_test("row", &row, Some(px(5, 40))));
    assert!(r.hit_test("row", &row, Some(px(5, 60))));
    assert!(!r.hit_test("row", &row, Some(px(5, 39))));
    assert!(!r.hit_test("row", &row, Some(px(5, 61))));
    assert!(!r.hit_test("row", &row, Some(px(5, 110))));
}

#[test]
fn a_tap_is_tested_against_the_offset_of_its_frame() {
    let mut r = Renderer::new();
    r.begin_frame(&[touch(1, TouchPhase::Started, 5, 50)], 0, -1);
    r.begin_frame(&[touch(1, TouchPhase::Ended, 5, 50)], 50_000, -1);
    assert_eq!(r.scroll(), -60_000);
    assert!(r.hit_test("row", &rect(0, 100, 200, 20), None));
    assert!(!r.hit_test("top", &rect(0, 40, 200, 20), None));
}

#[test]
fn a_lifted_touch_inside_releases() {
    let area = rect(10, 10, 20, 20);
    assert!(released_inside(&area, &[touch(1, TouchPhase::Ended, 15, 15)]));
    assert!(released_inside(&area, &[touch(1, TouchPhase::Ended, 10, 30)]));
    assert!(released_inside(
        &area,
        &[touch(1, TouchPhase::Moved, 15, 15), touch(2, TouchPhase::Ended, 20, 20)]
    ));
    assert!(!released_inside(&area, &[]));
    assert!(!released_inside(&area, &[touch(1, TouchPhase::Ended, 5, 15)]));
    assert!(!released_inside(&area, &[touch(1, TouchPhase::Started, 15, 15)]));
    assert!(!released_inside(&area, &[touch(1, TouchPhase::Moved, 15, 15)]));
    assert!(!released_inside(&area, &[touch(1, TouchPhase::Stationary, 15, 15)]));
    assert!(!released_inside(&area, &[touch(1, TouchPhase::Cancelled, 15, 15)]));
}

fn region(tag: &str, x: i64, y: i64, w: i64, h: i64) -> HitRegion {
    HitRegion { tag: tag.to_string(), rect: rect(x, y, w, h) }
}

#[test]
fn the_clicked_tags_are_those_of_the_regions_that_are_hit() {
    let mut r = Renderer::new();
    tap(&mut r, 0, 30, 40);
    let regions = [
        region("page", 0, 0, 300, 300),
        region("", 0, 0, 300, 300),
        region("row1", 0, 0, 300, 39),
        region("row2", 0, 40, 300, 39),
        region("row3", 0, 80, 300, 39),
        region("menu", 250, 0, 50, 50),
        region("page", 500, 500, 1, 1),
    ];
    r.hit_regions(&regions, Some(px(260, 10)));
    assert_eq!(
        sorted(r.clicked()),
        vec!["menu".to_string(), "page".to_string(), "row1".to_string(), "row2".to_string()]
    );
    assert!(r.is_clicked("row2"));
    assert!(!r.is_clicked("row3"));
    assert_eq!(r.tapped(), &vec![px(30, 40)]);
}

#[test]
fn regions_add_to_what_is_clicked_already() {
    let mut r = Renderer::new();
    tap(&mut r, 0, 30, 40);
    assert!(r.hit_test("first", &rect(0, 0, 100, 100), None));
    r.hit_regions(&[region("second", 0, 0, 100, 100), region("first", 0, 0, 100, 100)], None);
    assert_eq!(r.clicked(), &vec!["first".to_string(), "second".to_string()]);
    r.hit_regions(&[], Some(px(1, 1)));
    assert_eq!(r.clicked(), &vec!["first".to_string(), "second".to_string()]);
    r.hit_regions(&[region("third", 200, 200, 10, 10)], Some(px(1, 1)));
    assert_eq!(r.clicked(), &vec!["first".to_string(), "second".to_string()]);
}

#[test]
fn regions_are_hit_where_they_are_shown() {
    let mut r = Renderer::new();
    r.begin_frame(&[], 0, -1);
    assert_eq!(r.scroll(), -30_000);
    let regions = [region("above", 0, 0, 100, 29), region("below", 0, 30, 100, 29)];
    r.hit_regions(&regions, Some(px(5, 5)));
    assert_eq!(r.clicked(), &vec!["below".to_string()]);
}

#[test]
fn a_trace_that_is_no_gesture_leaves_no_mark() {
    let mut r = Renderer::new();
    r.begin_frame(&[touch(1, TouchPhase::Started, 10, 10)], 0, 0);
    r.begin_frame(&[touch(1, TouchPhase::Moved, 10, 60)], 50_000, 0);
    r.begin_frame(&[touch(1, TouchPhase::Ended, 10, 110)], 100_000, 0);
    assert!(r.tapped().is_empty());
    assert_eq!(r.scroll(), 0);
    assert_eq!(r.scrolling(), 0);
    assert!(!r.is_tracking(1));
}

#[test]
fn a_tap_and_a_swipe_in_one_frame() {
    let mut r = Renderer::new();
    r.begin_frame(
        &[touch(1, TouchPhase::Started, 10, 10), touch(2, TouchPhase::Started, 200, 400)],
        0,
        0,
    );
    r.begin_frame(
        &[touch(1, TouchPhase::Ended, 10, 10), touch(2, TouchPhase::Ended, 200, 100)],
        100_000,
        -1,
    );
    assert_eq!(r.tapped(), &vec![px(10, 10)]);
    // The wheel moves the offset by 30 pixels, the fling by 100 more.
    assert_eq!(r.scroll(), -130_000);
    assert_eq!(r.scrolling(), -95_000);
    // The tap at y = 10 now lies on what was laid out at y = 140.
    assert!(r.hit_test("row", &rect(0, 135, 100, 10), None));
    assert!(!r.hit_test("top", &rect(0, 5, 100, 10), None));
}
