use fireflydroid::geometry::{Circle, Point, Rect, COORD_MAX, DELTA_MAX, UNITS_PER_PIXEL};

#[test]
fn a_point_keeps_its_coordinates() {
    let p = Point::new(12, -34).unwrap();
    assert_eq!(p.x(), 12);
    assert_eq!(p.y(), -34);
}

#[test]
fn a_point_must_lie_on_the_grid() {
    assert!(Point::new(COORD_MAX, -COORD_MAX).is_some());
    assert!(Point::new(COORD_MAX + 1, 0).is_none());
    assert!(Point::new(0, COORD_MAX + 1).is_none());
    assert!(Point::new(-COORD_MAX - 1, 0).is_none());
    assert!(Point::new(0, -COORD_MAX - 1).is_none());
    assert!(Point::new(i32::MIN, i32::MAX).is_none());
}

#[test]
fn a_pixel_is_a_thousand_units() {
    assert_eq!(UNITS_PER_PIXEL, 1000);
    let p = Point::from_pixels(3, -7).unwrap();
    assert_eq!((p.x(), p.y()), (3_000, -7_000));
    assert_eq!(Point::from_pixels(536_870, -536_870), Point::new(536_870_000, -536_870_000));
    assert!(Point::from_pixels(536_871, 0).is_none());
    assert!(Point::from_pixels(0, -536_871).is_none());
    assert!(Point::from_pixels(i32::MAX, i32::MIN).is_none());
}

#[test]
fn the_way_between_two_points() {
    let a = Point::new(5, 9).unwrap();
    let b = Point::new(-2, 30).unwrap();
    let d = b.sub(a);
    assert_eq!((d.dx(), d.dy()), (-7, 21));
    let lo = Point::new(-COORD_MAX, -COORD_MAX).unwrap();
    let hi = Point::new(COORD_MAX, COORD_MAX).unwrap();
    assert_eq!(hi.sub(lo).dx(), DELTA_MAX);
    assert_eq!(lo.sub(hi).dy(), -DELTA_MAX);
}

#[test]
fn products_of_displacements() {
    let o = Point::new(0, 0).unwrap();
    let a = Point::new(3, 4).unwrap().sub(o);
    let b = Point::new(-2, 5).unwrap().sub(o);
    assert_eq!(a.dot(&b), 14);
    assert_eq!(a.perp_dot(&b), 23);
    assert_eq!(b.perp_dot(&a), -23);
    assert_eq!(a.length_squared(), 25);
    let lo = Point::new(-COORD_MAX, -COORD_MAX).unwrap();
    let hi = Point::new(COORD_MAX, COORD_MAX).unwrap();
    let d = hi.sub(lo);
    assert_eq!(d.length_squared(), 2 * (1i128 << 60));
    assert_eq!(d.dot(&lo.sub(hi)), -2 * (1i128 << 60));
    assert_eq!(d.perp_dot(&d), 0);
}

#[test]
fn a_circle_holds_what_is_strictly_inside() {
    let c = Circle { p: Point::new(50, 50).unwrap(), r: 50 };
    assert!(c.contains(Point::new(50, 50).unwrap()));
    assert!(c.contains(Point::new(50, 1).unwrap()));
    assert!(!c.contains(Point::new(50, 0).unwrap()));
    assert!(c.contains(Point::new(80, 89).unwrap()));
    assert!(!c.contains(Point::new(80, 90).unwrap()));
    assert!(!c.contains(Point::new(200, 50).unwrap()));
}

#[test]
fn an_empty_circle_holds_nothing() {
    let c = Circle { p: Point::new(7, 7).unwrap(), r: 0 };
    assert!(!c.contains(Point::new(7, 7).unwrap()));
}

#[test]
fn the_largest_circle_holds_the_whole_grid() {
    let c = Circle { p: Point::new(-COORD_MAX, -COORD_MAX).unwrap(), r: u32::MAX };
    assert!(c.contains(Point::new(COORD_MAX, COORD_MAX).unwrap()));
}

#[test]
fn a_rectangle_holds_its_edges() {
    let r = Rect { x: 10, y: 20, w: 30, h: 40 };
    assert!(r.contains(0, Point::new(10, 20).unwrap()));
    assert!(r.contains(0, Point::new(40, 60).unwrap()));
    assert!(r.contains(0, Point::new(25, 33).unwrap()));
    assert!(!r.contains(0, Point::new(9, 20).unwrap()));
    assert!(!r.contains(0, Point::new(41, 20).unwrap()));
    assert!(!r.contains(0, Point::new(10, 19).unwrap()));
    assert!(!r.contains(0, Point::new(10, 61).unwrap()));
}

#[test]
fn a_rectangle_moves_with_the_scroll_offset() {
    let r = Rect { x: 0, y: 100, w: 50, h: 10 };
    let p = Point::new(5, 85).unwrap();
    assert!(!r.contains(0, p));
    assert!(r.contains(-15, p));
    assert!(r.contains(-25, p));
    assert!(!r.contains(-26, p));
}

#[test]
fn a_rectangle_of_negative_size_holds_nothing() {
    let r = Rect { x: 10, y: 10, w: -1, h: 5 };
    assert!(!r.contains(0, Point::new(10, 10).unwrap()));
}

#[test]
fn a_rectangle_may_reach_beyond_the_grid() {
    let r = Rect { x: i64::MIN, y: i64::MAX, w: i64::MAX, h: i64::MAX };
    assert!(!r.contains(i64::MAX, Point::new(0, 0).unwrap()));
    assert!(r.contains(i64::MIN, Point::new(-5, 5).unwrap()));
}
