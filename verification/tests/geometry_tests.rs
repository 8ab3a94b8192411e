use photo_scan::geometry::{order_points, rect_bbox, rects_overlap, side_length, Point, Quad};
use photo_scan::isqrt::rounded_sqrt;

fn pt(x: i64, y: i64) -> Point {
    Point { x, y }
}

#[test]
fn orders_axis_aligned_corners() {
    let q = Quad { p0: pt(10, 20), p1: pt(10, 0), p2: pt(0, 0), p3: pt(0, 20) };
    let r = order_points(&q);
    assert_eq!(r.p0, pt(0, 0));
    assert_eq!(r.p1, pt(10, 0));
    assert_eq!(r.p2, pt(10, 20));
    assert_eq!(r.p3, pt(0, 20));
}

#[test]
fn ordering_ignores_input_order() {
    let a = Quad { p0: pt(0, 0), p1: pt(10, 0), p2: pt(10, 20), p3: pt(0, 20) };
    let b = Quad { p0: pt(10, 20), p1: pt(0, 20), p2: pt(0, 0), p3: pt(10, 0) };
    let c = Quad { p0: pt(0, 20), p1: pt(10, 0), p2: pt(0, 0), p3: pt(10, 20) };
    let ra = order_points(&a);
    assert_eq!(ra, order_points(&b));
    assert_eq!(ra, order_points(&c));
}

#[test]
fn ordering_is_idempotent() {
    let q = Quad { p0: pt(40, 30), p1: pt(0, 0), p2: pt(-30, 40), p3: pt(10, 70) };
    let once = order_points(&q);
    let twice = order_points(&once);
    assert_eq!(once, twice);
}

#[test]
fn rotated_rectangle_orders_to_adjacent_walk() {
    // Corners of a rectangle with edge vectors (4, 3) and (-3, 4).
    let q = Quad { p0: pt(1, 7), p1: pt(0, 0), p2: pt(4, 3), p3: pt(-3, 4) };
    let r = order_points(&q);
    assert_eq!(r.p0, pt(0, 0));
    assert_eq!(r.p1, pt(4, 3));
    assert_eq!(r.p2, pt(1, 7));
    assert_eq!(r.p3, pt(-3, 4));
    // Consecutive corners share an edge of the rectangle: the walk is a
    // simple quadrilateral, with the diagonal pairs on opposite slots.
    assert_eq!(r.p0.x + r.p2.x, r.p1.x + r.p3.x);
    assert_eq!(r.p0.y + r.p2.y, r.p1.y + r.p3.y);
}

#[test]
fn rounded_sqrt_values() {
    assert_eq!(rounded_sqrt(0), 0);
    assert_eq!(rounded_sqrt(1), 1);
    assert_eq!(rounded_sqrt(2), 1);
    assert_eq!(rounded_sqrt(3), 2);
    assert_eq!(rounded_sqrt(48), 7);
    assert_eq!(rounded_sqrt(100), 10);
    assert_eq!(rounded_sqrt(110), 10);
    assert_eq!(rounded_sqrt(111), 11);
}

#[test]
fn side_length_of_pythagorean_pair() {
    assert_eq!(side_length(&pt(0, 0), &pt(3, 4)), 5);
    assert_eq!(side_length(&pt(0, 0), &pt(0, 20)), 20);
    assert_eq!(side_length(&pt(2, 2), &pt(2, 2)), 0);
    // sqrt(2) rounds down, sqrt(8) rounds up.
    assert_eq!(side_length(&pt(0, 0), &pt(1, 1)), 1);
    assert_eq!(side_length(&pt(0, 0), &pt(2, 2)), 3);
}

#[test]
fn bbox_of_rotated_quad() {
    let q = Quad { p0: pt(0, 0), p1: pt(4, 3), p2: pt(1, 7), p3: pt(-3, 4) };
    let (min_x, min_y, max_x, max_y) = rect_bbox(&q);
    assert_eq!((min_x, min_y, max_x, max_y), (-3, 0, 4, 7));
}

#[test]
fn disjoint_boxes_do_not_overlap() {
    let a = Quad { p0: pt(0, 0), p1: pt(10, 0), p2: pt(10, 10), p3: pt(0, 10) };
    let b = Quad { p0: pt(20, 0), p1: pt(30, 0), p2: pt(30, 10), p3: pt(20, 10) };
    assert!(!rects_overlap(&a, &b));
    assert!(!rects_overlap(&b, &a));
}

#[test]
fn touching_boxes_do_not_overlap() {
    // A shared edge has zero intersection area, which does not count.
    let a = Quad { p0: pt(0, 0), p1: pt(10, 0), p2: pt(10, 10), p3: pt(0, 10) };
    let b = Quad { p0: pt(10, 0), p1: pt(20, 0), p2: pt(20, 10), p3: pt(10, 10) };
    assert!(!rects_overlap(&a, &b));
}

#[test]
fn overlapping_boxes_overlap() {
    let a = Quad { p0: pt(0, 0), p1: pt(10, 0), p2: pt(10, 10), p3: pt(0, 10) };
    let b = Quad { p0: pt(5, 5), p1: pt(15, 5), p2: pt(15, 15), p3: pt(5, 15) };
    assert!(rects_overlap(&a, &b));
    assert!(rects_overlap(&b, &a));
}
