//! Integer image-space geometry: points, corner ordering, distances,
//! bounding boxes.

use crate::isqrt::{rounded_sqrt, rounded_sqrt_spec};
use vstd::prelude::*;

verus! {

/// Largest coordinate magnitude the library works with. Generous for any
/// scanned sheet, and small enough that sums, differences and squared
/// distances of coordinates never overflow an `i64`.
pub const COORD_LIMIT: i64 = 16_777_216;

/// An (x, y) coordinate in image space, in pixels.
#[derive(Clone, Copy, Debug, PartialEq, Eq, Structural)]
pub struct Point {
    pub x: i64,
    pub y: i64,
}

/// Four corner points of a quadrilateral, as reported by the detector.
#[derive(Clone, Copy, Debug, PartialEq, Eq, Structural)]
pub struct Quad {
    pub p0: Point,
    pub p1: Point,
    pub p2: Point,
    pub p3: Point,
}

pub open spec fn valid_point(p: Point) -> bool {
    &&& -COORD_LIMIT <= p.x <= COORD_LIMIT
    &&& -COORD_LIMIT <= p.y <= COORD_LIMIT
}

pub open spec fn valid_quad(q: Quad) -> bool {
    &&& valid_point(q.p0)
    &&& valid_point(q.p1)
    &&& valid_point(q.p2)
    &&& valid_point(q.p3)
}

/// Coordinate sum x + y; smallest at the top-left corner of a quadrilateral.
pub open spec fn coord_sum(p: Point) -> int {
    p.x + p.y
}

/// Coordinate difference x - y; in image coordinates (y growing downward)
/// it is largest at the top-right corner and smallest at the bottom-left.
pub open spec fn coord_diff(p: Point) -> int {
    p.x - p.y
}

/// Of two points, the one with the strictly smaller coordinate sum,
/// preferring the first on a tie.
pub open spec fn min_by_sum(a: Point, b: Point) -> Point {
    if coord_sum(b) < coord_sum(a) {
        b
    } else {
        a
    }
}

/// Of two points, the one with the larger-or-equal coordinate sum,
/// preferring the second on a tie.
pub open spec fn max_by_sum(a: Point, b: Point) -> Point {
    if coord_sum(b) >= coord_sum(a) {
        b
    } else {
        a
    }
}

/// Of two points, the one with the strictly smaller coordinate difference,
/// preferring the first on a tie.
pub open spec fn min_by_diff(a: Point, b: Point) -> Point {
    if coord_diff(b) < coord_diff(a) {
        b
    } else {
        a
    }
}

/// Of two points, the one with the larger-or-equal coordinate difference,
/// preferring the second on a tie.
pub open spec fn max_by_diff(a: Point, b: Point) -> Point {
    if coord_diff(b) >= coord_diff(a) {
        b
    } else {
        a
    }
}

/// The corner of `q` with the minimal coordinate sum (first such corner).
pub open spec fn quad_min_sum(q: Quad) -> Point {
    min_by_sum(min_by_sum(min_by_sum(q.p0, q.p1), q.p2), q.p3)
}

/// The corner of `q` with the maximal coordinate sum (last such corner).
pub open spec fn quad_max_sum(q: Quad) -> Point {
    max_by_sum(max_by_sum(max_by_sum(q.p0, q.p1), q.p2), q.p3)
}

/// The corner of `q` with the minimal coordinate difference (first such corner).
pub open spec fn quad_min_diff(q: Quad) -> Point {
    min_by_diff(min_by_diff(min_by_diff(q.p0, q.p1), q.p2), q.p3)
}

/// The corner of `q` with the maximal coordinate difference (last such corner).
pub open spec fn quad_max_diff(q: Quad) -> Point {
    max_by_diff(max_by_diff(max_by_diff(q.p0, q.p1), q.p2), q.p3)
}

/// The canonical corner arrangement {top-left, top-right, bottom-right,
/// bottom-left}, in image coordinates (y growing downward): top-left has the
/// minimal x + y, top-right the maximal x - y, bottom-right the maximal
/// x + y, bottom-left the minimal x - y.
pub open spec fn ordered_quad(q: Quad) -> Quad {
    Quad {
        p0: quad_min_sum(q),
        p1: quad_max_diff(q),
        p2: quad_max_sum(q),
        p3: quad_min_diff(q),
    }
}

/// Orders the four corners canonically by the sum/difference rule: the
/// top-left corner minimizes x + y, the bottom-right corner maximizes x + y,
/// the top-right corner maximizes x - y, and the bottom-left corner
/// minimizes it. Ties keep the earliest corner for the minima and the
/// latest for the maxima.
pub fn order_points(q: &Quad) -> (r: Quad)
    requires
        valid_quad(*q),
    ensures
        r == ordered_quad(*q),
{
    let mut tl = q.p0;
    if q.p1.x + q.p1.y < tl.x + tl.y {
        tl = q.p1;
    }
    if q.p2.x + q.p2.y < tl.x + tl.y {
        tl = q.p2;
    }
    if q.p3.x + q.p3.y < tl.x + tl.y {
        tl = q.p3;
    }

    let mut br = q.p0;
    if q.p1.x + q.p1.y >= br.x + br.y {
        br = q.p1;
    }
    if q.p2.x + q.p2.y >= br.x + br.y {
        br = q.p2;
    }
    if q.p3.x + q.p3.y >= br.x + br.y {
        br = q.p3;
    }

    let mut tr = q.p0;
    if q.p1.x - q.p1.y >= tr.x - tr.y {
        tr = q.p1;
    }
    if q.p2.x - q.p2.y >= tr.x - tr.y {
        tr = q.p2;
    }
    if q.p3.x - q.p3.y >= tr.x - tr.y {
        tr = q.p3;
    }

    let mut bl = q.p0;
    if q.p1.x - q.p1.y < bl.x - bl.y {
        bl = q.p1;
    }
    if q.p2.x - q.p2.y < bl.x - bl.y {
        bl = q.p2;
    }
    if q.p3.x - q.p3.y < bl.x - bl.y {
        bl = q.p3;
    }

    Quad { p0: tl, p1: tr, p2: br, p3: bl }
}

/// Squared Euclidean distance between two points.
pub open spec fn dist_sq(a: Point, b: Point) -> int {
    (a.x - b.x) * (a.x - b.x) + (a.y - b.y) * (a.y - b.y)
}

/// Euclidean distance between two points, rounded to the nearest pixel.
pub open spec fn side_len_spec(a: Point, b: Point) -> int {
    rounded_sqrt_spec(dist_sq(a, b) as nat) as int
}

/// Squared Euclidean distance; for valid points it stays far inside `i64`.
pub fn distance_sq(a: &Point, b: &Point) -> (r: i64)
    requires
        valid_point(*a),
        valid_point(*b),
    ensures
        r == dist_sq(*a, *b),
        0 <= r <= 0x8_0000_0000_0000,
{
    let dx = a.x - b.x;
    let dy = a.y - b.y;
    proof {
        assert(dx * dx <= 0x200_0000 * 0x200_0000) by (nonlinear_arith)
            requires -0x200_0000 <= dx <= 0x200_0000,
        ;
        assert(dx * dx >= 0) by (nonlinear_arith);
        assert(dy * dy <= 0x200_0000 * 0x200_0000) by (nonlinear_arith)
            requires -0x200_0000 <= dy <= 0x200_0000,
        ;
        assert(dy * dy >= 0) by (nonlinear_arith);
    }
    dx * dx + dy * dy
}

/// Distance between two points, rounded to the nearest whole pixel.
pub fn side_length(a: &Point, b: &Point) -> (r: i64)
    requires
        valid_point(*a),
        valid_point(*b),
    ensures
        r == side_len_spec(*a, *b),
        0 <= r <= 0x800_0000,
{
    let sq = distance_sq(a, b);
    let r = rounded_sqrt(sq as u64);
    r as i64
}

/// The axis-aligned bounding box of a quadrilateral: smallest x of its
/// corners.
pub open spec fn bbox_min_x(q: Quad) -> int {
    min4(q.p0.x as int, q.p1.x as int, q.p2.x as int, q.p3.x as int)
}

/// Largest x of the corners.
pub open spec fn bbox_max_x(q: Quad) -> int {
    max4(q.p0.x as int, q.p1.x as int, q.p2.x as int, q.p3.x as int)
}

/// Smallest y of the corners.
pub open spec fn bbox_min_y(q: Quad) -> int {
    min4(q.p0.y as int, q.p1.y as int, q.p2.y as int, q.p3.y as int)
}

/// Largest y of the corners.
pub open spec fn bbox_max_y(q: Quad) -> int {
    max4(q.p0.y as int, q.p1.y as int, q.p2.y as int, q.p3.y as int)
}

pub open spec fn min4(a: int, b: int, c: int, d: int) -> int {
    min2(min2(min2(a, b), c), d)
}

pub open spec fn max4(a: int, b: int, c: int, d: int) -> int {
    max2(max2(max2(a, b), c), d)
}

pub open spec fn min2(a: int, b: int) -> int {
    if b < a {
        b
    } else {
        a
    }
}

pub open spec fn max2(a: int, b: int) -> int {
    if b > a {
        b
    } else {
        a
    }
}

/// Whether the axis-aligned bounding boxes of two quadrilaterals intersect
/// with strictly positive extent in both dimensions.
pub open spec fn boxes_overlap(a: Quad, b: Quad) -> bool {
    &&& min2(bbox_max_x(a), bbox_max_x(b)) - max2(bbox_min_x(a), bbox_min_x(b)) > 0
    &&& min2(bbox_max_y(a), bbox_max_y(b)) - max2(bbox_min_y(a), bbox_min_y(b)) > 0
}

/// Bounding-box overlap is symmetric.
pub proof fn lemma_boxes_overlap_symmetric(a: Quad, b: Quad)
    ensures
        boxes_overlap(a, b) == boxes_overlap(b, a),
{
}

/// Two quadrilaterals with the same bounding box overlap whenever that box
/// has positive extent in both axes — two identical degenerate boxes do
/// not count as overlapping under the strictly-positive-area rule.
pub proof fn lemma_identical_boxes_overlap(a: Quad, b: Quad)
    requires
        bbox_min_x(a) == bbox_min_x(b),
        bbox_max_x(a) == bbox_max_x(b),
        bbox_min_y(a) == bbox_min_y(b),
        bbox_max_y(a) == bbox_max_y(b),
        bbox_max_x(a) - bbox_min_x(a) > 0,
        bbox_max_y(a) - bbox_min_y(a) > 0,
    ensures
        boxes_overlap(a, b),
{
}

/// The bounding box of the quadrilateral: (min x, min y, max x, max y).
pub fn rect_bbox(q: &Quad) -> (r: (i64, i64, i64, i64))
    requires
        valid_quad(*q),
    ensures
        r.0 == bbox_min_x(*q),
        r.1 == bbox_min_y(*q),
        r.2 == bbox_max_x(*q),
        r.3 == bbox_max_y(*q),
{
    let mut min_x = q.p0.x;
    if q.p1.x < min_x {
        min_x = q.p1.x;
    }
    if q.p2.x < min_x {
        min_x = q.p2.x;
    }
    if q.p3.x < min_x {
        min_x = q.p3.x;
    }

    let mut max_x = q.p0.x;
    if q.p1.x > max_x {
        max_x = q.p1.x;
    }
    if q.p2.x > max_x {
        max_x = q.p2.x;
    }
    if q.p3.x > max_x {
        max_x = q.p3.x;
    }

    let mut min_y = q.p0.y;
    if q.p1.y < min_y {
        min_y = q.p1.y;
    }
    if q.p2.y < min_y {
        min_y = q.p2.y;
    }
    if q.p3.y < min_y {
        min_y = q.p3.y;
    }

    let mut max_y = q.p0.y;
    if q.p1.y > max_y {
        max_y = q.p1.y;
    }
    if q.p2.y > max_y {
        max_y = q.p2.y;
    }
    if q.p3.y > max_y {
        max_y = q.p3.y;
    }

    (min_x, min_y, max_x, max_y)
}

/// Whether the axis-aligned bounding boxes of two quadrilaterals overlap
/// with strictly positive intersection area.
pub fn rects_overlap(a: &Quad, b: &Quad) -> (r: bool)
    requires
        valid_quad(*a),
        valid_quad(*b),
    ensures
        r == boxes_overlap(*a, *b),
{
    let (ax1, ay1, ax2, ay2) = rect_bbox(a);
    let (bx1, by1, bx2, by2) = rect_bbox(b);

    let ix2 = if bx2 < ax2 { bx2 } else { ax2 };
    let ix1 = if bx1 > ax1 { bx1 } else { ax1 };
    let iy2 = if by2 < ay2 { by2 } else { ay2 };
    let iy1 = if by1 > ay1 { by1 } else { ay1 };

    ix2 - ix1 > 0 && iy2 - iy1 > 0
}

} // verus!
