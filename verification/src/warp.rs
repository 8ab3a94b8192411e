//! Warp planning: given one rotated rectangle's corners, the canonical
//! corner order, the target extents, and the destination corners of the
//! axis-aligned output image.

use crate::geometry::{
    max2, ordered_quad, order_points, dist_sq, side_len_spec, side_length, valid_quad, Point, Quad,
};
use crate::isqrt::lemma_rounded_sqrt_limit;
use vstd::prelude::*;

verus! {

/// Everything the perspective warp of one candidate needs: the source
/// corners in canonical order, the destination corners, and the output
/// extents in pixels.
#[derive(Clone, Copy, Debug, PartialEq, Eq, Structural)]
pub struct WarpPlan {
    pub src: Quad,
    pub dst: Quad,
    pub width: i64,
    pub height: i64,
}

/// Output extents are at least one pixel and small enough that a pixel
/// count never overflows.
pub open spec fn valid_plan(p: WarpPlan) -> bool {
    &&& 1 <= p.width <= 0x800_0000
    &&& 1 <= p.height <= 0x800_0000
}

/// The target width of the rectified image: the longer of the two
/// horizontal edges of the ordered quadrilateral, rounded to the nearest
/// pixel, and at least one pixel.
pub open spec fn target_width(o: Quad) -> int {
    max2(max2(side_len_spec(o.p0, o.p1), side_len_spec(o.p3, o.p2)), 1)
}

/// The target height: the longer of the two vertical edges, rounded, and at
/// least one pixel.
pub open spec fn target_height(o: Quad) -> int {
    max2(max2(side_len_spec(o.p0, o.p3), side_len_spec(o.p1, o.p2)), 1)
}

/// The warp plan for a rectangle's corners: corners in canonical order map
/// to the corners (0,0), (w-1,0), (w-1,h-1), (0,h-1) of a w-by-h canvas.
pub open spec fn warp_plan_spec(corners: Quad) -> WarpPlan {
    let o = ordered_quad(corners);
    let w = target_width(o);
    let h = target_height(o);
    WarpPlan {
        src: o,
        dst: Quad {
            p0: Point { x: 0, y: 0 },
            p1: Point { x: (w - 1) as i64, y: 0 },
            p2: Point { x: (w - 1) as i64, y: (h - 1) as i64 },
            p3: Point { x: 0, y: (h - 1) as i64 },
        },
        width: w as i64,
        height: h as i64,
    }
}

/// The ordered corners are drawn from the input corners, so validity is
/// preserved.
pub proof fn lemma_ordered_quad_valid(q: Quad)
    requires
        valid_quad(q),
    ensures
        valid_quad(ordered_quad(q)),
{
}

/// A rounded edge length of a valid quadrilateral stays under `2^27`.
proof fn lemma_side_len_limit(a: Point, b: Point)
    requires
        crate::geometry::valid_point(a),
        crate::geometry::valid_point(b),
    ensures
        0 <= side_len_spec(a, b) <= 0x800_0000,
{
    let dx = a.x - b.x;
    let dy = a.y - b.y;
    assert(dx * dx <= 0x200_0000 * 0x200_0000) by (nonlinear_arith)
        requires -0x200_0000 <= dx <= 0x200_0000,
    ;
    assert(dx * dx >= 0) by (nonlinear_arith);
    assert(dy * dy <= 0x200_0000 * 0x200_0000) by (nonlinear_arith)
        requires -0x200_0000 <= dy <= 0x200_0000,
    ;
    assert(dy * dy >= 0) by (nonlinear_arith);
    lemma_rounded_sqrt_limit(dist_sq(a, b) as nat);
}

/// Plans of valid corners have well-bounded extents.
pub proof fn lemma_warp_plan_valid(corners: Quad)
    requires
        valid_quad(corners),
    ensures
        valid_plan(warp_plan_spec(corners)),
{
    let o = ordered_quad(corners);
    lemma_ordered_quad_valid(corners);
    lemma_side_len_limit(o.p0, o.p1);
    lemma_side_len_limit(o.p3, o.p2);
    lemma_side_len_limit(o.p0, o.p3);
    lemma_side_len_limit(o.p1, o.p2);
}

/// Builds the warp plan for one rectangle: orders the corners canonically,
/// measures the two horizontal and the two vertical edges, rounds the longer
/// of each pair to whole pixels (at least one), and lays the destination
/// corners on the output canvas.
pub fn plan_warp(corners: &Quad) -> (r: WarpPlan)
    requires
        valid_quad(*corners),
    ensures
        r == warp_plan_spec(*corners),
        valid_plan(r),
{
    let o = order_points(corners);
    proof {
        lemma_ordered_quad_valid(*corners);
        lemma_warp_plan_valid(*corners);
    }

    let width_top = side_length(&o.p0, &o.p1);
    let width_bottom = side_length(&o.p3, &o.p2);
    let mut max_width = if width_top > width_bottom {
        width_top
    } else {
        width_bottom
    };
    if max_width < 1 {
        max_width = 1;
    }

    let height_left = side_length(&o.p0, &o.p3);
    let height_right = side_length(&o.p1, &o.p2);
    let mut max_height = if height_left > height_right {
        height_left
    } else {
        height_right
    };
    if max_height < 1 {
        max_height = 1;
    }

    let dst = Quad {
        p0: Point { x: 0, y: 0 },
        p1: Point { x: max_width - 1, y: 0 },
        p2: Point { x: max_width - 1, y: max_height - 1 },
        p3: Point { x: 0, y: max_height - 1 },
    };

    WarpPlan { src: o, dst, width: max_width, height: max_height }
}

} // verus!
