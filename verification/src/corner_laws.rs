//! Laws of the canonical corner ordering: on a genuine rectangle the
//! sum/difference rule places the two diagonals on opposite slots, so
//! consecutive returned corners are always adjacent, and the ordering does
//! not depend on the input order of the corners and is idempotent.

use crate::geometry::{
    coord_diff, coord_sum, ordered_quad, quad_max_diff, quad_max_sum, quad_min_diff, quad_min_sum,
    Point, Quad,
};
use vstd::prelude::*;

verus! {

/// `c0, c1, c2, c3` are the corners of a (possibly rotated) rectangle in
/// cyclic order: `c1 - c0` and `c3 - c0` are orthogonal edge vectors and
/// `c2` closes the parallelogram.
pub open spec fn is_rectangle(c0: Point, c1: Point, c2: Point, c3: Point) -> bool {
    &&& c2.x - c3.x == c1.x - c0.x
    &&& c2.y - c3.y == c1.y - c0.y
    &&& (c1.x - c0.x) * (c3.x - c0.x) + (c1.y - c0.y) * (c3.y - c0.y) == 0
}

/// Neither edge of the rectangle runs along a perfect anti-diagonal: no
/// corner ties another on the coordinate sum `x + y`. A rectangle rotated by
/// exactly 45 degrees violates this, and there the sum/difference rule is
/// genuinely ambiguous.
pub open spec fn no_diagonal_ties(c0: Point, c1: Point, c3: Point) -> bool {
    &&& coord_sum(c1) != coord_sum(c0)
    &&& coord_sum(c3) != coord_sum(c0)
}

/// `q` holds the four corners, each exactly once, in some order.
pub open spec fn is_corner_arrangement(
    q: Quad,
    c0: Point,
    c1: Point,
    c2: Point,
    c3: Point,
) -> bool {
    &&& (q.p0 == c0 || q.p0 == c1 || q.p0 == c2 || q.p0 == c3)
    &&& (q.p1 == c0 || q.p1 == c1 || q.p1 == c2 || q.p1 == c3)
    &&& (q.p2 == c0 || q.p2 == c1 || q.p2 == c2 || q.p2 == c3)
    &&& (q.p3 == c0 || q.p3 == c1 || q.p3 == c2 || q.p3 == c3)
    &&& q.p0 != q.p1 && q.p0 != q.p2 && q.p0 != q.p3
    &&& q.p1 != q.p2 && q.p1 != q.p3
    &&& q.p2 != q.p3
}

/// `a` and `b` are adjacent corners of the rectangle (they share an edge,
/// they are not a diagonal pair).
pub open spec fn adjacent_corners(
    a: Point,
    b: Point,
    c0: Point,
    c1: Point,
    c2: Point,
    c3: Point,
) -> bool {
    ||| (a == c0 && b == c1) || (a == c1 && b == c0)
    ||| (a == c1 && b == c2) || (a == c2 && b == c1)
    ||| (a == c2 && b == c3) || (a == c3 && b == c2)
    ||| (a == c3 && b == c0) || (a == c0 && b == c3)
}

/// On a rectangle free of diagonal ties the four corners are pairwise
/// distinct.
pub proof fn lemma_rectangle_corners_distinct(c0: Point, c1: Point, c2: Point, c3: Point)
    requires
        is_rectangle(c0, c1, c2, c3),
        no_diagonal_ties(c0, c1, c3),
    ensures
        c0 != c1 && c0 != c2 && c0 != c3 && c1 != c2 && c1 != c3 && c2 != c3,
{
    let ux = c1.x - c0.x;
    let uy = c1.y - c0.y;
    let vx = c3.x - c0.x;
    let vy = c3.y - c0.y;
    if c0 == c2 {
        assert(vx == -ux && vy == -uy);
        assert(ux * vx + uy * vy == -(ux * ux + uy * uy)) by (nonlinear_arith)
            requires
                vx == -ux,
                vy == -uy,
        ;
        assert(ux == 0 && uy == 0) by (nonlinear_arith)
            requires ux * ux + uy * uy == 0,
        ;
        assert(false);
    }
    if c1 == c3 {
        assert(vx == ux && vy == uy);
        assert(ux * vx + uy * vy == ux * ux + uy * uy) by (nonlinear_arith)
            requires
                vx == ux,
                vy == uy,
        ;
        assert(ux == 0 && uy == 0) by (nonlinear_arith)
            requires ux * ux + uy * uy == 0,
        ;
        assert(false);
    }
}

/// When one held corner has the strictly smallest coordinate sum, the
/// strictly largest, the strictly smallest coordinate difference and the
/// strictly largest, the canonical arrangement is fully determined.
proof fn lemma_ordered_quad_unique(q: Quad, ms: Point, md: Point, xs: Point, xd: Point)
    requires
        ms == q.p0 || ms == q.p1 || ms == q.p2 || ms == q.p3,
        xs == q.p0 || xs == q.p1 || xs == q.p2 || xs == q.p3,
        md == q.p0 || md == q.p1 || md == q.p2 || md == q.p3,
        xd == q.p0 || xd == q.p1 || xd == q.p2 || xd == q.p3,
        q.p0 != ms ==> coord_sum(ms) < coord_sum(q.p0),
        q.p1 != ms ==> coord_sum(ms) < coord_sum(q.p1),
        q.p2 != ms ==> coord_sum(ms) < coord_sum(q.p2),
        q.p3 != ms ==> coord_sum(ms) < coord_sum(q.p3),
        q.p0 != xs ==> coord_sum(q.p0) < coord_sum(xs),
        q.p1 != xs ==> coord_sum(q.p1) < coord_sum(xs),
        q.p2 != xs ==> coord_sum(q.p2) < coord_sum(xs),
        q.p3 != xs ==> coord_sum(q.p3) < coord_sum(xs),
        q.p0 != md ==> coord_diff(md) < coord_diff(q.p0),
        q.p1 != md ==> coord_diff(md) < coord_diff(q.p1),
        q.p2 != md ==> coord_diff(md) < coord_diff(q.p2),
        q.p3 != md ==> coord_diff(md) < coord_diff(q.p3),
        q.p0 != xd ==> coord_diff(q.p0) < coord_diff(xd),
        q.p1 != xd ==> coord_diff(q.p1) < coord_diff(xd),
        q.p2 != xd ==> coord_diff(q.p2) < coord_diff(xd),
        q.p3 != xd ==> coord_diff(q.p3) < coord_diff(xd),
    ensures
        ordered_quad(q) == (Quad { p0: ms, p1: xd, p2: xs, p3: md }),
{
    assert(quad_min_sum(q) == ms);
    assert(quad_max_sum(q) == xs);
    assert(quad_min_diff(q) == md);
    assert(quad_max_diff(q) == xd);
}

/// The heart of the ordering laws: on a rectangle free of diagonal ties,
/// the canonical arrangement of any input order equals that of the cyclic
/// order, and it places one diagonal on the first and third slot and the
/// other on the second and fourth.
proof fn lemma_ordered_quad_of_rectangle(q: Quad, c0: Point, c1: Point, c2: Point, c3: Point)
    requires
        is_rectangle(c0, c1, c2, c3),
        no_diagonal_ties(c0, c1, c3),
        is_corner_arrangement(q, c0, c1, c2, c3),
    ensures
        ordered_quad(q) == ordered_quad((Quad { p0: c0, p1: c1, p2: c2, p3: c3 })),
        ({
            let r = ordered_quad(q);
            ||| (r == (Quad { p0: c0, p1: c1, p2: c2, p3: c3 }))
            ||| (r == (Quad { p0: c0, p1: c3, p2: c2, p3: c1 }))
            ||| (r == (Quad { p0: c2, p1: c1, p2: c0, p3: c3 }))
            ||| (r == (Quad { p0: c2, p1: c3, p2: c0, p3: c1 }))
            ||| (r == (Quad { p0: c1, p1: c0, p2: c3, p3: c2 }))
            ||| (r == (Quad { p0: c1, p1: c2, p2: c3, p3: c0 }))
            ||| (r == (Quad { p0: c3, p1: c0, p2: c1, p3: c2 }))
            ||| (r == (Quad { p0: c3, p1: c2, p2: c1, p3: c0 }))
        }),
{
    lemma_rectangle_corners_distinct(c0, c1, c2, c3);
    let qr = Quad { p0: c0, p1: c1, p2: c2, p3: c3 };

    let su = coord_sum(c1) - coord_sum(c0);
    let sv = coord_sum(c3) - coord_sum(c0);
    let du = coord_diff(c1) - coord_diff(c0);
    let dv = coord_diff(c3) - coord_diff(c0);

    assert(coord_sum(c2) == coord_sum(c0) + su + sv);
    assert(coord_diff(c2) == coord_diff(c0) + du + dv);

    let ux = c1.x - c0.x;
    let uy = c1.y - c0.y;
    let vx = c3.x - c0.x;
    let vy = c3.y - c0.y;
    assert(su * sv + du * dv == 2 * (ux * vx + uy * vy)) by (nonlinear_arith)
        requires
            su == ux + uy,
            sv == vx + vy,
            du == ux - uy,
            dv == vx - vy,
    ;
    assert(su * sv + du * dv == 0);
    assert(su != 0 && sv != 0);

    if su > 0 && sv > 0 {
        assert(du * dv < 0) by (nonlinear_arith)
            requires
                su > 0,
                sv > 0,
                su * sv + du * dv == 0,
        ;
        assert(du != 0 && dv != 0) by (nonlinear_arith)
            requires du * dv < 0,
        ;
        if du > 0 {
            assert(dv < 0) by (nonlinear_arith)
                requires
                    du > 0,
                    du * dv < 0,
            ;
            lemma_ordered_quad_unique(q, c0, c3, c2, c1);
            lemma_ordered_quad_unique(qr, c0, c3, c2, c1);
        } else {
            assert(dv > 0) by (nonlinear_arith)
                requires
                    du < 0,
                    du * dv < 0,
            ;
            lemma_ordered_quad_unique(q, c0, c1, c2, c3);
            lemma_ordered_quad_unique(qr, c0, c1, c2, c3);
        }
    } else if su > 0 && sv < 0 {
        assert(du * dv > 0) by (nonlinear_arith)
            requires
                su > 0,
                sv < 0,
                su * sv + du * dv == 0,
        ;
        assert(du != 0 && dv != 0) by (nonlinear_arith)
            requires du * dv > 0,
        ;
        if du > 0 {
            assert(dv > 0) by (nonlinear_arith)
                requires
                    du > 0,
                    du * dv > 0,
            ;
            lemma_ordered_quad_unique(q, c3, c0, c1, c2);
            lemma_ordered_quad_unique(qr, c3, c0, c1, c2);
        } else {
            assert(dv < 0) by (nonlinear_arith)
                requires
                    du < 0,
                    du * dv > 0,
            ;
            lemma_ordered_quad_unique(q, c3, c2, c1, c0);
            lemma_ordered_quad_unique(qr, c3, c2, c1, c0);
        }
    } else if su < 0 && sv > 0 {
        assert(du * dv > 0) by (nonlinear_arith)
            requires
                su < 0,
                sv > 0,
                su * sv + du * dv == 0,
        ;
        assert(du != 0 && dv != 0) by (nonlinear_arith)
            requires du * dv > 0,
        ;
        if du > 0 {
            assert(dv > 0) by (nonlinear_arith)
                requires
                    du > 0,
                    du * dv > 0,
            ;
            lemma_ordered_quad_unique(q, c1, c0, c3, c2);
            lemma_ordered_quad_unique(qr, c1, c0, c3, c2);
        } else {
            assert(dv < 0) by (nonlinear_arith)
                requires
                    du < 0,
                    du * dv > 0,
            ;
            lemma_ordered_quad_unique(q, c1, c2, c3, c0);
            lemma_ordered_quad_unique(qr, c1, c2, c3, c0);
        }
    } else {
        assert(su < 0 && sv < 0);
        assert(du * dv < 0) by (nonlinear_arith)
            requires
                su < 0,
                sv < 0,
                su * sv + du * dv == 0,
        ;
        assert(du != 0 && dv != 0) by (nonlinear_arith)
            requires du * dv < 0,
        ;
        if du > 0 {
            assert(dv < 0) by (nonlinear_arith)
                requires
                    du > 0,
                    du * dv < 0,
            ;
            lemma_ordered_quad_unique(q, c2, c3, c0, c1);
            lemma_ordered_quad_unique(qr, c2, c3, c0, c1);
        } else {
            assert(dv > 0) by (nonlinear_arith)
                requires
                    du < 0,
                    du * dv < 0,
            ;
            lemma_ordered_quad_unique(q, c2, c1, c0, c3);
            lemma_ordered_quad_unique(qr, c2, c1, c0, c3);
        }
    }
}

/// Canonical ordering of a rectangle's corners returns the corners in a
/// cyclic walk around the rectangle: it is a permutation of the corners in
/// which consecutive returned corners (the fourth and first included) are
/// always adjacent, never diagonal — the returned quadrilateral is simple.
#[verifier::rlimit(100)]
pub proof fn lemma_order_points_adjacent(q: Quad, c0: Point, c1: Point, c2: Point, c3: Point)
    requires
        is_rectangle(c0, c1, c2, c3),
        no_diagonal_ties(c0, c1, c3),
        is_corner_arrangement(q, c0, c1, c2, c3),
    ensures
        is_corner_arrangement(ordered_quad(q), c0, c1, c2, c3),
        adjacent_corners(ordered_quad(q).p0, ordered_quad(q).p1, c0, c1, c2, c3),
        adjacent_corners(ordered_quad(q).p1, ordered_quad(q).p2, c0, c1, c2, c3),
        adjacent_corners(ordered_quad(q).p2, ordered_quad(q).p3, c0, c1, c2, c3),
        adjacent_corners(ordered_quad(q).p3, ordered_quad(q).p0, c0, c1, c2, c3),
{
    lemma_rectangle_corners_distinct(c0, c1, c2, c3);
    lemma_ordered_quad_of_rectangle(q, c0, c1, c2, c3);
}

/// The canonical ordering does not depend on the order in which the four
/// corners arrive.
pub proof fn lemma_order_points_canonical(
    q: Quad,
    p: Quad,
    c0: Point,
    c1: Point,
    c2: Point,
    c3: Point,
)
    requires
        is_rectangle(c0, c1, c2, c3),
        no_diagonal_ties(c0, c1, c3),
        is_corner_arrangement(q, c0, c1, c2, c3),
        is_corner_arrangement(p, c0, c1, c2, c3),
    ensures
        ordered_quad(q) == ordered_quad(p),
{
    lemma_ordered_quad_of_rectangle(q, c0, c1, c2, c3);
    lemma_ordered_quad_of_rectangle(p, c0, c1, c2, c3);
}

/// Ordering the corners a second time changes nothing: the canonical
/// arrangement is a fixed point of the ordering.
pub proof fn lemma_order_points_idempotent(q: Quad, c0: Point, c1: Point, c2: Point, c3: Point)
    requires
        is_rectangle(c0, c1, c2, c3),
        no_diagonal_ties(c0, c1, c3),
        is_corner_arrangement(q, c0, c1, c2, c3),
    ensures
        ordered_quad(ordered_quad(q)) == ordered_quad(q),
{
    lemma_order_points_adjacent(q, c0, c1, c2, c3);
    lemma_order_points_canonical(ordered_quad(q), q, c0, c1, c2, c3);
}

} // verus!
