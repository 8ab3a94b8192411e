use photo_scan::candidates::{filter_candidates, sort_candidates_by_area, RectCandidate, RotatedRect};
use photo_scan::geometry::{Point, Quad};
use photo_scan::overlap::resolve_overlaps;
use photo_scan::params::{normalize_params, DetectParams};
use photo_scan::pipeline::plan_photos;
use photo_scan::warp::plan_warp;

fn pt(x: i64, y: i64) -> Point {
    Point { x, y }
}

fn axis_rect(x: i64, y: i64, w: i64, h: i64, area: i64) -> RectCandidate {
    RectCandidate {
        rect: RotatedRect {
            corners: Quad {
                p0: pt(x, y),
                p1: pt(x + w, y),
                p2: pt(x + w, y + h),
                p3: pt(x, y + h),
            },
            width: w,
            height: h,
        },
        area,
    }
}

#[test]
fn min_area_boundary_is_inclusive() {
    let at_floor = axis_rect(0, 0, 100, 100, 20_000);
    let below_floor = axis_rect(500, 500, 100, 100, 19_999);
    let kept = filter_candidates(&vec![at_floor, below_floor], 20_000);
    assert_eq!(kept.len(), 1);
    assert_eq!(kept[0].area, 20_000);
}

#[test]
fn degenerate_extents_are_discarded() {
    let flat = RectCandidate {
        rect: RotatedRect {
            corners: Quad { p0: pt(0, 0), p1: pt(100, 0), p2: pt(100, 1), p3: pt(0, 1) },
            width: 100,
            height: 1,
        },
        area: 50_000,
    };
    let kept = filter_candidates(&vec![flat], 100);
    assert_eq!(kept.len(), 0);
}

#[test]
fn sort_is_descending_and_stable() {
    let a = axis_rect(0, 0, 10, 10, 500);
    let b = axis_rect(100, 0, 10, 10, 900);
    let c = axis_rect(200, 0, 10, 10, 500);
    let sorted = sort_candidates_by_area(&vec![a, b, c]);
    assert_eq!(sorted[0].area, 900);
    assert_eq!(sorted[1], a);
    assert_eq!(sorted[2], c);
}

#[test]
fn identical_boxes_keep_larger_area() {
    let small = axis_rect(0, 0, 100, 100, 5_000);
    let large = axis_rect(0, 0, 100, 100, 9_000);
    let sorted = sort_candidates_by_area(&vec![small, large]);
    let survivors = resolve_overlaps(&sorted);
    assert_eq!(survivors.len(), 1);
    assert_eq!(survivors[0].area, 9_000);
}

#[test]
fn disjoint_boxes_both_survive() {
    let a = axis_rect(0, 0, 100, 100, 5_000);
    let b = axis_rect(500, 500, 100, 100, 9_000);
    let sorted = sort_candidates_by_area(&vec![a, b]);
    let survivors = resolve_overlaps(&sorted);
    assert_eq!(survivors.len(), 2);
    assert_eq!(survivors[0].area, 9_000);
    assert_eq!(survivors[1].area, 5_000);
}

#[test]
fn partial_overlap_keeps_larger_area() {
    let small = axis_rect(0, 0, 100, 100, 5_000);
    let large = axis_rect(50, 50, 100, 100, 9_000);
    let sorted = sort_candidates_by_area(&vec![small, large]);
    let survivors = resolve_overlaps(&sorted);
    assert_eq!(survivors.len(), 1);
    assert_eq!(survivors[0].area, 9_000);
}

#[test]
fn warp_plan_of_axis_aligned_rect() {
    let q = Quad { p0: pt(0, 0), p1: pt(10, 0), p2: pt(10, 20), p3: pt(0, 20) };
    let plan = plan_warp(&q);
    // An upright crop: the horizontal edges (length 10) give the width, the
    // vertical edges (length 20) the height, and each source corner maps to
    // the same corner of the output canvas — a near-identity warp.
    assert_eq!(plan.width, 10);
    assert_eq!(plan.height, 20);
    assert_eq!(plan.src.p0, pt(0, 0));
    assert_eq!(plan.src.p1, pt(10, 0));
    assert_eq!(plan.src.p2, pt(10, 20));
    assert_eq!(plan.src.p3, pt(0, 20));
    assert_eq!(plan.dst.p0, pt(0, 0));
    assert_eq!(plan.dst.p1, pt(9, 0));
    assert_eq!(plan.dst.p2, pt(9, 19));
    assert_eq!(plan.dst.p3, pt(0, 19));
}

#[test]
fn warp_plan_extents_floor_at_one() {
    let q = Quad { p0: pt(5, 5), p1: pt(5, 5), p2: pt(5, 5), p3: pt(5, 5) };
    let plan = plan_warp(&q);
    assert_eq!(plan.width, 1);
    assert_eq!(plan.height, 1);
}

#[test]
fn warp_plan_of_rotated_square() {
    // A square with edge vectors (40, 30) and (-30, 40): both edges have
    // length 50, so the rectified output is 50 by 50.
    let q = Quad { p0: pt(0, 0), p1: pt(40, 30), p2: pt(10, 70), p3: pt(-30, 40) };
    let plan = plan_warp(&q);
    assert_eq!(plan.width, 50);
    assert_eq!(plan.height, 50);
}

#[test]
fn rotated_rect_plan_keeps_true_extents() {
    // A rectangle rotated roughly 15 degrees, with edge vectors (30, 8) and
    // (-4, 15): true size about 31 by 16. The plan keeps the width along
    // the top edge and the height along the left edge — no transposition.
    let q = Quad { p0: pt(0, 0), p1: pt(30, 8), p2: pt(26, 23), p3: pt(-4, 15) };
    let plan = plan_warp(&q);
    assert_eq!(plan.width, 31);
    assert_eq!(plan.height, 16);
    assert_eq!(plan.src.p0, pt(0, 0));
    assert_eq!(plan.src.p1, pt(30, 8));
    assert_eq!(plan.src.p2, pt(26, 23));
    assert_eq!(plan.src.p3, pt(-4, 15));
}

#[test]
fn single_detection_from_rotated_candidate() {
    let cand = RectCandidate {
        rect: RotatedRect {
            corners: Quad { p0: pt(0, 0), p1: pt(40, 30), p2: pt(10, 70), p3: pt(-30, 40) },
            width: 50,
            height: 50,
        },
        area: 2_400,
    };
    let plans = plan_photos(&vec![cand], 1_000);
    assert_eq!(plans.len(), 1);
    assert_eq!(plans[0].width, 50);
    assert_eq!(plans[0].height, 50);
}

#[test]
fn two_detections_ordered_by_pixel_count() {
    let small = axis_rect(0, 0, 60, 60, 3_000);
    let large = axis_rect(500, 500, 100, 100, 9_000);
    let plans = plan_photos(&vec![small, large], 1_000);
    assert_eq!(plans.len(), 2);
    assert_eq!((plans[0].width, plans[0].height), (100, 100));
    assert_eq!((plans[1].width, plans[1].height), (60, 60));
}

#[test]
fn equal_pixel_counts_keep_area_order() {
    // Two disjoint candidates whose planned outputs have the same pixel
    // count: the final sort is stable, so the larger-area one stays first.
    let lo = axis_rect(0, 0, 80, 80, 4_000);
    let hi = axis_rect(500, 500, 80, 80, 6_000);
    let plans = plan_photos(&vec![lo, hi], 1_000);
    assert_eq!(plans.len(), 2);
    assert_eq!(plans[0].src.p0, pt(500, 500));
    assert_eq!(plans[1].src.p0, pt(0, 0));
}

#[test]
fn zero_detections_is_valid() {
    let tiny = axis_rect(0, 0, 10, 10, 50);
    let plans = plan_photos(&vec![tiny], 20_000);
    assert_eq!(plans.len(), 0);
}

#[test]
fn high_threshold_auto_derivation_matches_explicit_pair() {
    let implicit = DetectParams { min_area: 20_000, pad: 12, canny_low: 50, canny_high: 0 };
    let explicit = DetectParams { min_area: 20_000, pad: 12, canny_low: 50, canny_high: 150 };
    assert_eq!(normalize_params(&implicit), normalize_params(&explicit));
    assert_eq!(normalize_params(&implicit).canny_high, 150);
}

#[test]
fn high_threshold_never_collapses_onto_low() {
    // With low = 0 the tripled value would equal the low, so the derived
    // high falls back to low + 1.
    let p = DetectParams { min_area: 0, pad: 0, canny_low: 0, canny_high: 0 };
    let n = normalize_params(&p);
    assert_eq!(n.canny_high, 1);
}

#[test]
fn negative_pad_is_clamped() {
    let p = DetectParams { min_area: 0, pad: -7, canny_low: 50, canny_high: 150 };
    let n = normalize_params(&p);
    assert_eq!(n.pad, 0);
    let q = DetectParams { min_area: 0, pad: 12, canny_low: 50, canny_high: 150 };
    assert_eq!(normalize_params(&q).pad, 12);
}
