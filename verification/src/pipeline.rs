//! The per-image orchestration of detection planning: filter candidates,
//! rank them by contour area, resolve overlaps, plan one warp per survivor,
//! and order the planned outputs by pixel count, largest first.

use crate::candidates::{
    all_valid, valid_candidate, filter_candidates, filtered_candidates, sort_candidates_by_area,
    sorted_by_area_desc, lemma_filtered_all_valid, lemma_sorted_all_valid, RectCandidate,
};
use crate::overlap::{lemma_resolved_all_valid, resolve_overlaps, resolved_candidates};
use crate::warp::{
    lemma_warp_plan_valid, plan_warp, valid_plan, warp_plan_spec, WarpPlan,
};
use vstd::prelude::*;

verus! {

/// Total pixel count of a planned output image.
pub open spec fn plan_pixels(p: WarpPlan) -> int {
    p.width * p.height
}

pub open spec fn all_plans_valid(s: Seq<WarpPlan>) -> bool {
    forall|i: int| 0 <= i < s.len() ==> valid_plan(#[trigger] s[i])
}

/// One warp plan per candidate, in candidate order.
pub open spec fn plans_of(s: Seq<RectCandidate>) -> Seq<WarpPlan>
    decreases s.len(),
{
    if s.len() == 0 {
        Seq::empty()
    } else {
        plans_of(s.drop_last()).push(warp_plan_spec(s.last().rect.corners))
    }
}

/// Plans of valid candidates have well-bounded extents.
pub proof fn lemma_plans_of_valid(s: Seq<RectCandidate>)
    requires
        all_valid(s),
    ensures
        all_plans_valid(plans_of(s)),
        plans_of(s).len() == s.len(),
    decreases s.len(),
{
    if s.len() > 0 {
        assert(all_valid(s.drop_last()));
        lemma_plans_of_valid(s.drop_last());
        lemma_warp_plan_valid(s.last().rect.corners);
    }
}

/// `p` inserted into `s` after every plan with at least as many pixels (the
/// stable insertion step of a pixel-count-descending sort).
pub open spec fn insert_by_pixels_desc(s: Seq<WarpPlan>, p: WarpPlan) -> Seq<WarpPlan>
    decreases s.len(),
{
    if s.len() == 0 {
        seq![p]
    } else if plan_pixels(s[0]) >= plan_pixels(p) {
        seq![s[0]] + insert_by_pixels_desc(s.drop_first(), p)
    } else {
        seq![p] + s
    }
}

/// `s` stably sorted by pixel count, largest first.
pub open spec fn sorted_by_pixels_desc(s: Seq<WarpPlan>) -> Seq<WarpPlan>
    decreases s.len(),
{
    if s.len() == 0 {
        Seq::empty()
    } else {
        insert_by_pixels_desc(sorted_by_pixels_desc(s.drop_last()), s.last())
    }
}

proof fn lemma_plan_insert_at_first_smaller(s: Seq<WarpPlan>, p: WarpPlan, j: int)
    requires
        0 <= j <= s.len(),
        forall|k: int| 0 <= k < j ==> plan_pixels(#[trigger] s[k]) >= plan_pixels(p),
        j < s.len() ==> plan_pixels(s[j]) < plan_pixels(p),
    ensures
        s.insert(j, p) == insert_by_pixels_desc(s, p),
    decreases j,
{
    if s.len() == 0 {
        assert(s.insert(0, p) =~= seq![p]);
    } else if j == 0 {
        assert(plan_pixels(s[0]) < plan_pixels(p));
        assert(s.insert(0, p) =~= seq![p] + s);
    } else {
        assert(plan_pixels(s[0]) >= plan_pixels(p));
        lemma_plan_insert_at_first_smaller(s.drop_first(), p, j - 1);
        assert(s.insert(j, p) =~= seq![s[0]] + s.drop_first().insert(j - 1, p));
    }
}

proof fn lemma_plan_insert_all_valid(s: Seq<WarpPlan>, p: WarpPlan)
    requires
        all_plans_valid(s),
        valid_plan(p),
    ensures
        all_plans_valid(insert_by_pixels_desc(s, p)),
    decreases s.len(),
{
    if s.len() == 0 {
    } else if plan_pixels(s[0]) >= plan_pixels(p) {
        assert(all_plans_valid(s.drop_first()));
        lemma_plan_insert_all_valid(s.drop_first(), p);
    }
}

/// Descending pixel-count order, for callers that need it.
pub open spec fn is_sorted_by_pixels_desc(s: Seq<WarpPlan>) -> bool {
    forall|i: int, j: int| 0 <= i < j < s.len() ==> plan_pixels(s[i]) >= plan_pixels(s[j])
}

/// Each element of an insertion's output is the inserted plan or one of the
/// input's, no earlier than one slot before its old place.
proof fn lemma_plan_insert_membership(s: Seq<WarpPlan>, p: WarpPlan, i: int)
    requires
        0 <= i < insert_by_pixels_desc(s, p).len(),
    ensures
        insert_by_pixels_desc(s, p)[i] == p || exists|k: int|
            0 <= k < s.len() && insert_by_pixels_desc(s, p)[i] == s[k] && (i <= k + 1),
    decreases s.len(),
{
    if s.len() == 0 {
    } else if plan_pixels(s[0]) >= plan_pixels(p) {
        if i > 0 {
            lemma_plan_insert_membership(s.drop_first(), p, i - 1);
            let t = insert_by_pixels_desc(s.drop_first(), p);
            if t[i - 1] != p {
                let k = choose|k: int|
                    0 <= k < s.drop_first().len() && t[i - 1] == s.drop_first()[k] && (i - 1 <= k
                        + 1);
                assert(s.drop_first()[k] == s[k + 1]);
            }
        }
    }
}

/// The stable insertion step preserves descending pixel order.
proof fn lemma_plan_insert_sorted(s: Seq<WarpPlan>, p: WarpPlan)
    requires
        is_sorted_by_pixels_desc(s),
    ensures
        is_sorted_by_pixels_desc(insert_by_pixels_desc(s, p)),
    decreases s.len(),
{
    if s.len() == 0 {
    } else if plan_pixels(s[0]) >= plan_pixels(p) {
        assert(is_sorted_by_pixels_desc(s.drop_first()));
        lemma_plan_insert_sorted(s.drop_first(), p);
        let t = seq![s[0]] + insert_by_pixels_desc(s.drop_first(), p);
        assert forall|i: int, j: int| 0 <= i < j < t.len() implies plan_pixels(t[i]) >= plan_pixels(
            t[j],
        ) by {
            lemma_plan_insert_membership(s.drop_first(), p, j - 1);
            if i > 0 {
                lemma_plan_insert_membership(s.drop_first(), p, i - 1);
            }
        }
    }
}

/// The pixel sort really sorts.
proof fn lemma_sorted_by_pixels_desc_sorted(s: Seq<WarpPlan>)
    ensures
        is_sorted_by_pixels_desc(sorted_by_pixels_desc(s)),
    decreases s.len(),
{
    if s.len() > 0 {
        lemma_sorted_by_pixels_desc_sorted(s.drop_last());
        lemma_plan_insert_sorted(sorted_by_pixels_desc(s.drop_last()), s.last());
    }
}

/// The detection plan hands its outputs over in pixel-count-descending
/// order, so output enumeration is stable and reproducible: whenever one
/// planned image has more pixels than another, it comes first.
pub proof fn lemma_detect_plans_ordered(cands: Seq<RectCandidate>, min_area: int)
    ensures
        is_sorted_by_pixels_desc(detect_plans_spec(cands, min_area)),
{
    lemma_sorted_by_pixels_desc_sorted(
        plans_of(resolved_candidates(sorted_by_area_desc(filtered_candidates(cands, min_area)))),
    );
}

/// Total pixel count of a planned output image.
pub fn plan_pixel_count(p: &WarpPlan) -> (r: i64)
    requires
        valid_plan(*p),
    ensures
        r == plan_pixels(*p),
        1 <= r <= 0x40_0000_0000_0000,
{
    proof {
        assert(p.width * p.height <= 0x800_0000 * 0x800_0000) by (nonlinear_arith)
            requires
                1 <= p.width <= 0x800_0000,
                1 <= p.height <= 0x800_0000,
        ;
        assert(p.width * p.height >= 1) by (nonlinear_arith)
            requires
                1 <= p.width,
                1 <= p.height,
        ;
    }
    p.width * p.height
}

/// Stably sorts plans by pixel count, largest first, so that output
/// enumeration order is stable and reproducible.
pub fn sort_plans_by_pixels(plans: &Vec<WarpPlan>) -> (r: Vec<WarpPlan>)
    requires
        all_plans_valid(plans@),
    ensures
        r@ == sorted_by_pixels_desc(plans@),
        all_plans_valid(r@),
{
    let mut out: Vec<WarpPlan> = Vec::new();
    let n = plans.len();
    let mut i: usize = 0;
    while i < n
        invariant
            i <= n,
            n == plans@.len(),
            all_plans_valid(plans@),
            all_plans_valid(out@),
            out@ == sorted_by_pixels_desc(plans@.take(i as int)),
        decreases n - i,
    {
        let p = plans[i];
        proof {
            assert(valid_plan(plans@[i as int]));
        }
        let px = plan_pixel_count(&p);
        let m = out.len();
        let mut j: usize = 0;
        while j < m && plan_pixel_count(&out[j]) >= px
            invariant
                j <= m,
                m == out@.len(),
                all_plans_valid(out@),
                px == plan_pixels(p),
                forall|k: int| 0 <= k < j ==> plan_pixels(#[trigger] out@[k]) >= plan_pixels(p),
            decreases m - j,
        {
            j = j + 1;
        }
        proof {
            lemma_plan_insert_at_first_smaller(out@, p, j as int);
            lemma_plan_insert_all_valid(out@, p);
            assert(plans@.take(i as int + 1).drop_last() =~= plans@.take(i as int));
            assert(plans@.take(i as int + 1).last() == plans@[i as int]);
        }
        out.insert(j, p);
        i = i + 1;
    }
    proof {
        assert(plans@.take(n as int) =~= plans@);
    }
    out
}

/// The full detection plan for one image's candidates: apply the
/// minimum-area and degeneracy filters, rank by contour area, resolve
/// overlaps greedily in favour of larger contours, plan one warp per
/// survivor, and order the planned outputs by pixel count descending.
pub open spec fn detect_plans_spec(cands: Seq<RectCandidate>, min_area: int) -> Seq<WarpPlan> {
    sorted_by_pixels_desc(
        plans_of(resolved_candidates(sorted_by_area_desc(filtered_candidates(cands, min_area)))),
    )
}

/// Plans the detection pipeline for one image, from the measured contour
/// candidates to the ordered list of warps to perform.
pub fn plan_photos(cands: &Vec<RectCandidate>, min_area: i64) -> (r: Vec<WarpPlan>)
    requires
        all_valid(cands@),
    ensures
        r@ == detect_plans_spec(cands@, min_area as int),
        all_plans_valid(r@),
{
    let kept = filter_candidates(cands, min_area);
    proof {
        lemma_filtered_all_valid(cands@, min_area as int);
    }
    let ranked = sort_candidates_by_area(&kept);
    proof {
        lemma_sorted_all_valid(kept@);
    }
    let survivors = resolve_overlaps(&ranked);
    proof {
        lemma_resolved_all_valid(ranked@);
        lemma_plans_of_valid(survivors@);
    }

    let mut plans: Vec<WarpPlan> = Vec::new();
    let n = survivors.len();
    let mut i: usize = 0;
    while i < n
        invariant
            i <= n,
            n == survivors@.len(),
            all_valid(survivors@),
            plans@ == plans_of(survivors@.take(i as int)),
        decreases n - i,
    {
        proof {
            assert(valid_candidate(survivors@[i as int]));
            assert(survivors@.take(i as int + 1).drop_last() =~= survivors@.take(i as int));
            assert(survivors@.take(i as int + 1).last() == survivors@[i as int]);
        }
        let plan = plan_warp(&survivors[i].rect.corners);
        plans.push(plan);
        i = i + 1;
    }
    proof {
        assert(survivors@.take(n as int) =~= survivors@);
        lemma_plans_of_valid(survivors@);
    }
    sort_plans_by_pixels(&plans)
}

} // verus!
