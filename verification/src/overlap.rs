//! Overlap resolution: candidates are taken in area-descending order and one
//! is accepted only when its axis-aligned bounding box is disjoint from every
//! already-accepted candidate's box.

use crate::candidates::{all_valid, sorted_by_area_desc, valid_candidate, RectCandidate};
use crate::geometry::{boxes_overlap, rects_overlap};
use vstd::prelude::*;

verus! {

/// Whether `c`'s bounding box overlaps the box of any accepted candidate.
pub open spec fn overlaps_any(c: RectCandidate, kept: Seq<RectCandidate>) -> bool {
    exists|i: int|
        0 <= i < kept.len() && boxes_overlap(
            (#[trigger] kept[i]).rect.corners,
            c.rect.corners,
        )
}

/// The greedy acceptance pass over `s`, with `acc` already accepted.
pub open spec fn greedy_filter_from(s: Seq<RectCandidate>, acc: Seq<RectCandidate>) -> Seq<
    RectCandidate,
>
    decreases s.len(),
{
    if s.len() == 0 {
        acc
    } else if overlaps_any(s[0], acc) {
        greedy_filter_from(s.drop_first(), acc)
    } else {
        greedy_filter_from(s.drop_first(), acc.push(s[0]))
    }
}

/// The survivors of overlap resolution: the greedy pass over `s` starting
/// from nothing accepted. `s` is expected in area-descending order, so the
/// larger of two overlapping candidates survives.
pub open spec fn resolved_candidates(s: Seq<RectCandidate>) -> Seq<RectCandidate> {
    greedy_filter_from(s, Seq::empty())
}

/// No two candidates' bounding boxes overlap.
pub open spec fn pairwise_disjoint(s: Seq<RectCandidate>) -> bool {
    forall|i: int, j: int|
        0 <= i < j < s.len() ==> !boxes_overlap(
            (#[trigger] s[i]).rect.corners,
            (#[trigger] s[j]).rect.corners,
        )
}

/// Accepts candidates greedily, in the given order, skipping any whose
/// bounding box overlaps an already-accepted candidate's box.
pub fn resolve_overlaps(sorted: &Vec<RectCandidate>) -> (r: Vec<RectCandidate>)
    requires
        all_valid(sorted@),
    ensures
        r@ == resolved_candidates(sorted@),
{
    let mut out: Vec<RectCandidate> = Vec::new();
    let n = sorted.len();
    let mut i: usize = 0;
    proof {
        assert(sorted@.skip(0) =~= sorted@);
    }
    while i < n
        invariant
            i <= n,
            n == sorted@.len(),
            all_valid(sorted@),
            all_valid(out@),
            resolved_candidates(sorted@) == greedy_filter_from(
                sorted@.skip(i as int),
                out@,
            ),
        decreases n - i,
    {
        let c = sorted[i];
        let m = out.len();
        let mut j: usize = 0;
        let mut found = false;
        while j < m
            invariant
                j <= m,
                m == out@.len(),
                all_valid(out@),
                valid_candidate(c),
                found == exists|k: int|
                    0 <= k < j && boxes_overlap((#[trigger] out@[k]).rect.corners, c.rect.corners),
            decreases m - j,
        {
            if rects_overlap(&out[j].rect.corners, &c.rect.corners) {
                found = true;
            }
            j = j + 1;
        }
        proof {
            assert(found == overlaps_any(c, out@));
            assert(sorted@.skip(i as int).drop_first() =~= sorted@.skip(i as int + 1));
            assert(sorted@.skip(i as int)[0] == sorted@[i as int]);
        }
        if !found {
            out.push(c);
        }
        i = i + 1;
    }
    proof {
        assert(sorted@.skip(n as int) =~= Seq::<RectCandidate>::empty());
    }
    out
}

/// The greedy pass never lets two overlapping candidates both survive.
proof fn lemma_greedy_filter_from_disjoint(s: Seq<RectCandidate>, acc: Seq<RectCandidate>)
    requires
        pairwise_disjoint(acc),
    ensures
        pairwise_disjoint(greedy_filter_from(s, acc)),
    decreases s.len(),
{
    if s.len() == 0 {
    } else if overlaps_any(s[0], acc) {
        lemma_greedy_filter_from_disjoint(s.drop_first(), acc);
    } else {
        let acc2 = acc.push(s[0]);
        assert forall|i: int, j: int| 0 <= i < j < acc2.len() implies !boxes_overlap(
            acc2[i].rect.corners,
            acc2[j].rect.corners,
        ) by {
            if j == acc.len() {
                assert(acc2[j] == s[0]);
                assert(!boxes_overlap(acc[i].rect.corners, s[0].rect.corners));
            }
        }
        lemma_greedy_filter_from_disjoint(s.drop_first(), acc2);
    }
}

/// The overlap resolver's invariant: no two survivors' bounding boxes
/// intersect with positive area in both axes.
pub proof fn lemma_resolved_candidates_disjoint(s: Seq<RectCandidate>)
    ensures
        pairwise_disjoint(resolved_candidates(s)),
{
    lemma_greedy_filter_from_disjoint(s, Seq::empty());
}

/// The greedy pass keeps every already-accepted candidate and adds only
/// candidates drawn from its input.
proof fn lemma_greedy_filter_from_valid(s: Seq<RectCandidate>, acc: Seq<RectCandidate>)
    requires
        all_valid(s),
        all_valid(acc),
    ensures
        all_valid(greedy_filter_from(s, acc)),
    decreases s.len(),
{
    if s.len() == 0 {
    } else {
        assert(all_valid(s.drop_first()));
        if overlaps_any(s[0], acc) {
            lemma_greedy_filter_from_valid(s.drop_first(), acc);
        } else {
            assert(all_valid(acc.push(s[0])));
            lemma_greedy_filter_from_valid(s.drop_first(), acc.push(s[0]));
        }
    }
}

/// Resolution of two candidates of different contour areas, handed over in
/// either order: when their bounding boxes overlap — identically, nested or
/// partially — only the larger-area candidate survives; when the boxes are
/// disjoint, both survive, larger first.
pub proof fn lemma_two_candidate_resolution(a: RectCandidate, b: RectCandidate, s: Seq<
    RectCandidate,
>)
    requires
        a.area > b.area,
        s == seq![a, b] || s == seq![b, a],
    ensures
        boxes_overlap(a.rect.corners, b.rect.corners) ==> resolved_candidates(
            sorted_by_area_desc(s),
        ) == seq![a],
        !boxes_overlap(a.rect.corners, b.rect.corners) ==> resolved_candidates(
            sorted_by_area_desc(s),
        ) == seq![a, b],
{
    reveal_with_fuel(sorted_by_area_desc, 3);
    reveal_with_fuel(crate::candidates::insert_by_area_desc, 3);
    reveal_with_fuel(greedy_filter_from, 4);
    assert(s.len() == 2);
    assert(s.drop_last() =~= seq![s[0]]);
    assert(s.last() == s[1]);
    assert(seq![s[0]].drop_last() =~= Seq::<RectCandidate>::empty());
    assert(sorted_by_area_desc(seq![s[0]]) =~= seq![s[0]]);
    let t = sorted_by_area_desc(s);
    assert(t == insert_into_singleton(s[0], s[1]));
    assert(t =~= seq![a, b]);

    let acc0 = Seq::<RectCandidate>::empty();
    assert(!overlaps_any(a, acc0));
    assert(t.drop_first() =~= seq![b]);
    let acc1 = acc0.push(a);
    assert(acc1 =~= seq![a]);
    if boxes_overlap(a.rect.corners, b.rect.corners) {
        assert(overlaps_any(b, acc1));
        assert(seq![b].drop_first() =~= Seq::<RectCandidate>::empty());
        assert(resolved_candidates(t) == acc1);
    } else {
        assert(!overlaps_any(b, acc1)) by {
            if overlaps_any(b, acc1) {
                let i = choose|i: int|
                    0 <= i < acc1.len() && boxes_overlap(acc1[i].rect.corners, b.rect.corners);
                assert(acc1[i] == a);
            }
        }
        assert(seq![b].drop_first() =~= Seq::<RectCandidate>::empty());
        assert(resolved_candidates(t) == acc1.push(b));
        assert(acc1.push(b) =~= seq![a, b]);
    }
}

/// The stable insertion of `c` into the one-element sequence `[d]`.
spec fn insert_into_singleton(d: RectCandidate, c: RectCandidate) -> Seq<RectCandidate> {
    if d.area >= c.area {
        seq![d, c]
    } else {
        seq![c, d]
    }
}

/// Survivors of overlap resolution are candidates of its input, so validity
/// carries over.
pub proof fn lemma_resolved_all_valid(s: Seq<RectCandidate>)
    requires
        all_valid(s),
    ensures
        all_valid(resolved_candidates(s)),
{
    lemma_greedy_filter_from_valid(s, Seq::empty());
}

} // verus!
