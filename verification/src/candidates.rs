//! Candidate rectangles: the minimum-area filter, the degeneracy filter, and
//! the area-descending order in which overlaps are resolved.

use crate::geometry::{valid_quad, Quad};
use vstd::prelude::*;

verus! {

/// A rotated-rectangle candidate: its four corner points in image space, and
/// the extents the detector measured for it, in whole pixels.
#[derive(Clone, Copy, Debug, PartialEq, Eq, Structural)]
pub struct RotatedRect {
    pub corners: Quad,
    pub width: i64,
    pub height: i64,
}

/// A candidate photo: a rotated rectangle plus the measured area of the
/// contour it came from (used for ranking; the rectangle may over- or
/// under-bound the true contour).
#[derive(Clone, Copy, Debug, PartialEq, Eq, Structural)]
pub struct RectCandidate {
    pub rect: RotatedRect,
    pub area: i64,
}

pub open spec fn valid_candidate(c: RectCandidate) -> bool {
    valid_quad(c.rect.corners)
}

pub open spec fn all_valid(s: Seq<RectCandidate>) -> bool {
    forall|i: int| 0 <= i < s.len() ==> valid_candidate(#[trigger] s[i])
}

/// A candidate survives the initial filters when its contour area reaches the
/// caller's floor (inclusive: an area exactly equal to `min_area` is kept)
/// and neither extent of its rectangle is degenerate (at most one pixel).
pub open spec fn candidate_kept(c: RectCandidate, min_area: int) -> bool {
    &&& c.area >= min_area
    &&& c.rect.width > 1
    &&& c.rect.height > 1
}

/// The subsequence of candidates that pass the minimum-area and degeneracy
/// filters, in input order.
pub open spec fn filtered_candidates(s: Seq<RectCandidate>, min_area: int) -> Seq<RectCandidate>
    decreases s.len(),
{
    if s.len() == 0 {
        Seq::empty()
    } else {
        let rest = filtered_candidates(s.drop_last(), min_area);
        if candidate_kept(s.last(), min_area) {
            rest.push(s.last())
        } else {
            rest
        }
    }
}

/// Keeps the candidates whose contour area is at least `min_area` (the floor
/// is inclusive: rejection happens only strictly below it) and whose
/// rectangle extents both exceed one pixel.
pub fn filter_candidates(cands: &Vec<RectCandidate>, min_area: i64) -> (r: Vec<RectCandidate>)
    ensures
        r@ == filtered_candidates(cands@, min_area as int),
{
    let mut out: Vec<RectCandidate> = Vec::new();
    let n = cands.len();
    let mut i: usize = 0;
    while i < n
        invariant
            i <= n,
            n == cands@.len(),
            out@ == filtered_candidates(cands@.take(i as int), min_area as int),
        decreases n - i,
    {
        let c = cands[i];
        proof {
            assert(cands@.take(i as int + 1).drop_last() =~= cands@.take(i as int));
            assert(cands@.take(i as int + 1).last() == cands@[i as int]);
        }
        if c.area >= min_area && c.rect.width > 1 && c.rect.height > 1 {
            out.push(c);
        }
        i = i + 1;
    }
    proof {
        assert(cands@.take(n as int) =~= cands@);
    }
    out
}

/// Filtering preserves validity of the candidates.
pub proof fn lemma_filtered_all_valid(s: Seq<RectCandidate>, min_area: int)
    requires
        all_valid(s),
    ensures
        all_valid(filtered_candidates(s, min_area)),
    decreases s.len(),
{
    if s.len() > 0 {
        assert(all_valid(s.drop_last()));
        lemma_filtered_all_valid(s.drop_last(), min_area);
    }
}

/// `c` inserted into `s` after every element whose area is at least
/// `c.area` (the stable insertion step of an area-descending sort).
pub open spec fn insert_by_area_desc(s: Seq<RectCandidate>, c: RectCandidate) -> Seq<
    RectCandidate,
>
    decreases s.len(),
{
    if s.len() == 0 {
        seq![c]
    } else if s[0].area >= c.area {
        seq![s[0]] + insert_by_area_desc(s.drop_first(), c)
    } else {
        seq![c] + s
    }
}

/// `s` stably sorted by contour area, largest first.
pub open spec fn sorted_by_area_desc(s: Seq<RectCandidate>) -> Seq<RectCandidate>
    decreases s.len(),
{
    if s.len() == 0 {
        Seq::empty()
    } else {
        insert_by_area_desc(sorted_by_area_desc(s.drop_last()), s.last())
    }
}

/// Inserting at the first position whose element's area is below `c.area`
/// performs the stable insertion step.
proof fn lemma_insert_at_first_smaller(s: Seq<RectCandidate>, c: RectCandidate, j: int)
    requires
        0 <= j <= s.len(),
        forall|k: int| 0 <= k < j ==> (#[trigger] s[k]).area >= c.area,
        j < s.len() ==> s[j].area < c.area,
    ensures
        s.insert(j, c) == insert_by_area_desc(s, c),
    decreases j,
{
    if s.len() == 0 {
        assert(s.insert(0, c) =~= seq![c]);
    } else if j == 0 {
        assert(s[0].area < c.area);
        assert(s.insert(0, c) =~= seq![c] + s);
    } else {
        assert(s[0].area >= c.area);
        lemma_insert_at_first_smaller(s.drop_first(), c, j - 1);
        assert(s.insert(j, c) =~= seq![s[0]] + s.drop_first().insert(j - 1, c));
    }
}

/// Insertion preserves validity.
proof fn lemma_insert_all_valid(s: Seq<RectCandidate>, c: RectCandidate)
    requires
        all_valid(s),
        valid_candidate(c),
    ensures
        all_valid(insert_by_area_desc(s, c)),
    decreases s.len(),
{
    if s.len() == 0 {
    } else if s[0].area >= c.area {
        assert(all_valid(s.drop_first()));
        lemma_insert_all_valid(s.drop_first(), c);
    }
}

/// Sorting preserves validity of the candidates.
pub proof fn lemma_sorted_all_valid(s: Seq<RectCandidate>)
    requires
        all_valid(s),
    ensures
        all_valid(sorted_by_area_desc(s)),
    decreases s.len(),
{
    if s.len() > 0 {
        assert(all_valid(s.drop_last()));
        lemma_sorted_all_valid(s.drop_last());
        lemma_insert_all_valid(sorted_by_area_desc(s.drop_last()), s.last());
    }
}

/// The stable insertion step preserves descending order.
proof fn lemma_insert_sorted(s: Seq<RectCandidate>, c: RectCandidate)
    requires
        is_sorted_by_area_desc(s),
    ensures
        is_sorted_by_area_desc(insert_by_area_desc(s, c)),
    decreases s.len(),
{
    if s.len() == 0 {
    } else if s[0].area >= c.area {
        assert(is_sorted_by_area_desc(s.drop_first()));
        lemma_insert_sorted(s.drop_first(), c);
        let t = seq![s[0]] + insert_by_area_desc(s.drop_first(), c);
        assert forall|i: int, j: int| 0 <= i < j < t.len() implies t[i].area >= t[j].area by {
            lemma_insert_area_membership(s.drop_first(), c, j - 1);
            if i > 0 {
                lemma_insert_area_membership(s.drop_first(), c, i - 1);
            }
        }
    }
}

/// Each element of an insertion's output is the inserted element or one of
/// the input's.
proof fn lemma_insert_area_membership(s: Seq<RectCandidate>, c: RectCandidate, i: int)
    requires
        0 <= i < insert_by_area_desc(s, c).len(),
    ensures
        insert_by_area_desc(s, c)[i] == c || exists|k: int|
            0 <= k < s.len() && insert_by_area_desc(s, c)[i] == s[k] && (i <= k + 1),
    decreases s.len(),
{
    if s.len() == 0 {
    } else if s[0].area >= c.area {
        if i > 0 {
            lemma_insert_area_membership(s.drop_first(), c, i - 1);
            let t = insert_by_area_desc(s.drop_first(), c);
            if t[i - 1] != c {
                let k = choose|k: int|
                    0 <= k < s.drop_first().len() && t[i - 1] == s.drop_first()[k] && (i - 1 <= k
                        + 1);
                assert(s.drop_first()[k] == s[k + 1]);
            }
        }
    }
}

/// Sorted order of the output of the stable sort, for callers that need it.
pub open spec fn is_sorted_by_area_desc(s: Seq<RectCandidate>) -> bool {
    forall|i: int, j: int| 0 <= i < j < s.len() ==> s[i].area >= s[j].area
}

/// The stable sort really sorts.
pub proof fn lemma_sorted_by_area_desc_sorted(s: Seq<RectCandidate>)
    ensures
        is_sorted_by_area_desc(sorted_by_area_desc(s)),
    decreases s.len(),
{
    if s.len() > 0 {
        lemma_sorted_by_area_desc_sorted(s.drop_last());
        lemma_insert_sorted(sorted_by_area_desc(s.drop_last()), s.last());
    }
}

/// Stably sorts candidates by contour area, largest first, so overlaps are
/// resolved in favour of larger contours.
pub fn sort_candidates_by_area(cands: &Vec<RectCandidate>) -> (r: Vec<RectCandidate>)
    ensures
        r@ == sorted_by_area_desc(cands@),
{
    let mut out: Vec<RectCandidate> = Vec::new();
    let n = cands.len();
    let mut i: usize = 0;
    while i < n
        invariant
            i <= n,
            n == cands@.len(),
            out@ == sorted_by_area_desc(cands@.take(i as int)),
        decreases n - i,
    {
        let c = cands[i];
        let m = out.len();
        let mut j: usize = 0;
        while j < m && out[j].area >= c.area
            invariant
                j <= m,
                m == out@.len(),
                forall|k: int| 0 <= k < j ==> (#[trigger] out@[k]).area >= c.area,
            decreases m - j,
        {
            j = j + 1;
        }
        proof {
            lemma_insert_at_first_smaller(out@, c, j as int);
            assert(cands@.take(i as int + 1).drop_last() =~= cands@.take(i as int));
            assert(cands@.take(i as int + 1).last() == cands@[i as int]);
        }
        out.insert(j, c);
        i = i + 1;
    }
    proof {
        assert(cands@.take(n as int) =~= cands@);
    }
    out
}

} // verus!
