//! Tunable detection parameters and their normalization: the padding border
//! is clamped to be non-negative, and the edge detector's high threshold is
//! auto-derived whenever the caller hands a pair that is not ascending.

use vstd::prelude::*;

verus! {

/// Upper bound accepted for edge-detector thresholds; keeps the tripled
/// threshold inside `i64`.
pub const THRESHOLD_LIMIT: i64 = 1_000_000_000;

/// The caller-tunable knobs of the detection pipeline.
#[derive(Clone, Copy, Debug, PartialEq, Eq, Structural)]
pub struct DetectParams {
    /// Minimum contour area, in pixels, below which a candidate is noise.
    pub min_area: i64,
    /// Replicated-border padding, in pixels, applied before detection.
    pub pad: i64,
    /// Edge detector's low threshold.
    pub canny_low: i64,
    /// Edge detector's high threshold; must end up strictly above the low.
    pub canny_high: i64,
}

/// The high threshold the edge detector receives: the caller's value when
/// the pair already ascends, else `max(3 * low, low + 1)`.
pub open spec fn derived_high(low: int, high: int) -> int {
    if high <= low {
        if 3 * low > low + 1 {
            3 * low
        } else {
            low + 1
        }
    } else {
        high
    }
}

/// Normalized parameters: the pad clamped to be non-negative and the
/// threshold pair made strictly ascending. Everything else is unchanged.
pub open spec fn normalized_params(p: DetectParams) -> DetectParams {
    DetectParams {
        min_area: p.min_area,
        pad: if p.pad > 0 {
            p.pad
        } else {
            0
        },
        canny_low: p.canny_low,
        canny_high: derived_high(p.canny_low as int, p.canny_high as int) as i64,
    }
}

/// Clamps the padding to be non-negative and derives the high threshold
/// when the caller's pair is not strictly ascending, so the edge detector
/// always receives a valid pair.
pub fn normalize_params(p: &DetectParams) -> (r: DetectParams)
    requires
        -THRESHOLD_LIMIT <= p.canny_low <= THRESHOLD_LIMIT,
    ensures
        r == normalized_params(*p),
        r.canny_low < r.canny_high,
{
    let pad = if p.pad > 0 {
        p.pad
    } else {
        0
    };
    let high = if p.canny_high <= p.canny_low {
        let tripled = 3 * p.canny_low;
        if tripled > p.canny_low + 1 {
            tripled
        } else {
            p.canny_low + 1
        }
    } else {
        p.canny_high
    };
    DetectParams { min_area: p.min_area, pad, canny_low: p.canny_low, canny_high: high }
}

/// Auto-derivation is indifferent to where below `low` the caller's high
/// threshold lay: every non-ascending pair normalizes to the same
/// parameters, the ones an explicitly valid pair would give.
pub proof fn lemma_derived_high_uniform(low: int, h1: int, h2: int)
    requires
        h1 <= low,
        h2 <= low,
    ensures
        derived_high(low, h1) == derived_high(low, h2),
{
}

} // verus!
