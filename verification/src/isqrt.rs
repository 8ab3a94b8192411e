//! Integer square roots, with round-to-nearest: edge lengths of a detected
//! rectangle are Euclidean distances rounded to whole pixels.

use vstd::prelude::*;

verus! {

/// The floor of the square root of `n`.
pub open spec fn floor_sqrt_spec(n: nat) -> nat
    decreases n,
{
    if n == 0 {
        0
    } else {
        let r = 2 * floor_sqrt_spec((n / 4) as nat);
        if (r + 1) * (r + 1) <= n {
            (r + 1) as nat
        } else {
            r
        }
    }
}

/// The square root of `n` rounded to the nearest integer (ties round up,
/// which cannot occur for integer `n`).
pub open spec fn rounded_sqrt_spec(n: nat) -> nat {
    ((floor_sqrt_spec(4 * n) + 1) / 2) as nat
}

/// `r` is the floor of the square root of `n`.
pub open spec fn is_floor_sqrt(n: int, r: int) -> bool {
    &&& 0 <= r
    &&& r * r <= n
    &&& n < (r + 1) * (r + 1)
}

/// `r` is the square root of `n` rounded to the nearest integer: away from
/// zero it sits within half a unit of the true root, that is,
/// `(2r - 1)^2 <= 4n < (2r + 1)^2`.
pub open spec fn is_rounded_sqrt(n: int, r: int) -> bool {
    if n == 0 {
        r == 0
    } else {
        &&& 1 <= r
        &&& (2 * r - 1) * (2 * r - 1) <= 4 * n
        &&& 4 * n < (2 * r + 1) * (2 * r + 1)
    }
}

/// `floor_sqrt_spec(n)` really is the floor of the square root.
pub proof fn lemma_floor_sqrt_bounds(n: nat)
    ensures
        is_floor_sqrt(n as int, floor_sqrt_spec(n) as int),
    decreases n,
{
    if n == 0 {
        assert(floor_sqrt_spec(0) == 0);
    } else {
        let q = (n / 4) as nat;
        lemma_floor_sqrt_bounds(q);
        let s = floor_sqrt_spec(q) as int;
        let r: int = 2 * s;
        let ni = n as int;
        assert(4 * (q as int) <= ni);
        assert(ni < 4 * (q as int) + 4);
        assert(s * s <= q as int);
        assert((q as int) < (s + 1) * (s + 1));
        assert(r * r == 4 * (s * s)) by (nonlinear_arith)
            requires r == 2 * s,
        ;
        assert((r + 2) * (r + 2) == 4 * ((s + 1) * (s + 1))) by (nonlinear_arith)
            requires r == 2 * s,
        ;
        assert(r * r <= ni);
        assert(ni < (r + 2) * (r + 2));
        if (r + 1) * (r + 1) <= ni {
            assert(floor_sqrt_spec(n) == r + 1);
        } else {
            assert(floor_sqrt_spec(n) == r);
        }
    }
}

/// Any value squeezed between the same squares as the floor square root
/// equals it.
pub proof fn lemma_floor_sqrt_unique(n: int, r: int, f: int)
    requires
        is_floor_sqrt(n, r),
        is_floor_sqrt(n, f),
    ensures
        r == f,
{
    assert(r < f + 1 && f < r + 1) by (nonlinear_arith)
        requires
            0 <= r,
            0 <= f,
            r * r <= n,
            n < (r + 1) * (r + 1),
            f * f <= n,
            n < (f + 1) * (f + 1),
    ;
}

/// `rounded_sqrt_spec(n)` satisfies the round-to-nearest characterization.
pub proof fn lemma_rounded_sqrt_bounds(n: nat)
    ensures
        is_rounded_sqrt(n as int, rounded_sqrt_spec(n) as int),
{
    lemma_floor_sqrt_bounds(4 * n);
    let s = floor_sqrt_spec(4 * n) as int;
    let r = rounded_sqrt_spec(n) as int;
    let ni = n as int;
    assert(s * s <= 4 * ni);
    assert(4 * ni < (s + 1) * (s + 1));
    if n == 0 {
        assert(floor_sqrt_spec(0) == 0);
    } else {
        if s == 0 {
            assert(4 * ni < 1) by (nonlinear_arith)
                requires
                    s == 0,
                    4 * ni < (s + 1) * (s + 1),
            ;
            assert(false);
        }
        assert(r == (s + 1) / 2);
        if s % 2 == 0 {
            assert(2 * r == s);
            assert((2 * r - 1) * (2 * r - 1) <= s * s) by (nonlinear_arith)
                requires
                    r >= 1,
                    2 * r == s,
            ;
            assert((s + 1) * (s + 1) <= (2 * r + 1) * (2 * r + 1)) by (nonlinear_arith)
                requires 2 * r == s,
            ;
        } else {
            assert(2 * r - 1 == s);
            assert((s + 1) * (s + 1) <= (2 * r + 1) * (2 * r + 1)) by (nonlinear_arith)
                requires
                    s >= 1,
                    2 * r - 1 == s,
            ;
        }
    }
}

/// A bound used to keep warp-target extents comfortably inside `i64`
/// arithmetic: squared distances up to `2^51` have rounded roots under `2^27`.
pub proof fn lemma_rounded_sqrt_limit(n: nat)
    requires
        n <= 0x8_0000_0000_0000,
    ensures
        rounded_sqrt_spec(n) <= 0x800_0000,
{
    lemma_rounded_sqrt_bounds(n);
    let r = rounded_sqrt_spec(n) as int;
    if r > 0x800_0000 {
        assert((2 * r - 1) * (2 * r - 1) > 0x20_0000_0000_0000) by (nonlinear_arith)
            requires r > 0x800_0000,
        ;
    }
}

/// Floor of the square root, by bisection.
pub fn floor_sqrt(n: u64) -> (r: u64)
    requires
        n <= 0x20_0000_0000_0000,
    ensures
        r == floor_sqrt_spec(n as nat),
        r <= 0x800_0000,
{
    if n == 0 {
        return 0;
    }
    let mut lo: u64 = 0;
    let mut hi: u64 = 0x800_0001;
    proof {
        assert(n < 0x800_0001 * 0x800_0001) by (nonlinear_arith)
            requires n <= 0x20_0000_0000_0000,
        ;
    }
    while hi - lo > 1
        invariant
            lo < hi <= 0x800_0001,
            lo * lo <= n,
            n < hi * hi,
        decreases hi - lo,
    {
        let mid = lo + (hi - lo) / 2;
        proof {
            assert(mid * mid <= 0x800_0001 * 0x800_0001) by (nonlinear_arith)
                requires mid <= 0x800_0001,
            ;
        }
        if mid * mid <= n {
            lo = mid;
        } else {
            hi = mid;
        }
    }
    proof {
        lemma_floor_sqrt_bounds(n as nat);
        lemma_floor_sqrt_unique(n as int, lo as int, floor_sqrt_spec(n as nat) as int);
    }
    lo
}

/// Square root rounded to the nearest integer.
pub fn rounded_sqrt(n: u64) -> (r: u64)
    requires
        n <= 0x8_0000_0000_0000,
    ensures
        r == rounded_sqrt_spec(n as nat),
        r <= 0x800_0000,
{
    let s = floor_sqrt(4 * n);
    proof {
        lemma_rounded_sqrt_limit(n as nat);
    }
    (s + 1) / 2
}

} // verus!
