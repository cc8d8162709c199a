//! Exact integer primitives.
use vstd::prelude::*;

verus! {

/// `r` is the integer square root of `n`: the largest `r` with `r² <= n`.
pub open spec fn is_isqrt(n: int, r: int) -> bool {
    0 <= r && r * r <= n && n < (r + 1) * (r + 1)
}

proof fn lemma_square_monotone(a: int, b: int)
    requires
        0 <= a <= b,
    ensures
        a * a <= b * b,
{
    assert(a * a <= b * b) by (nonlinear_arith)
        requires
            0 <= a <= b,
    ;
}

/// Integer square root: the largest `r` with `r² <= n`.
pub fn isqrt(n: u128) -> (r: u64)
    ensures
        is_isqrt(n as int, r as int),
{
    // Invariant: lo² <= n < hi².
    let mut lo: u128 = 0;
    let mut hi: u128 = 0x1_0000_0000_0000_0000;
    proof {
        assert(n < hi * hi) by (nonlinear_arith)
            requires
                n <= 0xffff_ffff_ffff_ffff_ffff_ffff_ffff_ffff,
                hi == 0x1_0000_0000_0000_0000,
        ;
    }
    while hi - lo > 1
        invariant
            lo < hi <= 0x1_0000_0000_0000_0000,
            lo * lo <= n,
            n < hi * hi,
        decreases hi - lo,
    {
        let mid = lo + (hi - lo) / 2;
        proof {
            lemma_square_monotone(mid as int, 0xFFFF_FFFF_FFFF_FFFF);
        }
        if mid * mid <= n {
            lo = mid;
        } else {
            hi = mid;
        }
    }
    proof {
        assert(hi == lo + 1);
    }
    lo as u64
}

/// Whether `s` is `√n` rounded to the nearest whole number: `s − ½ ≤ √n <
/// s + ½` (no tie is possible for a whole `n`).
pub open spec fn is_nearest_root(n: int, s: int) -> bool {
    &&& 0 <= s
    &&& (s == 0 || (2 * s - 1) * (2 * s - 1) <= 4 * n)
    &&& 4 * n < (2 * s + 1) * (2 * s + 1)
}

/// The nearest whole square root is unique.
pub proof fn lemma_nearest_root_unique(n: int, a: int, b: int)
    requires
        is_nearest_root(n, a),
        is_nearest_root(n, b),
    ensures
        a == b,
{
    if a < b {
        lemma_square_monotone(2 * a + 1, 2 * b - 1);
    } else if b < a {
        lemma_square_monotone(2 * b + 1, 2 * a - 1);
    }
}

/// Square root rounded to the nearest whole number.
pub fn nearest_root(n: u128) -> (r: u128)
    ensures
        is_nearest_root(n as int, r as int),
{
    let floor = isqrt(n) as u128;
    proof {
        assert(floor * floor <= n < (floor + 1) * (floor + 1));
        assert((floor + 1) * (floor + 1) == floor * floor + 2 * floor + 1) by (nonlinear_arith);
    }
    if n - floor * floor > floor {
        proof {
            assert((2 * floor + 1) * (2 * floor + 1) == 4 * (floor * floor + floor) + 1) by (nonlinear_arith);
            assert((2 * floor + 3) * (2 * floor + 3) == 4 * ((floor + 1) * (floor + 1)) + 4 * floor + 5)
                by (nonlinear_arith);
        }
        floor + 1
    } else {
        proof {
            assert((2 * floor + 1) * (2 * floor + 1) == 4 * (floor * floor + floor) + 1) by (nonlinear_arith);
            if floor > 0 {
                assert((2 * floor - 1) * (2 * floor - 1) == 4 * (floor * floor) - 4 * floor + 1) by (nonlinear_arith);
            }
        }
        floor
    }
}

} // verus!
