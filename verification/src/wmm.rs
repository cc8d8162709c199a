//! World Magnetic Model: the layout of its spherical-harmonic coefficients.
//!
//! The model's coefficients come degree by degree, every order `0 ≤ m ≤ n`
//! for each degree `n` from 1 to [`MAX_DEGREE`]; the associated Legendre
//! functions are kept in a triangular table indexed by [`slot`]. The field
//! synthesis itself is floating-point and runs outside the library.
use vstd::prelude::*;

use crate::error::KernelError;

verus! {

/// Highest degree of the expansion.
pub const MAX_DEGREE: usize = 12;

/// Number of `(n, m)` pairs up to [`MAX_DEGREE`], `n = 0` included.
pub const TABLE_LEN: usize = 91;

/// Rows of a coefficient table: every `(n, m)` with `1 ≤ n ≤ MAX_DEGREE`.
pub const MAX_COEFFICIENTS: usize = 90;

/// Index of degree `n`, order `m` in a triangular table.
pub open spec fn slot_spec(n: int, m: int) -> int {
    n * (n + 1) / 2 + m
}

/// `x`, or `usize::MAX` if larger.
pub open spec fn saturate(x: int) -> int {
    if x > usize::MAX {
        usize::MAX as int
    } else {
        x
    }
}

/// Index of degree `n`, order `m` in a triangular table, with saturating
/// arithmetic: exact for every pair of the model.
pub fn slot(n: usize, m: usize) -> (r: usize)
    ensures
        r == saturate(saturate(n * saturate(n + 1)) / 2 + m),
        n <= MAX_DEGREE && m <= n ==> r == slot_spec(n as int, m as int),
{
    let next: u128 = if n == usize::MAX {
        usize::MAX as u128
    } else {
        (n + 1) as u128
    };
    assert((n as u128) * next <= (usize::MAX as int) * (usize::MAX as int)) by (nonlinear_arith)
        requires
            n <= usize::MAX,
            next <= usize::MAX,
    ;
    assert((usize::MAX as int) * (usize::MAX as int) <= u128::MAX) by (nonlinear_arith)
        requires
            usize::MAX <= u64::MAX,
    ;
    let product: u128 = (n as u128) * next;
    let product: u128 = if product > usize::MAX as u128 {
        usize::MAX as u128
    } else {
        product
    };
    let half = (product / 2) as usize;
    proof {
        if n <= MAX_DEGREE {
            assert(n * (n + 1) <= 12 * 13) by (nonlinear_arith)
                requires
                    n <= 12,
            ;
        }
    }
    half.saturating_add(m)
}

/// Distinct pairs of the model have distinct slots, all in the table: the
/// triangular layout loses nothing and overlaps nothing.
pub proof fn law_slots_distinct(n1: int, m1: int, n2: int, m2: int)
    requires
        0 <= m1 <= n1 <= MAX_DEGREE,
        0 <= m2 <= n2 <= MAX_DEGREE,
        (n1, m1) != (n2, m2),
    ensures
        slot_spec(n1, m1) != slot_spec(n2, m2),
        0 <= slot_spec(n1, m1) < TABLE_LEN,
{
    lemma_slot_bounds(n1, m1);
    lemma_slot_bounds(n2, m2);
    if n1 < n2 {
        lemma_triangle_grows(n1 + 1, n2);
    } else if n2 < n1 {
        lemma_triangle_grows(n2 + 1, n1);
    }
}

/// Slots of degree `n` lie in `[n(n+1)/2, (n+1)(n+2)/2)`.
proof fn lemma_slot_bounds(n: int, m: int)
    requires
        0 <= m <= n <= MAX_DEGREE,
    ensures
        n * (n + 1) / 2 <= slot_spec(n, m) < (n + 1) * (n + 2) / 2,
        (n + 1) * (n + 2) / 2 == n * (n + 1) / 2 + n + 1,
        0 <= slot_spec(n, m) < TABLE_LEN,
{
    assert((n + 1) * (n + 2) == n * (n + 1) + 2 * (n + 1)) by (nonlinear_arith);
    assert(n * (n + 1) % 2 == 0) by (nonlinear_arith)
        requires
            0 <= n <= 12,
    ;
    assert((n + 1) * (n + 2) <= 13 * 14) by (nonlinear_arith)
        requires
            0 <= n <= 12,
    ;
}

/// The start of degree `b`'s slots is at or after the end of degree `a - 1`'s.
proof fn lemma_triangle_grows(a: int, b: int)
    requires
        0 < a <= b <= MAX_DEGREE,
    ensures
        a * (a + 1) / 2 <= b * (b + 1) / 2,
{
    assert(a * (a + 1) <= b * (b + 1)) by (nonlinear_arith)
        requires
            0 < a <= b,
    ;
}

/// Degree and order of row `k` of a coefficient table, in file order:
/// `(1, 0), (1, 1), (2, 0), …`.
pub open spec fn expected_row(k: nat) -> (int, int)
    decreases k,
{
    if k == 0 {
        (1, 0)
    } else {
        let (n, m) = expected_row((k - 1) as nat);
        if m == n {
            (n + 1, 0)
        } else {
            (n, m + 1)
        }
    }
}

/// Row `k` of a coefficient table sits at slot `k + 1` of the triangular
/// table: the file order is the table order, north pole term aside.
pub proof fn law_row_is_slot(k: nat)
    ensures
        expected_row(k).0 >= 1,
        0 <= expected_row(k).1 <= expected_row(k).0,
        slot_spec(expected_row(k).0, expected_row(k).1) == k + 1,
    decreases k,
{
    if k > 0 {
        law_row_is_slot((k - 1) as nat);
        let (n, m) = expected_row((k - 1) as nat);
        if m == n {
            assert((n + 1) * (n + 2) == n * (n + 1) + 2 * (n + 1)) by (nonlinear_arith);
        }
    }
}

/// Checks the layout of a coefficient table given as `(degree, order)` rows:
/// the full expansion, degree by degree, every order of each degree.
///
/// # Errors
///
/// - [`KernelError::InsufficientData`] for fewer than [`MAX_COEFFICIENTS`]
///   rows, [`KernelError::CapacityExceeded`] for more.
/// - [`KernelError::Parse`] for a row out of order.
pub fn check_layout(rows: &[(u8, u8)]) -> (r: Result<(), KernelError>)
    ensures
        match r {
            Ok(()) => rows@.len() == MAX_COEFFICIENTS && forall|k: int|
                0 <= k < rows@.len() ==> (#[trigger] rows@[k].0 as int, rows@[k].1 as int)
                    == expected_row(k as nat),
            Err(e) => if rows@.len() < MAX_COEFFICIENTS {
                e == KernelError::InsufficientData {
                    found: rows@.len() as usize,
                    required: MAX_COEFFICIENTS,
                    context: "a coefficient table",
                }
            } else if rows@.len() > MAX_COEFFICIENTS {
                e == KernelError::CapacityExceeded {
                    context: "a coefficient table",
                    needed: rows@.len() as usize,
                    capacity: MAX_COEFFICIENTS,
                }
            } else {
                e == KernelError::Parse { what: "coefficient table" } && exists|k: int|
                    0 <= k < rows@.len() && (#[trigger] rows@[k].0 as int, rows@[k].1 as int)
                        != expected_row(k as nat)
            },
        },
{
    let len = rows.len();
    if len < MAX_COEFFICIENTS {
        return Err(
            KernelError::InsufficientData {
                found: len,
                required: MAX_COEFFICIENTS,
                context: "a coefficient table",
            },
        );
    }
    if len > MAX_COEFFICIENTS {
        return Err(
            KernelError::CapacityExceeded {
                context: "a coefficient table",
                needed: len,
                capacity: MAX_COEFFICIENTS,
            },
        );
    }
    let mut n: u8 = 1;
    let mut m: u8 = 0;
    let mut k: usize = 0;
    while k < len
        invariant
            len == rows@.len(),
            len == MAX_COEFFICIENTS,
            k <= len,
            (n as int, m as int) == expected_row(k as nat),
            1 <= n,
            m <= n,
            k < len ==> slot_spec(n as int, m as int) == k + 1,
            forall|j: int|
                0 <= j < k ==> (#[trigger] rows@[j].0 as int, rows@[j].1 as int) == expected_row(
                    j as nat,
                ),
        decreases len - k,
    {
        proof {
            law_row_is_slot(k as nat);
        }
        let (rn, rm) = rows[k];
        if rn != n || rm != m {
            return Err(KernelError::Parse { what: "coefficient table" });
        }
        proof {
            assert(n <= MAX_DEGREE) by {
                if n > MAX_DEGREE {
                    assert(n * (n + 1) / 2 >= 13 * 14 / 2) by (nonlinear_arith)
                        requires
                            n >= 13,
                    ;
                }
            }
        }
        if m == n {
            n = n + 1;
            m = 0;
        } else {
            m = m + 1;
        }
        k = k + 1;
        proof {
            if k < len {
                law_row_is_slot(k as nat);
            }
        }
    }
    Ok(())
}

} // verus!
