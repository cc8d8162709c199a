//! Swing analysis from the nodes: spacing, extremes, steepness and
//! invertibility.
//!
//! Derived on demand from the nodes, not maintained by the table. The fit of
//! the classical five-coefficient model is numerical and runs outside the
//! library.
use vstd::prelude::*;

use super::interpolation::value;
use super::ring::{after, lemma_span_bounds, span};
use super::table::{valid_table, DeviationNode, DeviationTable};
use crate::units::MICRODEGREES_PER_DEGREE;

verus! {

/// Magnitude of an integer.
pub open spec fn abs(x: int) -> int {
    if x >= 0 {
        x
    } else {
        -x
    }
}

/// Change of deviation across the segment starting at node `i`,
/// microdegrees.
pub open spec fn rise(s: Seq<DeviationNode>, i: int) -> int {
    value(s, after(s.len() as int, i)) - value(s, i)
}

/// Steepness of the segment starting at node `i`: microdegrees of deviation
/// per degree of heading, truncated.
pub open spec fn slope(s: Seq<DeviationNode>, i: int) -> int {
    abs(rise(s, i)) / span(s, i)
}

/// Whether `r` is the widest segment of the ring, degrees; zero for no node.
pub open spec fn is_max_gap(s: Seq<DeviationNode>, r: int) -> bool {
    &&& forall|i: int| 0 <= i < s.len() ==> #[trigger] span(s, i) <= r
    &&& s.len() == 0 ==> r == 0
    &&& s.len() > 0 ==> exists|i: int| 0 <= i < s.len() && #[trigger] span(s, i) == r
}

/// Whether `r` is the steepest segment's slope; zero for no node.
pub open spec fn is_max_slope(s: Seq<DeviationNode>, r: int) -> bool {
    &&& forall|i: int| 0 <= i < s.len() ==> #[trigger] slope(s, i) <= r
    &&& s.len() == 0 ==> r == 0
    &&& s.len() > 0 ==> exists|i: int| 0 <= i < s.len() && #[trigger] slope(s, i) == r
}

/// Whether `r` is the largest deviation magnitude of the nodes; zero for no
/// node.
pub open spec fn is_max_abs_deviation(s: Seq<DeviationNode>, r: int) -> bool {
    &&& forall|i: int| 0 <= i < s.len() ==> abs(#[trigger] value(s, i)) <= r
    &&& s.len() == 0 ==> r == 0
    &&& s.len() > 0 ==> exists|i: int| 0 <= i < s.len() && abs(#[trigger] value(s, i)) == r
}

/// Whether each magnetic course maps back to one compass course: on every
/// segment the deviation changes by less than the heading does.
pub open spec fn invertible(s: Seq<DeviationNode>) -> bool {
    forall|i: int|
        0 <= i < s.len() ==> abs(#[trigger] rise(s, i)) < span(s, i) * MICRODEGREES_PER_DEGREE
}

/// A table is invertible exactly when its steepest slope is below one degree
/// per degree.
pub proof fn law_invertible_iff_gentle(s: Seq<DeviationNode>, steepest: int)
    requires
        valid_table(s),
        is_max_slope(s, steepest),
    ensures
        invertible(s) == (steepest < MICRODEGREES_PER_DEGREE),
{
    assert forall|i: int| 0 <= i < s.len() implies (slope(s, i) < MICRODEGREES_PER_DEGREE) == (
    abs(#[trigger] rise(s, i)) < span(s, i) * MICRODEGREES_PER_DEGREE) by {
        lemma_span_bounds(s, i);
        lemma_floor_below(abs(rise(s, i)), span(s, i), MICRODEGREES_PER_DEGREE as int);
    }
    if s.len() > 0 {
        let k = choose|i: int| 0 <= i < s.len() && #[trigger] slope(s, i) == steepest;
        assert(slope(s, k) == steepest);
        if invertible(s) {
            assert(abs(rise(s, k)) < span(s, k) * MICRODEGREES_PER_DEGREE);
        }
        if steepest < MICRODEGREES_PER_DEGREE {
            assert forall|i: int| 0 <= i < s.len() implies abs(#[trigger] rise(s, i)) < span(s, i)
                * MICRODEGREES_PER_DEGREE by {
                assert(slope(s, i) <= steepest);
            }
        }
    }
}

/// `a / b < m` exactly when `a < m * b`, for positive `b`.
proof fn lemma_floor_below(a: int, b: int, m: int)
    requires
        a >= 0,
        b > 0,
    ensures
        (a / b < m) == (a < m * b),
{
    let q = a / b;
    assert(b * q <= a < b * q + b) by (nonlinear_arith)
        requires
            b > 0,
            q == a / b,
    ;
    if q < m {
        assert(b * q + b <= m * b) by (nonlinear_arith)
            requires
                q + 1 <= m,
                b > 0,
        ;
    } else {
        assert(m * b <= b * q) by (nonlinear_arith)
            requires
                m <= q,
                b > 0,
        ;
    }
}

impl DeviationTable {
    /// Widest gap between adjacent nodes, whole degrees, around the full
    /// circle; zero for a table with no node.
    pub fn max_gap(&self) -> (r: i32)
        ensures
            is_max_gap(self@, r as int),
    {
        let nodes = self.nodes();
        let n = nodes.len();
        let mut widest: i32 = 0;
        let mut k: usize = 0;
        while k < n
            invariant
                valid_table(nodes@),
                n == nodes@.len(),
                k <= n,
                0 <= widest <= 360,
                forall|i: int| 0 <= i < k ==> #[trigger] span(nodes@, i) <= widest,
                k == 0 ==> widest == 0,
                k > 0 ==> exists|i: int| 0 <= i < k && #[trigger] span(nodes@, i) == widest,
            decreases n - k,
        {
            let width: i32 = if k + 1 < n {
                nodes[k + 1].course - nodes[k].course
            } else {
                360 - nodes[k].course + nodes[0].course
            };
            proof {
                lemma_span_bounds(nodes@, k as int);
                assert(width == span(nodes@, k as int));
            }
            if width > widest {
                widest = width;
            }
            k = k + 1;
        }
        proof {
            assert(nodes@ == self@);
        }
        widest
    }

    /// Steepest node-to-node rate of change of deviation, microdegrees of
    /// deviation per degree of heading, truncated; zero for a table with no
    /// node.
    ///
    /// At a million (one degree per degree) two compass courses give the same
    /// magnetic course: see [`DeviationTable::is_invertible`] and
    /// [`law_invertible_iff_gentle`].
    pub fn max_slope(&self) -> (r: i64)
        ensures
            is_max_slope(self@, r as int),
    {
        let nodes = self.nodes();
        let n = nodes.len();
        let mut steepest: i64 = 0;
        let mut k: usize = 0;
        while k < n
            invariant
                valid_table(nodes@),
                n == nodes@.len(),
                k <= n,
                0 <= steepest <= 360_000_000,
                forall|i: int| 0 <= i < k ==> #[trigger] slope(nodes@, i) <= steepest,
                k == 0 ==> steepest == 0,
                k > 0 ==> exists|i: int| 0 <= i < k && #[trigger] slope(nodes@, i) == steepest,
            decreases n - k,
        {
            let (rise_magnitude, width) = segment_rise(nodes, k);
            let s = rise_magnitude / width;
            proof {
                assert(s <= rise_magnitude) by (nonlinear_arith)
                    requires
                        s == rise_magnitude / width,
                        rise_magnitude >= 0,
                        width >= 1,
                ;
            }
            if s > steepest {
                steepest = s;
            }
            k = k + 1;
        }
        proof {
            assert(nodes@ == self@);
        }
        steepest
    }

    /// Largest tabulated deviation magnitude, microdegrees; zero for a table
    /// with no node.
    pub fn max_abs_deviation(&self) -> (r: i64)
        ensures
            is_max_abs_deviation(self@, r as int),
    {
        let nodes = self.nodes();
        let n = nodes.len();
        let mut largest: i64 = 0;
        let mut k: usize = 0;
        while k < n
            invariant
                valid_table(nodes@),
                n == nodes@.len(),
                k <= n,
                0 <= largest <= 180_000_000,
                forall|i: int| 0 <= i < k ==> abs(#[trigger] value(nodes@, i)) <= largest,
                k == 0 ==> largest == 0,
                k > 0 ==> exists|i: int| 0 <= i < k && abs(#[trigger] value(nodes@, i)) == largest,
            decreases n - k,
        {
            let v = nodes[k].deviation.microdegrees();
            let m = if v >= 0 {
                v
            } else {
                -v
            };
            proof {
                assert(abs(value(nodes@, k as int)) == m);
            }
            if m > largest {
                largest = m;
            }
            k = k + 1;
        }
        proof {
            assert(nodes@ == self@);
        }
        largest
    }

    /// Whether each magnetic course maps back to exactly one compass course:
    /// on every segment the deviation changes by less than the heading.
    ///
    /// `false`: the compass is unsteerable over part of the circle and should
    /// be re-swung or adjusted.
    pub fn is_invertible(&self) -> (r: bool)
        ensures
            r == invertible(self@),
    {
        let nodes = self.nodes();
        let n = nodes.len();
        let mut k: usize = 0;
        while k < n
            invariant
                valid_table(nodes@),
                nodes@ == self@,
                n == nodes@.len(),
                k <= n,
                forall|i: int|
                    0 <= i < k ==> abs(#[trigger] rise(nodes@, i)) < span(nodes@, i)
                        * MICRODEGREES_PER_DEGREE,
            decreases n - k,
        {
            let (rise_magnitude, width) = segment_rise(nodes, k);
            if rise_magnitude >= width * MICRODEGREES_PER_DEGREE {
                return false;
            }
            k = k + 1;
        }
        proof {
            assert(nodes@ == self@);
        }
        true
    }
}

/// Magnitude of the rise across segment `k` and the segment's width.
fn segment_rise(nodes: &Vec<DeviationNode>, k: usize) -> (r: (i64, i64))
    requires
        valid_table(nodes@),
        k < nodes@.len(),
    ensures
        r.0 == abs(rise(nodes@, k as int)),
        r.1 == span(nodes@, k as int),
        0 <= r.0 <= 360_000_000,
        1 <= r.1 <= 360,
        slope(nodes@, k as int) == r.0 / r.1,
{
    let n = nodes.len();
    let next = if k + 1 < n {
        k + 1
    } else {
        0
    };
    let difference = nodes[next].deviation.microdegrees() - nodes[k].deviation.microdegrees();
    let magnitude = if difference >= 0 {
        difference
    } else {
        -difference
    };
    let width: i64 = if k + 1 < n {
        nodes[k + 1].course as i64 - nodes[k].course as i64
    } else {
        360 - nodes[k].course as i64 + nodes[0].course as i64
    };
    proof {
        lemma_span_bounds(nodes@, k as int);
    }
    (magnitude, width)
}

} // verus!
