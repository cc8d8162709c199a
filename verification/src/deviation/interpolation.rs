//! Periodic linear interpolation of a deviation table between its nodes.
//!
//! The other methods of [`super::InterpolationMethod`] are numerical (splines,
//! least squares) and run outside the library; linear interpolation is exact
//! rational arithmetic, truncated to whole microdegrees, and is done here.
use vstd::prelude::*;

use super::ring::{
    after, in_segment, lemma_offset_bounds, lemma_segment_exists, lemma_segment_unique, locate,
    node_micro, offset, segment_of, span,
};
use super::table::{sorted_nodes, valid_table, DeviationNode, DeviationTable};
use crate::error::{KernelError, NavigationError};
use crate::units::{
    div_trunc, CompassCourse, Deviation, FULL_CIRCLE, MAX_DEVIATION,
    MICRODEGREES_PER_DEGREE,
};

verus! {

/// Deviation of node `i`, microdegrees.
pub open spec fn value(s: Seq<DeviationNode>, i: int) -> int {
    s[i].deviation@
}

/// Linear interpolation on the segment starting at node `i`: the start
/// value plus the rise to the next node in proportion to the offset,
/// truncated towards zero.
pub open spec fn linear_on(s: Seq<DeviationNode>, i: int, c: int) -> int {
    let start = value(s, i);
    let end = value(s, after(s.len() as int, i));
    start + div_trunc((end - start) * offset(s, i, c), span(s, i) * MICRODEGREES_PER_DEGREE)
}

/// Periodic linear interpolation of the nodes at course `c` (microdegrees);
/// zero for a table with no node.
pub open spec fn linear_deviation(s: Seq<DeviationNode>, c: int) -> int {
    if s.len() == 0 {
        0
    } else {
        linear_on(s, segment_of(s, c), c)
    }
}

/// Index before `i` on a ring of `n` nodes.
pub open spec fn before(n: int, i: int) -> int {
    if i > 0 {
        i - 1
    } else {
        n - 1
    }
}

/// Magnitude of the second difference of the node values centred on node
/// `i`, round the ring, microdegrees.
pub open spec fn second_difference(s: Seq<DeviationNode>, i: int) -> int {
    let d = value(s, before(s.len() as int, i)) - 2 * value(s, i) + value(
        s,
        after(s.len() as int, i),
    );
    if d < 0 {
        -d
    } else {
        d
    }
}

/// Interpolation error bound at course `c`: an eighth of the larger second
/// difference at the two ends of its segment (the `h²·|f''|/8` bound with
/// the second derivative estimated from the nodes), rounded down to whole
/// microdegrees.
pub open spec fn local_error_bound(s: Seq<DeviationNode>, c: int) -> int {
    let i = segment_of(s, c);
    let left = second_difference(s, i);
    let right = second_difference(s, after(s.len() as int, i));
    (if left >= right {
        left
    } else {
        right
    }) / 8
}

/// A proportional part of a rise, truncated, is no larger than the rise.
proof fn lemma_part_of_rise(rise: int, part: int, whole: int)
    requires
        0 <= part < whole,
    ensures
        rise >= 0 ==> 0 <= div_trunc(rise * part, whole) <= rise,
        rise < 0 ==> rise <= div_trunc(rise * part, whole) <= 0,
{
    if rise >= 0 {
        assert(0 <= rise * part <= rise * whole) by (nonlinear_arith)
            requires
                rise >= 0,
                0 <= part < whole,
        ;
        assert((rise * part) / whole <= rise) by (nonlinear_arith)
            requires
                0 <= rise * part <= rise * whole,
                whole > 0,
        ;
        assert(0 <= (rise * part) / whole) by (nonlinear_arith)
            requires
                0 <= rise * part,
                whole > 0,
        ;
    } else {
        let m = -rise;
        assert(-(rise * part) == m * part) by (nonlinear_arith)
            requires
                m == -rise,
        ;
        assert(0 <= m * part <= m * whole) by (nonlinear_arith)
            requires
                m > 0,
                0 <= part < whole,
        ;
        assert((m * part) / whole <= m) by (nonlinear_arith)
            requires
                0 <= m * part <= m * whole,
                whole > 0,
        ;
        assert(0 <= (m * part) / whole) by (nonlinear_arith)
            requires
                0 <= m * part,
                whole > 0,
        ;
        if rise * part < 0 {
        } else {
            assert(rise * part == 0);
        }
    }
}

/// Linear interpolation on a segment stays between the segment's two node
/// values.
proof fn lemma_between_nodes(s: Seq<DeviationNode>, i: int, c: int)
    requires
        sorted_nodes(s),
        in_segment(s, i, c),
        0 <= c < FULL_CIRCLE,
    ensures
        value(s, i) <= value(s, after(s.len() as int, i)) ==> value(s, i) <= linear_on(s, i, c)
            <= value(s, after(s.len() as int, i)),
        value(s, after(s.len() as int, i)) < value(s, i) ==> value(s, after(s.len() as int, i))
            <= linear_on(s, i, c) <= value(s, i),
{
    lemma_span_positive(s, i);
    lemma_offset_bounds(s, i, c);
    let start = value(s, i);
    let end = value(s, after(s.len() as int, i));
    lemma_part_of_rise(end - start, offset(s, i, c), span(s, i) * MICRODEGREES_PER_DEGREE);
}

proof fn lemma_span_positive(s: Seq<DeviationNode>, i: int)
    requires
        sorted_nodes(s),
        0 <= i < s.len(),
    ensures
        1 <= span(s, i) <= 360,
{
    super::ring::lemma_span_bounds(s, i);
}

/// Linear interpolation is exact at the nodes: at a node's course it gives
/// that node's deviation.
pub proof fn law_linear_exact_at_nodes(s: Seq<DeviationNode>, k: int)
    requires
        valid_table(s),
        0 <= k < s.len(),
    ensures
        linear_deviation(s, node_micro(s, k)) == value(s, k),
{
    let c = node_micro(s, k);
    assert(0 <= s[k].course < 360);
    assert(in_segment(s, k, c)) by {
        if k + 1 < s.len() {
            assert(s[k].course < s[k + 1].course);
        }
    }
    lemma_segment_exists(s, c);
    lemma_segment_unique(s, k, segment_of(s, c), c);
    assert(offset(s, k, c) == 0);
}

/// Linear interpolation never overshoots: at any course it lies between the
/// deviations of the two nodes on either side.
pub proof fn law_linear_never_overshoots(s: Seq<DeviationNode>, c: int)
    requires
        valid_table(s),
        s.len() >= 1,
        0 <= c < FULL_CIRCLE,
    ensures
        ({
            let i = segment_of(s, c);
            let j = after(s.len() as int, i);
            &&& 0 <= i < s.len()
            &&& 0 <= j < s.len()
            &&& value(s, i) <= value(s, j) ==> value(s, i) <= linear_deviation(s, c) <= value(s, j)
            &&& value(s, j) < value(s, i) ==> value(s, j) <= linear_deviation(s, c) <= value(s, i)
        }),
{
    lemma_segment_exists(s, c);
    lemma_between_nodes(s, segment_of(s, c), c);
}

/// Periodic linear interpolation of `nodes` at `c`, microdegrees.
fn linear_at(nodes: &Vec<DeviationNode>, c: i64) -> (r: Deviation)
    requires
        valid_table(nodes@),
        0 <= c < FULL_CIRCLE,
    ensures
        r@ == linear_deviation(nodes@, c as int),
{
    let ghost s = nodes@;
    if nodes.len() == 0 {
        return Deviation::zero();
    }
    let (index, off, width) = locate(nodes, c);
    let next = if index + 1 < nodes.len() {
        index + 1
    } else {
        0
    };
    let start = nodes[index].deviation.microdegrees();
    let end = nodes[next].deviation.microdegrees();
    proof {
        lemma_span_positive(s, index as int);
        lemma_offset_bounds(s, index as int, c as int);
        lemma_between_nodes(s, index as int, c as int);
    }
    let rise = end as i128 - start as i128;
    let whole = width as i128 * MICRODEGREES_PER_DEGREE as i128;
    let rise_magnitude: i128 = if rise >= 0 {
        rise
    } else {
        -rise
    };
    proof {
        assert(rise_magnitude * off <= 360_000_000 * 360_000_000) by (nonlinear_arith)
            requires
                0 <= rise_magnitude <= 360_000_000,
                0 <= off < 360_000_000,
        ;
        assert(rise_magnitude * off >= 0) by (nonlinear_arith)
            requires
                0 <= rise_magnitude,
                0 <= off,
        ;
    }
    let part = (rise_magnitude * off as i128) / whole;
    let signed_part: i128 = if rise >= 0 {
        part
    } else {
        -part
    };
    proof {
        if rise < 0 {
            assert(-(rise * off) == rise_magnitude * off) by (nonlinear_arith)
                requires
                    rise_magnitude == -rise,
            ;
        }
        assert(signed_part == div_trunc(rise * off, whole as int));
        assert(start + signed_part == linear_on(s, index as int, c as int));
    }
    let value = start as i128 + signed_part;
    let result = Deviation::new(value as i64);
    match result {
        Ok(d) => d,
        Err(_) => {
            proof {
                assert(false);
            }
            Deviation::zero()
        },
    }
}

/// Second difference of the node values centred on node `i`, magnitude.
fn second_difference_at(nodes: &Vec<DeviationNode>, i: usize) -> (r: i64)
    requires
        i < nodes@.len(),
    ensures
        r == second_difference(nodes@, i as int),
        0 <= r <= 4 * MAX_DEVIATION,
{
    let n = nodes.len();
    let previous = if i > 0 {
        i - 1
    } else {
        n - 1
    };
    let next = if i + 1 < n {
        i + 1
    } else {
        0
    };
    let d = nodes[previous].deviation.microdegrees() - 2 * nodes[i].deviation.microdegrees()
        + nodes[next].deviation.microdegrees();
    if d < 0 {
        -d
    } else {
        d
    }
}

impl DeviationTable {
    /// Deviation on a compass course by periodic linear interpolation between
    /// the nodes, truncated to whole microdegrees.
    ///
    /// Exact at the nodes and never beyond the two nodes either side (see
    /// [`law_linear_exact_at_nodes`], [`law_linear_never_overshoots`]). The
    /// course is a [`CompassCourse`], so no range check is needed.
    pub fn deviation_at(&self, course: CompassCourse) -> (r: Deviation)
        ensures
            r@ == linear_deviation(self@, course@),
    {
        let nodes = self.nodes();
        linear_at(nodes, course.microdegrees())
    }

    /// Error bound of a reading on `course` between the nodes: an eighth of
    /// the larger magnitude of the second difference of the node values at
    /// the two ends of the segment holding the course, rounded down to whole
    /// microdegrees. Zero where the nodes either side lie on straight lines.
    pub fn local_error_bound(&self, course: CompassCourse) -> (r: i64)
        ensures
            r == local_error_bound(self@, course@),
            0 <= r <= MAX_DEVIATION / 2,
    {
        let nodes = self.nodes();
        let (index, _, _) = locate(nodes, course.microdegrees());
        let next = if index + 1 < nodes.len() {
            index + 1
        } else {
            0
        };
        let left = second_difference_at(nodes, index);
        let right = second_difference_at(nodes, next);
        let larger = if left >= right {
            left
        } else {
            right
        };
        larger / 8
    }

    /// Deviation on several compass courses, into caller-owned `out`; the
    /// entries of `out` past the courses are left as they were.
    ///
    /// # Errors
    ///
    /// [`KernelError::BufferTooSmall`] if `out` is shorter than `courses`;
    /// `out` is then untouched.
    pub fn interpolate_deviation(&self, courses: &[CompassCourse], out: &mut [Deviation]) -> (r:
        Result<(), NavigationError>)
        ensures
            final(out)@.len() == old(out)@.len(),
            match r {
                Ok(()) => courses@.len() <= old(out)@.len() && (forall|i: int|
                    0 <= i < courses@.len() ==> (#[trigger] final(out)@[i])@ == linear_deviation(
                        self@,
                        courses@[i]@,
                    )) && (forall|i: int|
                    courses@.len() <= i < old(out)@.len() ==> #[trigger] final(out)@[i] == old(
                        out,
                    )@[i]),
                Err(e) => old(out)@.len() < courses@.len() && final(out)@ == old(out)@ && e
                    == NavigationError::Kernel(
                    KernelError::BufferTooSmall { needed: courses@.len() as usize, found: old(out)@.len() as usize },
                ),
            },
    {
        if out.len() < courses.len() {
            return Err(
                NavigationError::Kernel(
                    KernelError::BufferTooSmall { needed: courses.len(), found: out.len() },
                ),
            );
        }
        let nodes = self.nodes();
        let mut k: usize = 0;
        while k < courses.len()
            invariant
                valid_table(nodes@),
                nodes@ == self@,
                k <= courses@.len() <= out@.len(),
                out@.len() == old(out)@.len(),
                forall|i: int| 0 <= i < k ==> (#[trigger] out@[i])@ == linear_deviation(
                    self@,
                    courses@[i]@,
                ),
                forall|i: int| k <= i < out@.len() ==> #[trigger] out@[i] == old(out)@[i],
            decreases courses@.len() - k,
        {
            let d = linear_at(nodes, courses[k].microdegrees());
            out[k] = d;
            k = k + 1;
        }
        Ok(())
    }
}

} // verus!
