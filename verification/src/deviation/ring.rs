//! Table nodes as a closed ring.
//!
//! Deviation is periodic, so the arc from the last node through `360°/0°` to
//! the first is an ordinary segment. Interpolation, slope and spacing all use
//! this view. Courses on the ring are microdegrees; node courses are whole
//! degrees.
use vstd::prelude::*;

use super::table::{sorted_nodes, DeviationNode};
use crate::units::{FULL_CIRCLE, MICRODEGREES_PER_DEGREE};

verus! {

/// Index after `i` on a ring of `n` nodes.
pub open spec fn after(n: int, i: int) -> int {
    if i + 1 < n {
        i + 1
    } else {
        0
    }
}

/// Course of node `i`, microdegrees.
pub open spec fn node_micro(s: Seq<DeviationNode>, i: int) -> int {
    s[i].course * MICRODEGREES_PER_DEGREE
}

/// Width in whole degrees of the segment starting at node `i`; the last one
/// closes the circle through `360°/0°`.
pub open spec fn span(s: Seq<DeviationNode>, i: int) -> int {
    if i + 1 < s.len() {
        s[i + 1].course - s[i].course
    } else {
        360 - s[i].course + s[0].course
    }
}

/// Whether course `c` (microdegrees) lies in the segment starting at node
/// `i`: from that node up to, not including, the next one round the ring.
pub open spec fn in_segment(s: Seq<DeviationNode>, i: int, c: int) -> bool {
    &&& 0 <= i < s.len()
    &&& if i + 1 < s.len() {
        node_micro(s, i) <= c < node_micro(s, i + 1)
    } else {
        node_micro(s, i) <= c || c < node_micro(s, 0)
    }
}

/// Distance of course `c` past node `i`, clockwise, microdegrees.
pub open spec fn offset(s: Seq<DeviationNode>, i: int, c: int) -> int {
    if c >= node_micro(s, i) {
        c - node_micro(s, i)
    } else {
        c + FULL_CIRCLE - node_micro(s, i)
    }
}

/// The segment holding course `c`.
pub open spec fn segment_of(s: Seq<DeviationNode>, c: int) -> int {
    choose|i: int| in_segment(s, i, c)
}

/// Every segment of a sorted ring is between one and 360 degrees wide.
pub proof fn lemma_span_bounds(s: Seq<DeviationNode>, i: int)
    requires
        sorted_nodes(s),
        0 <= i < s.len(),
    ensures
        1 <= span(s, i) <= 360,
{
    if i + 1 < s.len() {
        assert(s[i].course < s[i + 1].course);
        assert(0 <= s[i].course && s[i + 1].course < 360);
    } else {
        assert(0 <= s[0].course < 360);
        assert(0 <= s[i].course < 360);
        if i > 0 {
            assert(s[0].course < s[i].course);
        }
    }
}

/// A course lies in at most one segment.
pub proof fn lemma_segment_unique(s: Seq<DeviationNode>, i: int, j: int, c: int)
    requires
        sorted_nodes(s),
        in_segment(s, i, c),
        in_segment(s, j, c),
    ensures
        i == j,
{
    if i < j {
        lemma_segment_order(s, i, j, c);
    } else if j < i {
        lemma_segment_order(s, j, i, c);
    }
}

proof fn lemma_segment_order(s: Seq<DeviationNode>, i: int, j: int, c: int)
    requires
        sorted_nodes(s),
        0 <= i < j < s.len(),
    ensures
        !(in_segment(s, i, c) && in_segment(s, j, c)),
{
    let n = s.len();
    assert(s[i + 1].course <= s[j].course) by {
        if i + 1 < j {
            assert(s[i + 1].course < s[j].course);
        }
    }
    assert(node_micro(s, i + 1) <= node_micro(s, j));
    assert(s[0].course <= s[i].course) by {
        if 0 < i {
            assert(s[0].course < s[i].course);
        }
    }
    assert(node_micro(s, 0) <= node_micro(s, i));
}

/// Every course on the circle lies in the segment that `segment_of` names.
pub proof fn lemma_segment_exists(s: Seq<DeviationNode>, c: int)
    requires
        sorted_nodes(s),
        s.len() >= 1,
        0 <= c < FULL_CIRCLE,
    ensures
        in_segment(s, segment_of(s, c), c),
{
    let i = last_at_or_before(s, c, s.len() - 1);
    assert(in_segment(s, i, c));
}

/// Last node at or before `c` among the first `k + 1`, or the last node of
/// the ring if none is.
proof fn last_at_or_before(s: Seq<DeviationNode>, c: int, k: int) -> (i: int)
    requires
        sorted_nodes(s),
        0 <= k < s.len(),
        forall|j: int| k < j < s.len() ==> c < node_micro(s, j),
    ensures
        in_segment(s, i, c),
    decreases k,
{
    if node_micro(s, k) <= c {
        k
    } else if k == 0 {
        s.len() - 1
    } else {
        last_at_or_before(s, c, k - 1)
    }
}

/// A course's offset into its segment is less than the segment's width.
pub proof fn lemma_offset_bounds(s: Seq<DeviationNode>, i: int, c: int)
    requires
        sorted_nodes(s),
        in_segment(s, i, c),
        0 <= c < FULL_CIRCLE,
    ensures
        0 <= offset(s, i, c) < span(s, i) * MICRODEGREES_PER_DEGREE,
{
    assert(0 <= s[i].course < 360);
    assert(0 <= s[0].course < 360);
    if i + 1 >= s.len() && 0 < i {
        assert(s[0].course < s[i].course);
    }
}

/// Segment holding course `c`: its start index, the offset of `c` past that
/// node in microdegrees, and its width in whole degrees.
pub fn locate(nodes: &Vec<DeviationNode>, c: i64) -> (r: (usize, i64, i64))
    requires
        sorted_nodes(nodes@),
        nodes@.len() >= 1,
        0 <= c < FULL_CIRCLE,
    ensures
        in_segment(nodes@, r.0 as int, c as int),
        r.0 as int == segment_of(nodes@, c as int),
        r.1 == offset(nodes@, r.0 as int, c as int),
        r.2 == span(nodes@, r.0 as int),
{
    let ghost s = nodes@;
    let n = nodes.len();
    let mut lo: usize = 0;
    let mut hi: usize = n;
    while lo < hi
        invariant
            s == nodes@,
            sorted_nodes(s),
            n == s.len(),
            lo <= hi <= n,
            forall|j: int| 0 <= j < lo ==> #[trigger] node_micro(s, j) <= c,
            forall|j: int| hi <= j < n ==> c < #[trigger] node_micro(s, j),
        decreases hi - lo,
    {
        let mid = lo + (hi - lo) / 2;
        let m = nodes[mid].course as i64 * MICRODEGREES_PER_DEGREE;
        if m <= c {
            proof {
                assert forall|j: int| 0 <= j < mid + 1 implies #[trigger] node_micro(s, j) <= c by {
                    if j < mid {
                        assert(s[j].course < s[mid as int].course);
                    }
                }
            }
            lo = mid + 1;
        } else {
            proof {
                assert forall|j: int| mid <= j < n implies c < #[trigger] node_micro(s, j) by {
                    if j > mid {
                        assert(s[mid as int].course < s[j].course);
                    }
                }
            }
            hi = mid;
        }
    }
    let index: usize = if lo == 0 {
        n - 1
    } else {
        lo - 1
    };
    proof {
        if lo == 0 {
            assert(c < node_micro(s, 0));
        } else {
            assert(node_micro(s, index as int) <= c);
            if index + 1 < n {
                assert(c < node_micro(s, index + 1));
            }
        }
        assert(in_segment(s, index as int, c as int));
        lemma_segment_unique(s, index as int, segment_of(s, c as int), c as int);
    }
    let start = nodes[index].course as i64 * MICRODEGREES_PER_DEGREE;
    let off = if c >= start {
        c - start
    } else {
        c + FULL_CIRCLE - start
    };
    let width: i64 = if index + 1 < n {
        nodes[index + 1].course as i64 - nodes[index].course as i64
    } else {
        360 - nodes[index].course as i64 + nodes[0].course as i64
    };
    (index, off, width)
}

} // verus!
