//! Deviation table: deviation at compass courses.
//!
//! The nodes are whole-degree compass courses in `[0, 360)`, strictly
//! increasing, at most [`MAX_TABLE_NODES`] of them; every constructor and
//! every update keeps them so. A course given outside the circle is reduced
//! into it the Euclidean way (−350 is 10).
use vstd::prelude::*;

use crate::error::{KernelError, NavigationError};
use crate::units::{Deviation, MAX_DEVIATION};

use super::{point_degrees, CardinalPoint};
use super::swing::{rounded_degrees, swing_deviation, SwingObservation};
use crate::units::Variation;

verus! {

/// Nodes of a standard table: every ten degrees.
pub const STANDARD_TABLE_LEN: usize = 36;

/// Most nodes a table holds: a swing every five degrees.
pub const MAX_TABLE_NODES: usize = 72;

/// Deviation at one compass course.
#[derive(Clone, Copy, Debug, PartialEq, Eq)]
pub struct DeviationNode {
    /// Compass course, whole degrees.
    pub course: i32,
    /// Deviation on that course.
    pub deviation: Deviation,
}

impl DeviationNode {
    /// Compass course, whole degrees.
    pub fn course(&self) -> (r: i32)
        ensures
            r == self.course,
    {
        self.course
    }

    /// Deviation on that course.
    pub fn deviation(&self) -> (r: Deviation)
        ensures
            r == self.deviation,
    {
        self.deviation
    }
}

/// A course reduced into `[0, 360)`.
pub open spec fn norm(course: int) -> int {
    course % 360
}

/// Whether nodes are on the circle and strictly increasing by course.
pub open spec fn sorted_nodes(s: Seq<DeviationNode>) -> bool {
    &&& forall|i: int| 0 <= i < s.len() ==> 0 <= #[trigger] s[i].course < 360
    &&& forall|i: int, j: int| 0 <= i < j < s.len() ==> s[i].course < s[j].course
}

/// Whether a node is at `course`.
pub open spec fn has_course(s: Seq<DeviationNode>, course: int) -> bool {
    exists|i: int| 0 <= i < s.len() && #[trigger] s[i].course == course
}

/// Deviation at `course`, if a node is there.
pub open spec fn lookup(s: Seq<DeviationNode>, course: int) -> Option<Deviation> {
    if has_course(s, course) {
        Some(s[choose|i: int| 0 <= i < s.len() && #[trigger] s[i].course == course].deviation)
    } else {
        None
    }
}

/// The node at index `i` is what a lookup of its course finds.
pub proof fn lemma_lookup_at(s: Seq<DeviationNode>, i: int)
    requires
        sorted_nodes(s),
        0 <= i < s.len(),
    ensures
        lookup(s, s[i].course as int) == Some(s[i].deviation),
{
    assert(has_course(s, s[i].course as int));
    let j = choose|j: int| 0 <= j < s.len() && #[trigger] s[j].course == s[i].course;
    if j < i {
        assert(s[j].course < s[i].course);
    } else if j > i {
        assert(s[i].course < s[j].course);
    }
}

/// Inserting a node at a course not held keeps every other course's lookup.
pub proof fn lemma_insert_keeps(s: Seq<DeviationNode>, p: int, node: DeviationNode, c: int)
    requires
        0 <= p <= s.len(),
        c != node.course,
    ensures
        has_course(s.insert(p, node), c) == has_course(s, c),
        lookup(s.insert(p, node), c) == lookup(s, c) || !sorted_nodes(s) || !sorted_nodes(
            s.insert(p, node),
        ),
{
    let t = s.insert(p, node);
    if has_course(s, c) {
        let i = choose|i: int| 0 <= i < s.len() && #[trigger] s[i].course == c;
        let k = if i < p {
            i
        } else {
            i + 1
        };
        assert(t[k] == s[i]);
        assert(has_course(t, c));
        if sorted_nodes(s) && sorted_nodes(t) {
            lemma_lookup_at(s, i);
            lemma_lookup_at(t, k);
        }
    }
    if has_course(t, c) {
        let k = choose|k: int| 0 <= k < t.len() && #[trigger] t[k].course == c;
        if k < p {
            assert(s[k] == t[k]);
        } else if k > p {
            assert(s[k - 1] == t[k]);
        }
        assert(has_course(s, c));
    }
}

/// Updating the node at index `p` to another deviation at the same course
/// keeps every other course's lookup and the order.
pub proof fn lemma_update_keeps(s: Seq<DeviationNode>, p: int, d: Deviation, c: int)
    requires
        sorted_nodes(s),
        0 <= p < s.len(),
    ensures
        sorted_nodes(s.update(p, DeviationNode { course: s[p].course, deviation: d })),
        c != s[p].course ==> has_course(
            s.update(p, DeviationNode { course: s[p].course, deviation: d }),
            c,
        ) == has_course(s, c) && lookup(
            s.update(p, DeviationNode { course: s[p].course, deviation: d }),
            c,
        ) == lookup(s, c),
        lookup(s.update(p, DeviationNode { course: s[p].course, deviation: d }), s[p].course as int)
            == Some(d),
{
    let t = s.update(p, DeviationNode { course: s[p].course, deviation: d });
    assert forall|i: int, j: int| 0 <= i < j < t.len() implies t[i].course < t[j].course by {
        assert(t[i].course == s[i].course);
        assert(t[j].course == s[j].course);
    }
    assert forall|i: int| 0 <= i < t.len() implies 0 <= #[trigger] t[i].course < 360 by {
        assert(t[i].course == s[i].course);
    }
    lemma_lookup_at(t, p);
    if c != s[p].course {
        if has_course(s, c) {
            let i = choose|i: int| 0 <= i < s.len() && #[trigger] s[i].course == c;
            assert(t[i] == s[i]);
            lemma_lookup_at(s, i);
            lemma_lookup_at(t, i);
        }
        if has_course(t, c) {
            let k = choose|k: int| 0 <= k < t.len() && #[trigger] t[k].course == c;
            assert(s[k] == t[k]);
        }
    }
}

/// Where `course` is among sorted nodes: `Ok` with the index of its node, or
/// `Err` with the index where it would go.
fn find(nodes: &Vec<DeviationNode>, course: i32) -> (r: Result<usize, usize>)
    requires
        sorted_nodes(nodes@),
    ensures
        match r {
            Ok(i) => i < nodes@.len() && nodes@[i as int].course == course,
            Err(i) => i <= nodes@.len() && (forall|j: int|
                0 <= j < i ==> #[trigger] nodes@[j].course < course) && (forall|j: int|
                i <= j < nodes@.len() ==> #[trigger] nodes@[j].course > course),
        },
{
    let mut lo: usize = 0;
    let mut hi: usize = nodes.len();
    while lo < hi
        invariant
            sorted_nodes(nodes@),
            lo <= hi <= nodes@.len(),
            forall|j: int| 0 <= j < lo ==> #[trigger] nodes@[j].course < course,
            forall|j: int| hi <= j < nodes@.len() ==> #[trigger] nodes@[j].course > course,
        decreases hi - lo,
    {
        let mid = lo + (hi - lo) / 2;
        let c = nodes[mid].course;
        if c == course {
            return Ok(mid);
        } else if c < course {
            proof {
                assert forall|j: int| 0 <= j < mid + 1 implies #[trigger] nodes@[j].course < course by {
                    if j < mid {
                        assert(nodes@[j].course < nodes@[mid as int].course);
                    }
                }
            }
            lo = mid + 1;
        } else {
            proof {
                assert forall|j: int| mid <= j < nodes@.len() implies #[trigger] nodes@[j].course
                    > course by {
                    if j > mid {
                        assert(nodes@[mid as int].course < nodes@[j].course);
                    }
                }
            }
            hi = mid;
        }
    }
    Err(lo)
}

/// Whether `t` is `s` with `node` inserted at its sorted place.
pub open spec fn inserted_sorted(s: Seq<DeviationNode>, node: DeviationNode, t: Seq<DeviationNode>) -> bool {
    exists|p: int|
        0 <= p <= s.len() && t == s.insert(p, node) && (forall|j: int|
            0 <= j < p ==> #[trigger] s[j].course < node.course) && (forall|j: int|
            p <= j < s.len() ==> #[trigger] s[j].course > node.course)
}

/// Inserts a node at its sorted place.
fn insert_sorted(nodes: &mut Vec<DeviationNode>, node: DeviationNode)
    requires
        sorted_nodes(old(nodes)@),
        0 <= node.course < 360,
        !has_course(old(nodes)@, node.course as int),
    ensures
        sorted_nodes(final(nodes)@),
        inserted_sorted(old(nodes)@, node, final(nodes)@),
        final(nodes)@.len() == old(nodes)@.len() + 1,
        lookup(final(nodes)@, node.course as int) == Some(node.deviation),
        forall|c: int|
            c != node.course ==> #[trigger] has_course(final(nodes)@, c) == has_course(
                old(nodes)@,
                c,
            ) && lookup(final(nodes)@, c) == lookup(old(nodes)@, c),
{
    let ghost s = nodes@;
    match find(nodes, node.course) {
        Ok(i) => {
            proof {
                assert(has_course(s, node.course as int));
            }
        },
        Err(p) => {
            nodes.insert(p, node);
            proof {
                let t = nodes@;
                assert(t == s.insert(p as int, node));
                assert forall|i: int, j: int| 0 <= i < j < t.len() implies t[i].course < t[j].course by {
                    if j < p {
                        assert(t[i] == s[i] && t[j] == s[j]);
                    } else if j == p {
                        assert(t[i] == s[i]);
                    } else if i < p {
                        assert(t[j] == s[j - 1]);
                        if i < p {
                            assert(t[i] == s[i]);
                        }
                    } else if i == p {
                        assert(t[j] == s[j - 1]);
                    } else {
                        assert(t[i] == s[i - 1] && t[j] == s[j - 1]);
                    }
                }
                assert forall|i: int| 0 <= i < t.len() implies 0 <= #[trigger] t[i].course < 360 by {
                    if i < p {
                        assert(t[i] == s[i]);
                    } else if i > p {
                        assert(t[i] == s[i - 1]);
                    }
                }
                assert(t[p as int] == node);
                lemma_lookup_at(t, p as int);
                assert forall|c: int| c != node.course implies #[trigger] has_course(t, c)
                    == has_course(s, c) && lookup(t, c) == lookup(s, c) by {
                    lemma_insert_keeps(s, p as int, node, c);
                }
            }
        },
    }
}

/// Whether nodes are zero deviations every `step` degrees round the circle,
/// starting at north.
pub open spec fn zero_grid(s: Seq<DeviationNode>, step: int) -> bool {
    &&& (s.len() - 1) * step < 360 <= s.len() * step
    &&& forall|k: int|
        0 <= k < s.len() ==> #[trigger] s[k].course == k * step && s[k].deviation@ == 0
}

/// Zero nodes every `step` degrees round the circle; `None` if there would be
/// more than [`MAX_TABLE_NODES`].
fn grid(step: i32) -> (r: Option<Vec<DeviationNode>>)
    requires
        1 <= step <= 180,
    ensures
        match r {
            Some(v) => MAX_TABLE_NODES * step >= 360 && zero_grid(v@, step as int) && valid_table(
                v@,
            ),
            None => MAX_TABLE_NODES * step < 360,
        },
{
    let mut nodes: Vec<DeviationNode> = Vec::new();
    let mut course: i32 = 0;
    assert(nodes@.len() * step == 0) by (nonlinear_arith)
        requires
            nodes@.len() == 0,
    ;
    while course < 360
        invariant
            1 <= step <= 180,
            course == nodes@.len() * step,
            nodes@.len() <= MAX_TABLE_NODES,
            (nodes@.len() - 1) * step < 360,
            valid_table(nodes@),
            forall|k: int|
                0 <= k < nodes@.len() ==> #[trigger] nodes@[k].course == k * step
                    && nodes@[k].deviation@ == 0,
        decreases MAX_TABLE_NODES - nodes@.len(),
    {
        if nodes.len() >= MAX_TABLE_NODES {
            return None;
        }
        let ghost before = nodes@;
        proof {
            assert forall|k: int| 0 <= k < before.len() implies #[trigger] before[k].course
                < course by {
                assert(k * step < before.len() * step) by (nonlinear_arith)
                    requires
                        0 <= k < before.len(),
                        step > 0,
                ;
            }
            assert((nodes@.len() + 1) * step == course + step) by (nonlinear_arith)
                requires
                    course == nodes@.len() * step,
            ;
        }
        nodes.push(DeviationNode { course, deviation: Deviation::zero() });
        proof {
            assert(nodes@ == before.push(nodes@.last()));
            assert forall|i: int, j: int| 0 <= i < j < nodes@.len() implies nodes@[i].course
                < nodes@[j].course by {
                if j < before.len() {
                    assert(nodes@[i] == before[i] && nodes@[j] == before[j]);
                } else {
                    assert(nodes@[i] == before[i]);
                }
            }
        }
        course = course + step;
    }
    assert(MAX_TABLE_NODES * step >= 360) by (nonlinear_arith)
        requires
            course == nodes@.len() * step,
            nodes@.len() <= MAX_TABLE_NODES,
            course >= 360,
            step > 0,
    ;
    Some(nodes)
}

/// Whether pair `i` can be stored: its deviation within range, and room for
/// it.
pub open spec fn pair_ok(pairs: Seq<(i32, i64)>, i: int) -> bool {
    -MAX_DEVIATION <= pairs[i].1 <= MAX_DEVIATION && i < MAX_TABLE_NODES
}

/// Whether two of the first `n` pairs share the course `c` once reduced.
pub open spec fn duplicated_within(pairs: Seq<(i32, i64)>, n: int, c: int) -> bool {
    exists|a: int, b: int|
        0 <= a < b < n && #[trigger] norm(pairs[a].0 as int) == c && #[trigger] norm(
            pairs[b].0 as int,
        ) == c
}

/// A course given twice among the first `n` pairs is given twice among more.
proof fn lemma_duplicated_grows(pairs: Seq<(i32, i64)>, n: int, m: int, c: int)
    requires
        n <= m,
        duplicated_within(pairs, n, c),
    ensures
        duplicated_within(pairs, m, c),
{
    let (a, b) = choose|a: int, b: int|
        0 <= a < b < n && #[trigger] norm(pairs[a].0 as int) == c && #[trigger] norm(
            pairs[b].0 as int,
        ) == c;
}

/// Smallest course given twice so far, as the scan of pairs tracks it.
pub open spec fn dup_state(pairs: Seq<(i32, i64)>, n: int, dup: Option<i32>) -> bool {
    match dup {
        None => forall|c: int| !duplicated_within(pairs, n, c),
        Some(c) => duplicated_within(pairs, n, c as int) && forall|c2: int|
            c2 < c ==> !duplicated_within(pairs, n, c2),
    }
}

/// The smaller of a tracked duplicate and a new one.
pub open spec fn min_dup(dup: Option<i32>, c: i32) -> Option<i32> {
    match dup {
        Some(d) => if c < d {
            Some(c)
        } else {
            Some(d)
        },
        None => Some(c),
    }
}

/// A duplicate among `n + 1` pairs is one among `n`, or the last pair's
/// course given before.
proof fn lemma_duplicated_step(pairs: Seq<(i32, i64)>, n: int, c: int)
    requires
        0 <= n < pairs.len(),
        duplicated_within(pairs, n + 1, c),
    ensures
        duplicated_within(pairs, n, c) || (c == norm(pairs[n].0 as int) && exists|k: int|
            0 <= k < n && #[trigger] norm(pairs[k].0 as int) == c),
{
    let (a, b) = choose|a: int, b: int|
        0 <= a < b < n + 1 && #[trigger] norm(pairs[a].0 as int) == c && #[trigger] norm(
            pairs[b].0 as int,
        ) == c;
    if b < n {
        assert(duplicated_within(pairs, n, c));
    } else {
        assert(norm(pairs[a].0 as int) == c);
    }
}

/// Scanning a pair whose course was given before.
proof fn lemma_dup_found(pairs: Seq<(i32, i64)>, n: int, k: int, dup: Option<i32>)
    requires
        0 <= k < n < pairs.len(),
        norm(pairs[k].0 as int) == norm(pairs[n].0 as int),
        0 <= norm(pairs[n].0 as int) < 360,
        dup_state(pairs, n, dup),
    ensures
        dup_state(pairs, n + 1, min_dup(dup, norm(pairs[n].0 as int) as i32)),
{
    let c = norm(pairs[n].0 as int);
    assert(duplicated_within(pairs, n + 1, c));
    if let Some(d) = dup {
        lemma_duplicated_grows(pairs, n, n + 1, d as int);
    }
    assert forall|c2: int| c2 < min_dup(dup, c as i32).unwrap() implies !#[trigger] duplicated_within(pairs, n + 1, c2) by {
        if duplicated_within(pairs, n + 1, c2) {
            lemma_duplicated_step(pairs, n, c2);
        }
    }
}

/// Scanning a pair whose course was not given before.
proof fn lemma_dup_fresh(pairs: Seq<(i32, i64)>, n: int, dup: Option<i32>)
    requires
        0 <= n < pairs.len(),
        forall|k: int| 0 <= k < n ==> #[trigger] norm(pairs[k].0 as int) != norm(pairs[n].0 as int),
        dup_state(pairs, n, dup),
    ensures
        dup_state(pairs, n + 1, dup),
{
    assert forall|c2: int| duplicated_within(pairs, n + 1, c2) implies #[trigger] duplicated_within(pairs, n, c2) by {
        lemma_duplicated_step(pairs, n, c2);
        if !duplicated_within(pairs, n, c2) {
            let k = choose|k: int| 0 <= k < n && #[trigger] norm(pairs[k].0 as int) == c2;
            assert(norm(pairs[k].0 as int) != norm(pairs[n].0 as int));
        }
    }
    match dup {
        Some(d) => {
            lemma_duplicated_grows(pairs, n, n + 1, d as int);
            assert forall|c2: int| c2 < d implies !#[trigger] duplicated_within(pairs, n + 1, c2) by {
                if duplicated_within(pairs, n + 1, c2) {
                    assert(duplicated_within(pairs, n, c2));
                }
            }
        },
        None => {
            assert forall|c2: int| !#[trigger] duplicated_within(pairs, n + 1, c2) by {
                if duplicated_within(pairs, n + 1, c2) {
                    assert(duplicated_within(pairs, n, c2));
                }
            }
        },
    }
}

/// Error for a pair that cannot be stored.
pub open spec fn bad_pair_error(pairs: Seq<(i32, i64)>, k: int) -> NavigationError {
    if -MAX_DEVIATION <= pairs[k].1 <= MAX_DEVIATION {
        NavigationError::Kernel(
            KernelError::CapacityExceeded {
                context: "a deviation table",
                needed: pairs.len() as usize,
                capacity: MAX_TABLE_NODES,
            },
        )
    } else {
        NavigationError::Kernel(
            KernelError::OutOfRange {
                parameter: "deviation",
                value: pairs[k].1,
                min: (-MAX_DEVIATION) as i64,
                max: MAX_DEVIATION,
            },
        )
    }
}

/// What building a table from `(course, deviation)` pairs gives: the first
/// pair that cannot be stored is reported; else the smallest course given
/// twice; else too few nodes; else the table of the pairs.
pub open spec fn built_from(pairs: Seq<(i32, i64)>, r: Result<DeviationTable, NavigationError>) -> bool {
    let n = pairs.len() as int;
    let all_ok = forall|j: int| 0 <= j < n ==> pair_ok(pairs, j);
    let no_duplicate = forall|c: int| !duplicated_within(pairs, n, c);
    match r {
        Ok(t) => {
            &&& all_ok
            &&& no_duplicate
            &&& n >= 2
            &&& t@.len() == n
            &&& forall|k: int|
                0 <= k < n ==> #[trigger] holds_deviation(t@, norm(pairs[k].0 as int), pairs[k].1 as int)
        },
        Err(e) => {
            ||| exists|k: int|
                0 <= k < n && !pair_ok(pairs, k) && (forall|j: int| 0 <= j < k ==> pair_ok(pairs, j))
                    && e == bad_pair_error(pairs, k)
            ||| all_ok && (e matches NavigationError::DuplicateCourse { course } && duplicated_within(
                pairs,
                n,
                course as int,
            ) && forall|c: int| c < course ==> !duplicated_within(pairs, n, c))
            ||| all_ok && no_duplicate && n < 2 && e == NavigationError::Kernel(
                KernelError::InsufficientData { found: n as usize, required: 2, context: "a deviation table" },
            )
        },
    }
}

/// Builds a table from pairs.
#[verifier::rlimit(80)]
fn build(pairs: &[(i32, i64)]) -> (r: Result<DeviationTable, NavigationError>)
    ensures
        built_from(pairs@, r),
{
    let ghost ps = pairs@;
    let n = pairs.len();
    let mut nodes: Vec<DeviationNode> = Vec::new();
    let mut dup: Option<i32> = None;
    let mut i: usize = 0;
    while i < n
        invariant
            n == ps.len(),
            ps == pairs@,
            i <= n,
            valid_table(nodes@),
            nodes@.len() <= i,
            forall|j: int| 0 <= j < i ==> pair_ok(ps, j),
            forall|k: int| 0 <= k < i ==> has_course(nodes@, #[trigger] norm(ps[k].0 as int)),
            forall|m: int|
                0 <= m < nodes@.len() ==> exists|k: int|
                    0 <= k < i && #[trigger] nodes@[m].course == norm(ps[k].0 as int),
            dup is None ==> nodes@.len() == i && (forall|k: int|
                0 <= k < i ==> #[trigger] holds_deviation(nodes@, norm(ps[k].0 as int), ps[k].1 as int)),
            dup_state(ps, i as int, dup),
        decreases n - i,
    {
        let (course, value) = pairs[i];
        let deviation = match Deviation::new(value) {
            Ok(d) => d,
            Err(_) => {
                proof {
                    assert(!pair_ok(ps, i as int));
                    assert(forall|j: int| 0 <= j < i ==> pair_ok(ps, j));
                }
                let e = NavigationError::Kernel(
                    KernelError::OutOfRange {
                        parameter: "deviation",
                        value,
                        min: -MAX_DEVIATION,
                        max: MAX_DEVIATION,
                    },
                );
                proof {
                    assert(e == bad_pair_error(ps, i as int));
                }
                return Err(e);
            },
        };
        if i >= MAX_TABLE_NODES {
            proof {
                assert(!pair_ok(ps, i as int));
                assert(forall|j: int| 0 <= j < i ==> pair_ok(ps, j));
            }
            return Err(
                NavigationError::Kernel(
                    KernelError::CapacityExceeded {
                        context: "a deviation table",
                        needed: n,
                        capacity: MAX_TABLE_NODES,
                    },
                ),
            );
        }
        let c = course % 360;
        let c = if c < 0 {
            c + 360
        } else {
            c
        };
        proof {
            assert(c == norm(ps[i as int].0 as int));
        }
        let ghost before = nodes@;
        let ghost old_dup = dup;
        match find(&nodes, c) {
            Ok(m) => {
                proof {
                    let k = choose|k: int| 0 <= k < i && #[trigger] before[m as int].course == norm(
                        ps[k].0 as int,
                    );
                    lemma_dup_found(ps, i as int, k, dup);
                }
                dup = match dup {
                    Some(d0) => if c < d0 {
                        Some(c)
                    } else {
                        Some(d0)
                    },
                    None => Some(c),
                };
            },
            Err(_) => {
                proof {
                    assert(!has_course(before, c as int));
                }
                let node = DeviationNode { course: c, deviation };
                insert_sorted(&mut nodes, node);
                proof {
                    let t = nodes@;
                    assert forall|m: int| 0 <= m < t.len() implies exists|k: int|
                        0 <= k < i + 1 && #[trigger] t[m].course == norm(ps[k].0 as int) by {
                        let p = choose|p: int|
                            0 <= p <= before.len() && t == before.insert(p, node) && (forall|j: int|
                                0 <= j < p ==> #[trigger] before[j].course < node.course) && (forall|
                                j: int,
                            |
                                p <= j < before.len() ==> #[trigger] before[j].course > node.course);
                        if m < p {
                            assert(t[m] == before[m]);
                        } else if m > p {
                            assert(t[m] == before[m - 1]);
                        } else {
                            assert(t[m].course == norm(ps[i as int].0 as int));
                        }
                    }
                    assert forall|k: int| 0 <= k < i implies norm(ps[k].0 as int) != c by {
                        assert(has_course(before, norm(ps[k].0 as int)));
                    }
                    assert forall|k: int| 0 <= k < i + 1 implies has_course(t, #[trigger] norm(ps[k].0 as int)) by {
                        if k < i {
                            assert(has_course(before, norm(ps[k].0 as int)));
                        }
                    }
                    lemma_dup_fresh(ps, i as int, dup);
                    if dup is None {
                        assert forall|k: int| 0 <= k < i + 1 implies #[trigger] holds_deviation(
                            t,
                            norm(ps[k].0 as int),
                            ps[k].1 as int,
                        ) by {
                            if k < i {
                                assert(norm(ps[k].0 as int) != c);
                                assert(holds_deviation(before, norm(ps[k].0 as int), ps[k].1 as int));
                            }
                        }
                    }
                }
            },
        }
        i = i + 1;
    }
    proof {
        assert(ps.len() == n);
    }
    match dup {
        Some(c) => Err(NavigationError::DuplicateCourse { course: c }),
        None => {
            if n < 2 {
                Err(
                    NavigationError::Kernel(
                        KernelError::InsufficientData {
                            found: n,
                            required: 2,
                            context: "a deviation table",
                        },
                    ),
                )
            } else {
                Ok(DeviationTable { nodes })
            }
        },
    }
}

/// `(course, deviation)` pairs of a swing: each heading rounded to the whole
/// degree, with the deviation its observation gives.
pub open spec fn swing_pairs(observations: Seq<SwingObservation>, variation: int) -> Seq<(i32, i64)> {
    observations.map_values(
        |o: SwingObservation|
            (rounded_degrees(o.compass_heading@) as i32, swing_deviation(o, variation) as i64),
    )
}

/// Whether the node at `course` holds the deviation `value`, microdegrees.
pub open spec fn holds_deviation(s: Seq<DeviationNode>, course: int, value: int) -> bool {
    match lookup(s, course) {
        Some(d) => d@ == value,
        None => false,
    }
}

/// Whether `t` is `s` with the node at `course` set to `deviation`.
pub open spec fn set_at(s: Seq<DeviationNode>, course: int, deviation: Deviation, t: Seq<DeviationNode>) -> bool {
    exists|i: int|
        0 <= i < s.len() && #[trigger] s[i].course == course && t == s.update(
            i,
            DeviationNode { course: course as i32, deviation },
        )
}

/// Whether `t` is `s` with `deviation` at `course`: the node there set, or a
/// node added in its sorted place.
pub open spec fn inserted_at(s: Seq<DeviationNode>, course: int, deviation: Deviation, t: Seq<DeviationNode>) -> bool {
    if has_course(s, course) {
        set_at(s, course, deviation, t)
    } else {
        inserted_sorted(s, DeviationNode { course: course as i32, deviation }, t)
    }
}

/// Reading a course back after setting its deviation gives what was set, and
/// every other course reads as before.
pub proof fn law_set_then_read(s: Seq<DeviationNode>, course: int, deviation: Deviation, t: Seq<DeviationNode>, other: int)
    requires
        valid_table(s),
        set_at(s, course, deviation, t),
    ensures
        valid_table(t),
        lookup(t, course) == Some(deviation),
        other != course ==> lookup(t, other) == lookup(s, other),
        t.len() == s.len(),
{
    let i = choose|i: int|
        0 <= i < s.len() && #[trigger] s[i].course == course && t == s.update(
            i,
            DeviationNode { course: course as i32, deviation },
        );
    assert(DeviationNode { course: course as i32, deviation } == DeviationNode { course: s[i].course, deviation });
    lemma_update_keeps(s, i, deviation, other);
}

/// Reading a course back after inserting a deviation there gives what was
/// inserted, every other course reads as before, and the nodes stay sorted.
pub proof fn law_insert_then_read(s: Seq<DeviationNode>, course: int, deviation: Deviation, t: Seq<DeviationNode>, other: int)
    requires
        valid_table(s),
        0 <= course < 360,
        t.len() <= MAX_TABLE_NODES,
        inserted_at(s, course, deviation, t),
    ensures
        sorted_nodes(t),
        lookup(t, course) == Some(deviation),
        other != course ==> lookup(t, other) == lookup(s, other),
        t.len() == s.len() + if has_course(s, course) {
            0int
        } else {
            1int
        },
{
    if has_course(s, course) {
        law_set_then_read(s, course, deviation, t, other);
    } else {
        let node = DeviationNode { course: course as i32, deviation };
        let p = choose|p: int|
            0 <= p <= s.len() && t == s.insert(p, node) && (forall|j: int|
                0 <= j < p ==> #[trigger] s[j].course < node.course) && (forall|j: int|
                p <= j < s.len() ==> #[trigger] s[j].course > node.course);
        assert forall|i: int, j: int| 0 <= i < j < t.len() implies t[i].course < t[j].course by {
            if j < p {
                assert(t[i] == s[i] && t[j] == s[j]);
            } else if j == p {
                assert(t[i] == s[i]);
            } else if i < p {
                assert(t[j] == s[j - 1] && t[i] == s[i]);
            } else if i == p {
                assert(t[j] == s[j - 1]);
            } else {
                assert(t[i] == s[i - 1] && t[j] == s[j - 1]);
            }
        }
        assert forall|i: int| 0 <= i < t.len() implies 0 <= #[trigger] t[i].course < 360 by {
            if i < p {
                assert(t[i] == s[i]);
            } else if i > p {
                assert(t[i] == s[i - 1]);
            }
        }
        assert(t[p] == node);
        lemma_lookup_at(t, p);
        if other != course {
            lemma_insert_keeps(s, p, node, other);
        }
    }
}

/// Two nodes that make a table, held while a table's own nodes are updated.
fn stand_in() -> (v: Vec<DeviationNode>)
    ensures
        valid_table(v@),
        v@.len() == 2,
{
    let mut v: Vec<DeviationNode> = Vec::new();
    v.push(DeviationNode { course: 0, deviation: Deviation::zero() });
    v.push(DeviationNode { course: 180, deviation: Deviation::zero() });
    v
}

/// Table as the contracts see it: its nodes.
pub open spec fn valid_table(s: Seq<DeviationNode>) -> bool {
    sorted_nodes(s) && s.len() <= MAX_TABLE_NODES
}

/// Deviation at compass courses, at most [`MAX_TABLE_NODES`] nodes, sorted.
#[derive(Debug)]
pub struct DeviationTable {
    nodes: Vec<DeviationNode>,
}

impl View for DeviationTable {
    type V = Seq<DeviationNode>;

    closed spec fn view(&self) -> Seq<DeviationNode> {
        self.nodes@
    }
}

impl DeviationTable {
    #[verifier::type_invariant]
    closed spec fn well_formed(&self) -> bool {
        valid_table(self.nodes@) && self.nodes@.len() >= 2
    }

    /// Zero deviation every `step` degrees from north, the last node before
    /// 360°.
    ///
    /// # Errors
    ///
    /// - [`NavigationError::InvalidStep`] outside `1..=180`.
    /// - [`KernelError::CapacityExceeded`] for a step too fine to store (below
    ///   five degrees), with `360 / step` needed.
    pub fn from_step(step: i32) -> (r: Result<DeviationTable, NavigationError>)
        ensures
            match r {
                Ok(t) => 1 <= step <= 180 && MAX_TABLE_NODES * step >= 360 && zero_grid(
                    t@,
                    step as int,
                ),
                Err(e) => if 1 <= step <= 180 {
                    MAX_TABLE_NODES * step < 360 && e == NavigationError::Kernel(
                        KernelError::CapacityExceeded {
                            context: "a deviation table",
                            needed: (360int / step as int) as usize,
                            capacity: MAX_TABLE_NODES,
                        },
                    )
                } else {
                    e == NavigationError::InvalidStep { step }
                },
            },
    {
        if step < 1 || step > 180 {
            return Err(NavigationError::InvalidStep { step });
        }
        match grid(step) {
            Some(nodes) => {
                proof {
                    let n = nodes@.len() as int;
                    assert(n >= 2) by (nonlinear_arith)
                        requires
                            n * step >= 360,
                            1 <= step <= 180,
                    ;
                }
                Ok(DeviationTable { nodes })
            },
            None => Err(
                NavigationError::Kernel(
                    KernelError::CapacityExceeded {
                        context: "a deviation table",
                        needed: (360 / step) as usize,
                        capacity: MAX_TABLE_NODES,
                    },
                ),
            ),
        }
    }

    /// Zero deviation at the eight cardinal and intercardinal points.
    pub fn from_cardinal_directions() -> (t: DeviationTable)
        ensures
            t@.len() == 8,
            zero_grid(t@, 45),
    {
        match grid(45) {
            Some(nodes) => DeviationTable { nodes },
            None => {
                assert(false);
                DeviationTable { nodes: Vec::new() }
            },
        }
    }

    /// Table from `(course, deviation)` pairs, courses in whole degrees
    /// reduced into `[0, 360)`, deviations in microdegrees, in any order.
    ///
    /// # Errors
    ///
    /// - [`KernelError::OutOfRange`] for a deviation beyond ±180°, or
    ///   [`KernelError::CapacityExceeded`] for more than
    ///   [`MAX_TABLE_NODES`] pairs: whichever the first such pair meets.
    /// - [`NavigationError::DuplicateCourse`] for two pairs on one course: the
    ///   smallest such course.
    /// - [`KernelError::InsufficientData`] for fewer than two pairs.
    pub fn from_pairs(deviations: &[(i32, i64)]) -> (r: Result<DeviationTable, NavigationError>)
        ensures
            built_from(deviations@, r),
    {
        build(deviations)
    }

    /// Table of the standard swing: deviations in microdegrees every ten
    /// degrees from north.
    ///
    /// # Errors
    ///
    /// - [`NavigationError::UnexpectedTableLength`] unless there are
    ///   [`STANDARD_TABLE_LEN`] values: short slices are not filled, long ones
    ///   not cut.
    /// - [`KernelError::OutOfRange`] for the first deviation beyond ±180°.
    pub fn from_deviations(deviations: &[i64]) -> (r: Result<DeviationTable, NavigationError>)
        ensures
            match r {
                Ok(t) => deviations@.len() == STANDARD_TABLE_LEN && t@.len() == STANDARD_TABLE_LEN
                    && forall|k: int|
                    0 <= k < STANDARD_TABLE_LEN ==> #[trigger] t@[k].course == 10 * k
                        && t@[k].deviation@ == deviations@[k],
                Err(e) => if deviations@.len() != STANDARD_TABLE_LEN {
                    e == NavigationError::UnexpectedTableLength {
                        found: deviations@.len() as usize,
                        expected: STANDARD_TABLE_LEN,
                    }
                } else {
                    exists|k: int|
                        0 <= k < STANDARD_TABLE_LEN && !(-MAX_DEVIATION <= #[trigger] deviations@[k]
                            <= MAX_DEVIATION) && (forall|j: int|
                            0 <= j < k ==> -MAX_DEVIATION <= #[trigger] deviations@[j] <= MAX_DEVIATION) && e
                            == NavigationError::Kernel(
                            KernelError::OutOfRange {
                                parameter: "deviation",
                                value: deviations@[k],
                                min: (-MAX_DEVIATION) as i64,
                                max: MAX_DEVIATION,
                            },
                        )
                },
            },
    {
        if deviations.len() != STANDARD_TABLE_LEN {
            return Err(
                NavigationError::UnexpectedTableLength {
                    found: deviations.len(),
                    expected: STANDARD_TABLE_LEN,
                },
            );
        }
        let mut nodes: Vec<DeviationNode> = Vec::new();
        let mut i: usize = 0;
        while i < STANDARD_TABLE_LEN
            invariant
                deviations@.len() == STANDARD_TABLE_LEN,
                i <= STANDARD_TABLE_LEN,
                nodes@.len() == i,
                valid_table(nodes@),
                forall|k: int|
                    0 <= k < i ==> #[trigger] nodes@[k].course == 10 * k && nodes@[k].deviation@
                        == deviations@[k],
                forall|j: int| 0 <= j < i ==> -MAX_DEVIATION <= #[trigger] deviations@[j] <= MAX_DEVIATION,
            decreases STANDARD_TABLE_LEN - i,
        {
            let value = deviations[i];
            let deviation = match Deviation::new(value) {
                Ok(d) => d,
                Err(_) => {
                    return Err(
                        NavigationError::Kernel(
                            KernelError::OutOfRange {
                                parameter: "deviation",
                                value,
                                min: -MAX_DEVIATION,
                                max: MAX_DEVIATION,
                            },
                        ),
                    );
                },
            };
            let ghost before = nodes@;
            nodes.push(DeviationNode { course: (i as i32) * 10, deviation });
            proof {
                assert forall|a: int, b: int| 0 <= a < b < nodes@.len() implies nodes@[a].course
                    < nodes@[b].course by {
                    assert(nodes@[a].course == 10 * a);
                    assert(nodes@[b].course == 10 * b);
                }
                assert(nodes@[i as int].course == 10 * i);
            }
            i = i + 1;
        }
        Ok(DeviationTable { nodes })
    }

    /// Table from a compass swing: each observation's heading rounded to the
    /// whole degree, with the deviation it gives under `variation`.
    ///
    /// # Errors
    ///
    /// As [`DeviationTable::from_pairs`] on those pairs.
    pub fn from_swing(observations: &[SwingObservation], variation: Variation) -> (r: Result<
        DeviationTable,
        NavigationError,
    >)
        ensures
            built_from(swing_pairs(observations@, variation@), r),
    {
        let mut pairs: Vec<(i32, i64)> = Vec::new();
        let mut i: usize = 0;
        while i < observations.len()
            invariant
                i <= observations@.len(),
                pairs@ == swing_pairs(observations@, variation@).take(i as int),
            decreases observations@.len() - i,
        {
            let observation = observations[i];
            let heading = observation.heading_degrees();
            let deviation = match observation.deviation(variation) {
                Ok(d) => d.microdegrees(),
                Err(e) => {
                    return Err(e);
                },
            };
            pairs.push((heading, deviation));
            proof {
                assert(pairs@ =~= swing_pairs(observations@, variation@).take(i + 1));
            }
            i = i + 1;
        }
        proof {
            assert(pairs@ =~= swing_pairs(observations@, variation@));
        }
        build(pairs.as_slice())
    }

    /// Nodes, by increasing course.
    pub fn nodes(&self) -> (r: &Vec<DeviationNode>)
        ensures
            r@ == self@,
            valid_table(r@),
            r@.len() >= 2,
    {
        proof {
            use_type_invariant(self);
        }
        &self.nodes
    }

    /// Number of nodes.
    pub fn len(&self) -> (r: usize)
        ensures
            r == self@.len(),
            2 <= r <= MAX_TABLE_NODES,
    {
        proof {
            use_type_invariant(self);
        }
        self.nodes.len()
    }

    /// Whether the table has no node: never, a table has at least two.
    pub fn is_empty(&self) -> (r: bool)
        ensures
            r == (self@.len() == 0),
            !r,
    {
        proof {
            use_type_invariant(self);
        }
        self.nodes.len() == 0
    }

    /// Deviation at a node's course (reduced into `[0, 360)`); `None` if no
    /// node is there.
    pub fn deviation_at_node(&self, course: i32) -> (r: Option<Deviation>)
        ensures
            r == lookup(self@, norm(course as int)),
    {
        proof {
            use_type_invariant(self);
        }
        let c = course % 360;
        let c = if c < 0 {
            c + 360
        } else {
            c
        };
        match find(&self.nodes, c) {
            Ok(i) => {
                proof {
                    lemma_lookup_at(self.nodes@, i as int);
                }
                Some(self.nodes[i].deviation)
            },
            Err(_) => {
                proof {
                    assert(!has_course(self.nodes@, c as int));
                }
                None
            },
        }
    }

    /// Deviation at a cardinal point.
    ///
    /// # Errors
    ///
    /// [`NavigationError::CourseNotInTable`] if no node is at the point.
    pub fn deviation_at_point(&self, point: CardinalPoint) -> (r: Result<Deviation, NavigationError>)
        ensures
            match lookup(self@, point_degrees(point)) {
                Some(d) => r == Ok::<Deviation, NavigationError>(d),
                None => r == Err::<Deviation, NavigationError>(
                    NavigationError::CourseNotInTable { course: point_degrees(point) as i32 },
                ),
            },
    {
        let course = point.whole_degrees();
        match self.deviation_at_node(course) {
            Some(d) => Ok(d),
            None => Err(NavigationError::CourseNotInTable { course }),
        }
    }

    /// Sets the deviation of the node at `course` (reduced into `[0, 360)`).
    ///
    /// # Errors
    ///
    /// [`NavigationError::CourseNotInTable`] if no node is there; the table
    /// is unchanged. See [`DeviationTable::insert_deviation`] to add one.
    #[verifier::rlimit(80)]
    pub fn set_deviation(&mut self, course: i32, deviation: Deviation) -> (r: Result<
        (),
        NavigationError,
    >)
        ensures
            ({
                let c = norm(course as int);
                match r {
                    Ok(()) => set_at(old(self)@, c, deviation, final(self)@),
                    Err(e) => !has_course(old(self)@, c) && final(self)@ == old(self)@ && e
                        == NavigationError::CourseNotInTable { course: c as i32 },
                }
            }),
    {
        proof {
            use_type_invariant(&*self);
        }
        let c = course % 360;
        let c = if c < 0 {
            c + 360
        } else {
            c
        };
        match find(&self.nodes, c) {
            Ok(i) => {
                let ghost s = self.nodes@;
                let mut nodes = stand_in();
                std::mem::swap(&mut nodes, &mut self.nodes);
                nodes.set(i, DeviationNode { course: c, deviation });
                proof {
                    lemma_update_keeps(s, i as int, deviation, 0);
                    assert(nodes@ == s.update(i as int, DeviationNode { course: s[i as int].course, deviation }));
                    assert(s[i as int].course == c);
                }
                self.nodes = nodes;
                proof {
                    assert(s == old(self)@);
                    assert(old(self)@[i as int].course == c);
                    assert(self@ == s.update(i as int, DeviationNode { course: c, deviation }));
                }
                Ok(())
            },
            Err(_) => {
                proof {
                    assert(!has_course(self.nodes@, c as int));
                }
                Err(NavigationError::CourseNotInTable { course: c })
            },
        }
    }

    /// Sets the deviation at a cardinal point.
    ///
    /// # Errors
    ///
    /// As [`DeviationTable::set_deviation`].
    pub fn set_deviation_at(&mut self, point: CardinalPoint, deviation: Deviation) -> (r: Result<
        (),
        NavigationError,
    >)
        ensures
            ({
                let c = point_degrees(point);
                match r {
                    Ok(()) => set_at(old(self)@, c, deviation, final(self)@),
                    Err(e) => !has_course(old(self)@, c) && final(self)@ == old(self)@ && e
                        == NavigationError::CourseNotInTable { course: c as i32 },
                }
            }),
    {
        self.set_deviation(point.whole_degrees(), deviation)
    }

    /// Sets the deviation at `course` (reduced into `[0, 360)`), adding a node
    /// in its sorted place if there is none.
    ///
    /// # Errors
    ///
    /// [`KernelError::CapacityExceeded`] if a node must be added to a full
    /// table; the table is unchanged.
    #[verifier::rlimit(80)]
    #[verifier::spinoff_prover]
    pub fn insert_deviation(&mut self, course: i32, deviation: Deviation) -> (r: Result<
        (),
        NavigationError,
    >)
        ensures
            ({
                let c = norm(course as int);
                let node = DeviationNode { course: c as i32, deviation };
                match r {
                    Ok(()) => inserted_at(old(self)@, c, deviation, final(self)@) && (!has_course(
                        old(self)@,
                        c,
                    ) ==> old(self)@.len() < MAX_TABLE_NODES),
                    Err(e) => !has_course(old(self)@, c) && old(self)@.len() >= MAX_TABLE_NODES
                        && final(self)@ == old(self)@ && e == NavigationError::Kernel(
                        KernelError::CapacityExceeded {
                            context: "a deviation table",
                            needed: (old(self)@.len() + 1) as usize,
                            capacity: MAX_TABLE_NODES,
                        },
                    ),
                }
            }),
    {
        proof {
            use_type_invariant(&*self);
        }
        let c = course % 360;
        let c = if c < 0 {
            c + 360
        } else {
            c
        };
        match find(&self.nodes, c) {
            Ok(i) => {
                let ghost s = self.nodes@;
                let mut nodes = stand_in();
                std::mem::swap(&mut nodes, &mut self.nodes);
                nodes.set(i, DeviationNode { course: c, deviation });
                proof {
                    lemma_update_keeps(s, i as int, deviation, 0);
                    assert(nodes@ == s.update(i as int, DeviationNode { course: s[i as int].course, deviation }));
                    assert(s[i as int].course == c);
                }
                self.nodes = nodes;
                proof {
                    assert(s == old(self)@);
                    assert(old(self)@[i as int].course == c);
                    assert(self@ == s.update(i as int, DeviationNode { course: c, deviation }));
                    assert(has_course(old(self)@, c as int));
                }
                Ok(())
            },
            Err(_) => {
                proof {
                    assert(!has_course(self.nodes@, c as int));
                }
                let n = self.nodes.len();
                if n >= MAX_TABLE_NODES {
                    return Err(
                        NavigationError::Kernel(
                            KernelError::CapacityExceeded {
                                context: "a deviation table",
                                needed: n + 1,
                                capacity: MAX_TABLE_NODES,
                            },
                        ),
                    );
                }
                let mut nodes = stand_in();
                std::mem::swap(&mut nodes, &mut self.nodes);
                insert_sorted(&mut nodes, DeviationNode { course: c, deviation });
                self.nodes = nodes;
                Ok(())
            },
        }
    }
}

} // verus!

verus! {

impl Default for DeviationTable {
    /// The standard table: zero deviation every ten degrees.
    fn default() -> (t: DeviationTable)
        ensures
            t@.len() == STANDARD_TABLE_LEN,
            zero_grid(t@, 10),
    {
        match grid(10) {
            Some(nodes) => DeviationTable { nodes },
            None => {
                assert(false);
                DeviationTable { nodes: Vec::new() }
            },
        }
    }
}

} // verus!
