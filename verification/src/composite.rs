//! Composite sailing: a great circle held below a limiting latitude.
//!
//! On long east-west passages in high latitudes the great circle climbs
//! towards ice or weather. The composite track is a great circle from the
//! departure to the limiting parallel, a run along the parallel, and a great
//! circle from the parallel to the destination.
//!
//! The spherical construction of the arcs and vertices is made by the caller;
//! [`composite_sailing`] checks the limit and the ends against it and
//! assembles the track, whose lengths the accessors combine exactly.
use vstd::prelude::*;

use crate::error::{KernelError, NavigationError};
use crate::position::{Latitude, Position, POLE};
use crate::route::{LegKind, Route, MAX_WAYPOINTS};
use crate::sailings::Sailing;
use crate::units::{Distance, TrueCourse};

verus! {

/// Whether a length is a length of track: not negative.
pub open spec fn representable(d: Distance) -> bool {
    0 <= d@
}

/// Non-great-circle part of a composite track: arc to the parallel, run along
/// it, arc from it.
#[derive(Clone, Copy, Debug, PartialEq, Eq)]
pub struct ParallelRun {
    /// Great-circle arc from the departure to the parallel, arriving
    /// tangentially.
    pub to_parallel: Sailing,
    /// Tangent point of the first arc.
    pub first_vertex: Position,
    /// Run along the parallel: a rhumb line due east or west.
    pub along_parallel: Sailing,
    /// Point where the track leaves the parallel.
    pub second_vertex: Position,
    /// Great-circle arc from the parallel to the destination, leaving
    /// tangentially.
    pub from_parallel: Sailing,
}

impl ParallelRun {
    /// Whether each part is a length of track and their sum is a length a
    /// [`Distance`] holds.
    pub open spec fn parts_representable(&self) -> bool {
        &&& representable(self.to_parallel.distance)
        &&& representable(self.along_parallel.distance)
        &&& representable(self.from_parallel.distance)
        &&& self.total() <= i64::MAX
    }

    /// Total length of the three parts.
    pub open spec fn total(&self) -> int {
        self.to_parallel.distance@ + self.along_parallel.distance@ + self.from_parallel.distance@
    }

    /// Total length of the three parts.
    pub fn total_distance(&self) -> (r: Distance)
        requires
            self.parts_representable(),
        ensures
            r@ == self.total(),
    {
        Distance {
            millimetres: self.to_parallel.distance.millimetres + self.along_parallel.distance.millimetres
                + self.from_parallel.distance.millimetres,
        }
    }
}

/// Composite track as the contracts see it.
pub struct CompositeState {
    /// Departure.
    pub from: Position,
    /// Destination.
    pub to: Position,
    /// Limiting latitude.
    pub limit: Latitude,
    /// Unconstrained great circle.
    pub great_circle: Sailing,
    /// Parallel run, if the limit is active.
    pub run: Option<ParallelRun>,
}

/// Track between two positions within a limiting latitude.
///
/// Built by [`composite_sailing`]. If the great circle stays within the limit
/// there is no parallel run and the track is the great circle.
#[derive(Clone, Copy, Debug, PartialEq, Eq)]
pub struct CompositeSailing {
    from: Position,
    to: Position,
    limit: Latitude,
    great_circle: Sailing,
    run: Option<ParallelRun>,
}

impl View for CompositeSailing {
    type V = CompositeState;

    closed spec fn view(&self) -> CompositeState {
        CompositeState {
            from: self.from,
            to: self.to,
            limit: self.limit,
            great_circle: self.great_circle,
            run: self.run,
        }
    }
}

/// Whether the lengths of a great circle and an optional run are all
/// representable.
pub open spec fn lengths_representable(great_circle: Sailing, run: Option<ParallelRun>) -> bool {
    &&& representable(great_circle.distance)
    &&& match run {
        Some(r) => r.parts_representable(),
        None => true,
    }
}

/// Track length: composite if the limit is active, else the great circle.
pub open spec fn total_of(s: CompositeState) -> int {
    match s.run {
        Some(r) => r.total(),
        None => s.great_circle.distance@,
    }
}

/// Whether the limit is usable: neither the equator nor a pole.
pub open spec fn limit_usable(limit: int) -> bool {
    limit != 0 && -POLE < limit < POLE
}

/// Whether `latitude` is no further towards the limit's pole than the limit.
pub open spec fn within_limit(latitude: int, limit: int) -> bool {
    if limit < 0 {
        latitude >= limit
    } else {
        latitude <= limit
    }
}

/// Whether the great circle crosses the limit: its vertex on the limit's
/// side lies between the ends and beyond the limit.
pub open spec fn crosses(vertex: Option<Position>, limit: int) -> bool {
    vertex matches Some(v) && !within_limit(v.latitude@, limit)
}

/// Whether the limit is active depends on latitudes measured towards the
/// limit's pole: mirroring the vertex and the limit across the equator
/// leaves it unchanged. A vertex further towards the limit's pole than the
/// limit makes it active, in either hemisphere; one nearer the equator, or no
/// vertex between the ends, leaves the great circle.
pub proof fn law_the_limit_is_active_beyond_it_in_either_hemisphere(
    vertex: Position,
    mirrored: Position,
    limit: int,
)
    requires
        mirrored.latitude@ == -vertex.latitude@,
        limit != 0,
    ensures
        crosses(Some(mirrored), -limit) == crosses(Some(vertex), limit),
        limit < 0 ==> (crosses(Some(vertex), limit) <==> vertex.latitude@ < limit),
        limit > 0 ==> (crosses(Some(vertex), limit) <==> vertex.latitude@ > limit),
        !crosses(None, limit),
{
}

/// Whether a parallel run belongs to `limit` and `great_circle`: both
/// vertices on the limiting parallel, and the three parts together no
/// shorter than the great circle.
pub open spec fn run_fits(run: ParallelRun, limit: int, great_circle: Sailing) -> bool {
    &&& run.first_vertex.latitude@ == limit
    &&& run.second_vertex.latitude@ == limit
    &&& run.total() >= great_circle.distance@
}

/// The refusal of an end beyond `limit`, naming it.
pub open spec fn end_refused(name: &'static str, latitude: int, limit: int) -> NavigationError {
    NavigationError::Kernel(
        KernelError::OutOfRange {
            parameter: name,
            value: latitude as i64,
            min: -(if limit < 0 { -limit } else { limit }) as i64,
            max: (if limit < 0 { -limit } else { limit }) as i64,
        },
    )
}

/// Checks one end against the limit.
fn check_end(name: &'static str, latitude: Latitude, limit: Latitude) -> (r: Result<(), NavigationError>)
    requires
        limit_usable(limit@),
    ensures
        r is Ok <==> within_limit(latitude@, limit@),
        r matches Err(e) ==> e == end_refused(name, latitude@, limit@),
{
    let l = limit.nanodegrees();
    let value = latitude.nanodegrees();
    let magnitude = if l < 0 {
        -l
    } else {
        l
    };
    let beyond = if l < 0 {
        value < l
    } else {
        value > l
    };
    if beyond {
        Err(
            NavigationError::Kernel(
                KernelError::OutOfRange { parameter: name, value, min: -magnitude, max: magnitude },
            ),
        )
    } else {
        Ok(())
    }
}

/// Shortest track from `from` to `to` not beyond `limit`: the great circle
/// if it stays within the limit, otherwise the composite track.
///
/// The spherical construction is given: the great circle from `from` to
/// `to`; its vertex on the limit's side, `None` where that vertex does not
/// lie between the ends; and, where the vertex is beyond the limit, the
/// parallel run built for it. The limit is active exactly when the vertex is
/// given and lies beyond the limit; a run given otherwise is not used.
///
/// # Errors
///
/// [`KernelError::OutOfRange`] naming the limiting latitude, with its
/// magnitude, if it is the equator or a pole; else naming the departure if it is beyond the limit;
/// else naming the destination if it is beyond the limit.
pub fn composite_sailing(
    from: Position,
    to: Position,
    limit: Latitude,
    great_circle: Sailing,
    vertex: Option<Position>,
    run: Option<ParallelRun>,
) -> (r: Result<CompositeSailing, NavigationError>)
    requires
        lengths_representable(great_circle, run),
        run matches Some(p) ==> run_fits(p, limit@, great_circle),
        limit_usable(limit@) && within_limit(from.latitude@, limit@) && within_limit(
            to.latitude@,
            limit@,
        ) && crosses(vertex, limit@) ==> run is Some,
    ensures
        match r {
            Ok(s) => {
                &&& limit_usable(limit@)
                &&& within_limit(from.latitude@, limit@)
                &&& within_limit(to.latitude@, limit@)
                &&& s@ == (CompositeState {
                    from,
                    to,
                    limit,
                    great_circle,
                    run: if crosses(vertex, limit@) {
                        run
                    } else {
                        None
                    },
                })
            },
            Err(e) => if !limit_usable(limit@) {
                e == NavigationError::Kernel(
                    KernelError::OutOfRange {
                        parameter: "limiting latitude",
                        value: (if limit@ < 0 {
                            -limit@
                        } else {
                            limit@
                        }) as i64,
                        min: 1,
                        max: (POLE - 1) as i64,
                    },
                )
            } else if !within_limit(from.latitude@, limit@) {
                e == end_refused("departure", from.latitude@, limit@)
            } else {
                &&& !within_limit(to.latitude@, limit@)
                &&& e == end_refused("destination", to.latitude@, limit@)
            },
        },
{
    let l = limit.nanodegrees();
    if l == 0 || l == POLE || l == -POLE {
        let magnitude = if l < 0 {
            -l
        } else {
            l
        };
        return Err(
            NavigationError::Kernel(
                KernelError::OutOfRange {
                    parameter: "limiting latitude",
                    value: magnitude,
                    min: 1,
                    max: POLE - 1,
                },
            ),
        );
    }
    check_end("departure", from.latitude, limit)?;
    check_end("destination", to.latitude, limit)?;
    let active = match vertex {
        Some(v) => {
            let lat = v.latitude.nanodegrees();
            if l < 0 {
                lat < l
            } else {
                lat > l
            }
        },
        None => false,
    };
    let used = if active {
        run
    } else {
        None
    };
    Ok(CompositeSailing { from, to, limit, great_circle, run: used })
}

impl CompositeSailing {
    #[verifier::type_invariant]
    closed spec fn lengths_bounded(&self) -> bool {
        &&& lengths_representable(self.great_circle, self.run)
        &&& (self.run matches Some(p) ==> run_fits(p, self.limit@, self.great_circle))
    }

    /// Departure.
    pub fn from(&self) -> (r: Position)
        ensures
            r == self@.from,
    {
        self.from
    }

    /// Destination.
    pub fn to(&self) -> (r: Position)
        ensures
            r == self@.to,
    {
        self.to
    }

    /// Limiting latitude.
    pub fn limit(&self) -> (r: Latitude)
        ensures
            r == self@.limit,
    {
        self.limit
    }

    /// Unconstrained great circle, for comparison.
    pub fn great_circle(&self) -> (r: Sailing)
        ensures
            r == self@.great_circle,
    {
        self.great_circle
    }

    /// Whether the limit is active; `false` when the great circle stays within
    /// it.
    pub fn is_limited(&self) -> (r: bool)
        ensures
            r == self@.run is Some,
    {
        self.run.is_some()
    }

    /// Parallel run, if the limit is active.
    pub fn parallel_run(&self) -> (r: Option<ParallelRun>)
        ensures
            r == self@.run,
            r matches Some(p) ==> run_fits(p, self@.limit@, self@.great_circle),
    {
        proof {
            use_type_invariant(self);
        }
        self.run
    }

    /// Track length: composite if the limit is active, else the great circle.
    pub fn total_distance(&self) -> (r: Distance)
        ensures
            r@ == total_of(self@),
    {
        proof {
            use_type_invariant(self);
        }
        match &self.run {
            Some(run) => run.total_distance(),
            None => self.great_circle.distance,
        }
    }

    /// Extra distance due to the limit; zero if inactive.
    pub fn extra_distance(&self) -> (r: Distance)
        ensures
            r@ == total_of(self@) - self@.great_circle.distance@,
            r@ >= 0,
            self@.run is None ==> r@ == 0,
    {
        proof {
            use_type_invariant(self);
        }
        let total = self.total_distance();
        Distance { millimetres: total.millimetres - self.great_circle.distance.millimetres }
    }

    /// Initial course: of the arc to the parallel if the limit is active, else
    /// of the great circle.
    pub fn initial_course(&self) -> (r: TrueCourse)
        ensures
            r == match self@.run {
                Some(run) => run.to_parallel.initial_course,
                None => self@.great_circle.initial_course,
            },
    {
        match &self.run {
            Some(run) => run.to_parallel.initial_course,
            None => self.great_circle.initial_course,
        }
    }
}

/// Waypoints of a composite track joined from its three parts, which share
/// their two junctions.
pub open spec fn joined(up: Seq<Position>, along: Seq<Position>, down: Seq<Position>) -> Seq<
    Position,
> {
    up + along.skip(1) + down.skip(1)
}

/// Appends all but the first `skip` waypoints of `part`.
fn append_from(out: &mut Vec<Position>, part: &[Position], skip: usize)
    requires
        skip <= part@.len(),
    ensures
        final(out)@ == old(out)@ + part@.skip(skip as int),
{
    let ghost start = out@;
    let mut i: usize = skip;
    while i < part.len()
        invariant
            skip <= i <= part@.len(),
            out@ == start + part@.subrange(skip as int, i as int),
        decreases part@.len() - i,
    {
        out.push(part[i]);
        proof {
            assert(part@.subrange(skip as int, i + 1) =~= part@.subrange(skip as int, i as int).push(
                part@[i as int],
            ));
        }
        i = i + 1;
    }
    proof {
        assert(part@.subrange(skip as int, i as int) =~= part@.skip(skip as int));
    }
}

/// Composite track as one rhumb-line route, from its parts already split into
/// rhumb legs: the arc to the parallel, the run along it and the arc from it.
/// The parts share their two junctions, which appear once.
///
/// # Errors
///
/// [`KernelError::CapacityExceeded`] if the joined track has more than
/// [`MAX_WAYPOINTS`] waypoints.
pub fn join_parts(up: &Route, along: &Route, down: &Route) -> (r: Result<Route, NavigationError>)
    ensures
        match r {
            Ok(route) => joined(up@.0, along@.0, down@.0).len() <= MAX_WAYPOINTS && route@ == (
            joined(up@.0, along@.0, down@.0), LegKind::RhumbLine),
            Err(e) => joined(up@.0, along@.0, down@.0).len() > MAX_WAYPOINTS && e
                == NavigationError::Kernel(
                KernelError::CapacityExceeded {
                    context: "a composite route",
                    needed: joined(up@.0, along@.0, down@.0).len() as usize,
                    capacity: MAX_WAYPOINTS,
                },
            ),
        },
{
    let first = up.waypoints();
    let second = along.waypoints();
    let third = down.waypoints();
    let needed = first.len() + second.len() + third.len() - 2;
    if needed > MAX_WAYPOINTS {
        return Err(
            NavigationError::Kernel(
                KernelError::CapacityExceeded {
                    context: "a composite route",
                    needed,
                    capacity: MAX_WAYPOINTS,
                },
            ),
        );
    }
    let mut waypoints: Vec<Position> = Vec::new();
    append_from(&mut waypoints, first, 0);
    append_from(&mut waypoints, second, 1);
    append_from(&mut waypoints, third, 1);
    proof {
        assert(first@.skip(0) =~= first@);
        assert(waypoints@ =~= joined(up@.0, along@.0, down@.0));
    }
    Route::new(waypoints.as_slice(), LegKind::RhumbLine)
}

} // verus!
