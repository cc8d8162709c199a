//! Route guidance: what to steer now, and route events.
//!
//! Inputs: a [`Route`], the vessel's [`NavigationSnapshot`], and the geometry
//! of the vessel against the active leg ([`LegGeometry`]: cross-track error,
//! the track abeam, the sailing to the next waypoint, the remaining legs, the
//! current triangle and the planned turns), which is spherical and computed
//! outside the library. Outputs: the track to make good, the heading that
//! makes it good against current and leeway, and events on waypoint arrival,
//! wheel-over or excessive cross-track error.
//!
//! [`guide`] is a pure function: nothing is remembered between calls. The
//! caller owns the active leg and advances it on
//! [`GuidanceEvent::WaypointReached`] or, with turns planned, on the earlier
//! [`GuidanceEvent::WheelOverReached`].
use vstd::prelude::*;

use crate::error::{ensure_range, KernelError, NavigationError};
use crate::event::{EventList, GuidanceEvent};
use crate::navigation_solutions::SteeringSolution;
use crate::position::Position;
use crate::route::{LegCursor, Route};
use crate::sailings::{CrossTrack, Sailing};
use crate::snapshot::NavigationSnapshot;
use crate::turning::{Turn, TurnMode, TurnParameters};
use crate::units::{wrap360_spec, Angle, Distance, TrueCourse, MAX_LENGTH_MM};

verus! {

/// Guidance thresholds and leeway, as the contracts see them.
#[derive(Clone, Copy, Debug, PartialEq, Eq)]
pub struct GuidanceSettings {
    /// Cross-track error beyond which [`GuidanceEvent::CrossTrackExceeded`]
    /// is reported.
    pub cross_track_limit: Distance,
    /// Distance from the next waypoint within which it counts as reached.
    pub arrival_radius: Distance,
    /// Leeway allowed for in the course to steer.
    pub leeway: Angle,
    /// Turn planning, if turns are anticipated.
    pub turn: Option<TurnParameters>,
}

/// Guidance thresholds and leeway: vessel settings, validated once by
/// [`GuidanceConfig::new`].
#[derive(Clone, Copy, Debug, PartialEq, Eq)]
pub struct GuidanceConfig {
    cross_track_limit: Distance,
    arrival_radius: Distance,
    leeway: Angle,
    turn: Option<TurnParameters>,
}

impl View for GuidanceConfig {
    type V = GuidanceSettings;

    closed spec fn view(&self) -> GuidanceSettings {
        GuidanceSettings {
            cross_track_limit: self.cross_track_limit,
            arrival_radius: self.arrival_radius,
            leeway: self.leeway,
            turn: self.turn,
        }
    }
}

impl GuidanceConfig {
    #[verifier::type_invariant]
    closed spec fn thresholds_in_range(&self) -> bool {
        &&& 0 <= self.cross_track_limit@
        &&& 0 <= self.arrival_radius@
    }

    /// Settings with the cross-track limit and arrival radius, no leeway and
    /// no turn anticipation.
    ///
    /// # Errors
    ///
    /// [`KernelError::OutOfRange`] naming the first threshold that is
    /// negative; every other length is accepted.
    pub fn new(cross_track_limit: Distance, arrival_radius: Distance) -> (r: Result<
        GuidanceConfig,
        NavigationError,
    >)
        ensures
            match r {
                Ok(c) => 0 <= cross_track_limit@ && 0 <= arrival_radius@ && c@ == (GuidanceSettings {
                    cross_track_limit,
                    arrival_radius,
                    leeway: Angle { microdegrees: 0 },
                    turn: None,
                }),
                Err(e) => if cross_track_limit@ < 0 {
                    e == NavigationError::Kernel(
                        KernelError::OutOfRange {
                            parameter: "cross-track limit",
                            value: cross_track_limit@ as i64,
                            min: 0,
                            max: i64::MAX,
                        },
                    )
                } else {
                    arrival_radius@ < 0 && e == NavigationError::Kernel(
                        KernelError::OutOfRange {
                            parameter: "arrival radius",
                            value: arrival_radius@ as i64,
                            min: 0,
                            max: i64::MAX,
                        },
                    )
                },
            },
    {
        ensure_range("cross-track limit", cross_track_limit.millimetres, 0, i64::MAX)?;
        ensure_range("arrival radius", arrival_radius.millimetres, 0, i64::MAX)?;
        Ok(
            GuidanceConfig {
                cross_track_limit,
                arrival_radius,
                leeway: Angle { microdegrees: 0 },
                turn: None,
            },
        )
    }

    /// Sets the leeway: positive sets the vessel to starboard of her heading,
    /// so the course to steer is that much to port of the water track.
    pub fn with_leeway(self, leeway: Angle) -> (c: GuidanceConfig)
        ensures
            c@ == (GuidanceSettings { leeway, ..self@ }),
    {
        proof {
            use_type_invariant(&self);
        }
        GuidanceConfig { leeway, ..self }
    }

    /// Anticipates turns at the waypoints as `turn` plans them.
    pub fn anticipating_turns(self, turn: TurnParameters) -> (c: GuidanceConfig)
        ensures
            c@ == (GuidanceSettings { turn: Some(turn), ..self@ }),
    {
        proof {
            use_type_invariant(&self);
        }
        GuidanceConfig { turn: Some(turn), ..self }
    }

    /// Cross-track limit.
    pub fn cross_track_limit(&self) -> (r: Distance)
        ensures
            r == self@.cross_track_limit,
            0 <= r@,
    {
        proof {
            use_type_invariant(self);
        }
        self.cross_track_limit
    }

    /// Arrival radius.
    pub fn arrival_radius(&self) -> (r: Distance)
        ensures
            r == self@.arrival_radius,
            0 <= r@,
    {
        proof {
            use_type_invariant(self);
        }
        self.arrival_radius
    }

    /// Leeway.
    pub fn leeway(&self) -> (r: Angle)
        ensures
            r == self@.leeway,
    {
        self.leeway
    }

    /// Turn planning, if any.
    pub fn turn(&self) -> (r: Option<TurnParameters>)
        ensures
            r == self@.turn,
    {
        self.turn
    }
}

/// The vessel against the active leg, computed on the sphere outside the
/// library.
#[derive(Clone, Debug, PartialEq, Eq)]
pub struct LegGeometry {
    /// Position relative to the leg.
    pub cross_track: CrossTrack,
    /// Leg course at the foot of the perpendicular.
    pub desired_track: TrueCourse,
    /// Sailing from the vessel to the next waypoint.
    pub to_next: Sailing,
    /// Lengths of the legs after the active one.
    pub later_legs: Vec<Distance>,
    /// Current triangle for the desired track, if solvable.
    pub steering: Option<SteeringSolution>,
    /// Planned turn leaving the start of the leg.
    pub turn_behind: Option<Turn>,
    /// Planned turn at the end of the leg.
    pub turn_ahead: Option<Turn>,
}

/// Whether the lengths of a geometry are within the representable range.
pub open spec fn geometry_in_range(g: LegGeometry) -> bool {
    &&& 0 <= g.cross_track.distance@ <= MAX_LENGTH_MM
    &&& -MAX_LENGTH_MM <= g.cross_track.along_track@ <= MAX_LENGTH_MM
    &&& -MAX_LENGTH_MM <= g.cross_track.to_run@ <= MAX_LENGTH_MM
    &&& 0 <= g.to_next.distance@ <= MAX_LENGTH_MM
    &&& g.later_legs@.len() < 128
    &&& forall|i: int| 0 <= i < g.later_legs@.len() ==> 0 <= #[trigger] g.later_legs@[i]@
        <= MAX_LENGTH_MM
    &&& (g.turn_behind matches Some(t) ==> -MAX_LENGTH_MM <= t.tangent@ <= MAX_LENGTH_MM && -MAX_LENGTH_MM
        <= t.lead@ <= MAX_LENGTH_MM)
    &&& (g.turn_ahead matches Some(t) ==> -MAX_LENGTH_MM <= t.tangent@ <= MAX_LENGTH_MM && -MAX_LENGTH_MM
        <= t.lead@ <= MAX_LENGTH_MM)
}

/// Sum of lengths.
pub open spec fn total(lengths: Seq<Distance>) -> int
    decreases lengths.len(),
{
    if lengths.len() == 0 {
        0
    } else {
        total(lengths.drop_last()) + lengths.last()@
    }
}

/// Guidance at one instant, as the contracts see it.
#[derive(Clone, Copy, Debug, PartialEq, Eq)]
pub struct GuidanceState {
    /// Active leg.
    pub active_leg: LegCursor,
    /// Waypoint at the end of the active leg.
    pub next_waypoint: Position,
    /// Track to make good.
    pub desired_track: TrueCourse,
    /// Heading to steer, allowing for current and leeway.
    pub course_to_steer: TrueCourse,
    /// Current triangle, if solved.
    pub steering: Option<SteeringSolution>,
    /// Position relative to the leg.
    pub cross_track: CrossTrack,
    /// Bearing of the next waypoint.
    pub bearing_to_waypoint: TrueCourse,
    /// Distance to the next waypoint.
    pub distance_to_waypoint: Distance,
    /// Distance to the end of the route: to the next waypoint, then leg by
    /// leg.
    pub distance_to_end: Distance,
    /// Turn at the end of the leg, if planned.
    pub next_turn: Option<Turn>,
    /// Whether the vessel is in a planned turn.
    pub in_turn: bool,
}

/// What to steer now.
#[derive(Clone, Copy, Debug, PartialEq, Eq)]
pub struct GuidanceView {
    state: GuidanceState,
}

impl View for GuidanceView {
    type V = GuidanceState;

    closed spec fn view(&self) -> GuidanceState {
        self.state
    }
}

impl GuidanceView {
    #[verifier::type_invariant]
    closed spec fn lengths_in_range(&self) -> bool {
        &&& -MAX_LENGTH_MM <= self.state.cross_track.to_run@ <= MAX_LENGTH_MM
        &&& (self.state.next_turn matches Some(t) ==> -MAX_LENGTH_MM <= t.lead@ <= MAX_LENGTH_MM)
    }

    /// Active leg.
    pub fn active_leg(&self) -> (r: LegCursor)
        ensures
            r == self@.active_leg,
    {
        self.state.active_leg
    }

    /// Waypoint at the end of the active leg.
    pub fn next_waypoint(&self) -> (r: Position)
        ensures
            r == self@.next_waypoint,
    {
        self.state.next_waypoint
    }

    /// Track to make good.
    pub fn desired_track(&self) -> (r: TrueCourse)
        ensures
            r == self@.desired_track,
    {
        self.state.desired_track
    }

    /// Heading to steer, allowing for current and leeway.
    pub fn course_to_steer(&self) -> (r: TrueCourse)
        ensures
            r == self@.course_to_steer,
    {
        self.state.course_to_steer
    }

    /// Current triangle, if solved.
    pub fn steering(&self) -> (r: Option<SteeringSolution>)
        ensures
            r == self@.steering,
    {
        self.state.steering
    }

    /// Cross-track error.
    pub fn cross_track_error(&self) -> (r: CrossTrack)
        ensures
            r == self@.cross_track,
    {
        self.state.cross_track
    }

    /// Distance along the leg from its start.
    pub fn along_track_distance(&self) -> (r: Distance)
        ensures
            r == self@.cross_track.along_track,
    {
        self.state.cross_track.along_track
    }

    /// Bearing of the next waypoint.
    pub fn bearing_to_waypoint(&self) -> (r: TrueCourse)
        ensures
            r == self@.bearing_to_waypoint,
    {
        self.state.bearing_to_waypoint
    }

    /// Distance to the next waypoint.
    pub fn distance_to_waypoint(&self) -> (r: Distance)
        ensures
            r == self@.distance_to_waypoint,
    {
        self.state.distance_to_waypoint
    }

    /// Distance to the end of the route.
    pub fn distance_to_end(&self) -> (r: Distance)
        ensures
            r == self@.distance_to_end,
    {
        self.state.distance_to_end
    }

    /// Turn at the end of the leg, if planned.
    pub fn next_turn(&self) -> (r: Option<Turn>)
        ensures
            r == self@.next_turn,
    {
        self.state.next_turn
    }

    /// Distance still to run to the wheel-over point of the next turn;
    /// negative once past it.
    pub fn distance_to_wheel_over(&self) -> (r: Option<Distance>)
        ensures
            match self@.next_turn {
                Some(t) => r == Some(
                    Distance { millimetres: (self@.cross_track.to_run@ - t.lead@) as i64 },
                ),
                None => r is None,
            },
    {
        proof {
            use_type_invariant(self);
        }
        match self.state.next_turn {
            Some(t) => Some(
                Distance { millimetres: self.state.cross_track.to_run.millimetres - t.lead.millimetres },
            ),
            None => None,
        }
    }

    /// Whether the vessel is in a planned turn.
    pub fn in_turn(&self) -> (r: bool)
        ensures
            r == self@.in_turn,
    {
        self.state.in_turn
    }
}

/// Whether the planned turns put the vessel in a turn: still on the arc
/// joining this leg, or past the wheel-over for the next.
pub open spec fn in_turn_spec(behind: Option<Turn>, ahead: Option<Turn>, cross_track: CrossTrack) -> bool {
    (behind matches Some(t) && cross_track.along_track@ < t.tangent@) || (ahead matches Some(t)
        && cross_track.to_run@ <= t.lead@)
}

/// Turns that bear on leg `active` of a route of `waypoints` waypoints: the
/// one leaving its start (none on the first leg) and the one at its end (none
/// on the last leg), when turns are planned at all.
pub open spec fn planned_turns(
    turn: Option<TurnParameters>,
    turn_behind: Option<Turn>,
    turn_ahead: Option<Turn>,
    active: int,
    waypoints: int,
) -> (Option<Turn>, Option<Turn>) {
    match turn {
        Some(_) => (
            if active > 0 {
                turn_behind
            } else {
                None
            },
            if active + 1 >= waypoints - 1 {
                None
            } else {
                turn_ahead
            },
        ),
        None => (None, None),
    }
}

/// Whether the cross-track error raises an alarm: beyond the limit and not
/// in a planned turn.
pub open spec fn cross_track_alarm(
    behind: Option<Turn>,
    ahead: Option<Turn>,
    cross_track: CrossTrack,
    limit: int,
) -> bool {
    !in_turn_spec(behind, ahead, cross_track) && cross_track.distance@ > limit
}

/// Whether the wheel-over point of the turn ahead has been reached.
pub open spec fn wheel_over_reached(ahead: Option<Turn>, cross_track: CrossTrack) -> bool {
    ahead matches Some(t) && cross_track.to_run@ <= t.lead@
}

/// Whether the waypoint is reached: within the arrival circle, or abeam or
/// past it along the leg.
pub open spec fn waypoint_reached(distance_to_waypoint: int, cross_track: CrossTrack, arrival_radius: int) -> bool {
    distance_to_waypoint <= arrival_radius || cross_track.to_run@ <= 0
}

/// A waypoint is reached by entering its arrival circle or by coming abeam
/// of it, whichever is first, and not before: getting closer never un-reaches
/// it, and a vessel outside the circle with leg still to run has not arrived.
/// The wheel-over is reached once the distance to run is within the turn's
/// lead, and never without a turn ahead.
pub proof fn law_arrival_and_wheel_over(
    distance: int,
    closer: int,
    cross_track: CrossTrack,
    radius: int,
    ahead: Option<Turn>,
)
    requires
        closer <= distance,
    ensures
        distance <= radius ==> waypoint_reached(distance, cross_track, radius),
        cross_track.to_run@ <= 0 ==> waypoint_reached(distance, cross_track, radius),
        distance > radius && cross_track.to_run@ > 0 ==> !waypoint_reached(distance, cross_track, radius),
        waypoint_reached(distance, cross_track, radius) ==> waypoint_reached(closer, cross_track, radius),
        ahead is None ==> !wheel_over_reached(ahead, cross_track),
        ahead matches Some(t) ==> (wheel_over_reached(ahead, cross_track) <==> cross_track.to_run@ <= t.lead@),
{
}

/// A vessel still on the arc joining its leg is turning: on a leg after the
/// first, with turns planned, while the distance along the leg is short of
/// the tangent point of the turn behind, the vessel is in a turn and no
/// cross-track alarm is raised, however far off the leg it is. Past the
/// wheel-over of the turn ahead the same holds. Otherwise an error beyond the
/// limit raises the alarm.
pub proof fn law_no_cross_track_alarm_in_a_turn(
    turn: TurnParameters,
    turn_behind: Turn,
    turn_ahead: Option<Turn>,
    active: int,
    waypoints: int,
    cross_track: CrossTrack,
    limit: int,
)
    ensures
        ({
            let (behind, ahead) = planned_turns(Some(turn), Some(turn_behind), turn_ahead, active, waypoints);
            active > 0 && cross_track.along_track@ < turn_behind.tangent@ ==> in_turn_spec(
                behind,
                ahead,
                cross_track,
            ) && !cross_track_alarm(behind, ahead, cross_track, limit)
        }),
        ({
            let (behind, ahead) = planned_turns(Some(turn), Some(turn_behind), turn_ahead, active, waypoints);
            active + 1 < waypoints - 1 ==> (turn_ahead matches Some(t) ==> (cross_track.to_run@
                <= t.lead@ ==> in_turn_spec(behind, ahead, cross_track)))
        }),
        ({
            let (behind, ahead) = planned_turns(None, Some(turn_behind), turn_ahead, active, waypoints);
            cross_track_alarm(behind, ahead, cross_track, limit) == (cross_track.distance@ > limit)
        }),
{
}

/// Guidance along `route` for a vessel at `state` on leg `active`, given its
/// geometry against the leg.
///
/// Pure: events describe this evaluation. [`GuidanceEvent::WaypointReached`]
/// (inside the arrival circle, abeam or past) or, with turns,
/// [`GuidanceEvent::WheelOverReached`] is the cue to advance `active`.
/// Cross-track error beyond the limit is reported except in a turn.
///
/// # Errors
///
/// - [`KernelError::Missing`] if the snapshot has no position.
/// - [`KernelError::OutOfRange`] if `active` belongs to a longer route.
/// - [`KernelError::Indeterminate`] for a zero-length active leg, or a
///   rate-of-turn turn without a ground track.
pub fn guide(
    state: &NavigationSnapshot,
    route: &Route,
    active: LegCursor,
    geometry: &LegGeometry,
    config: &GuidanceConfig,
) -> (r: Result<(GuidanceView, EventList<GuidanceEvent>), NavigationError>)
    requires
        geometry_in_range(*geometry),
    ensures
        state.position is None ==> r == Err::<(GuidanceView, EventList<GuidanceEvent>), NavigationError>(
            NavigationError::Kernel(KernelError::Missing { what: "the vessel's position" }),
        ),
        state.position is Some && active@ >= route@.0.len() - 1 ==> r matches Err(
            NavigationError::Kernel(KernelError::OutOfRange { parameter: "active leg", .. }),
        ),
        state.position is Some && active@ < route@.0.len() - 1 && route@.0[active@]
            == route@.0[active@ + 1] ==> r matches Err(
            NavigationError::Kernel(KernelError::Indeterminate { .. }),
        ),
        state.position is Some && active@ < route@.0.len() - 1 && route@.0[active@]
            != route@.0[active@ + 1] && (config@.turn matches Some(p) && p.mode is RateOfTurn
            && state.ground_track is None) ==> r == Err::<
            (GuidanceView, EventList<GuidanceEvent>),
            NavigationError,
        >(
            NavigationError::Kernel(
                KernelError::Indeterminate { quantity: "the speed for a turn by rate of turn" },
            ),
        ),
        state.position is Some && active@ < route@.0.len() - 1 && route@.0[active@]
            != route@.0[active@ + 1] && !(config@.turn matches Some(p) && p.mode is RateOfTurn
            && state.ground_track is None) ==> r is Ok,
        r matches Ok((view, events)) ==> {
            let (_, at) = state.position.unwrap();
            let (behind, ahead) = planned_turns(
                config@.turn,
                geometry.turn_behind,
                geometry.turn_ahead,
                active@ as int,
                route@.0.len() as int,
            );
            let through_water = match geometry.steering {
                Some(s) => s.heading,
                None => geometry.desired_track,
            };
            let in_turn = in_turn_spec(behind, ahead, geometry.cross_track);
            let exceeded = cross_track_alarm(behind, ahead, geometry.cross_track, config@.cross_track_limit@);
            let wheel_over = wheel_over_reached(ahead, geometry.cross_track);
            let reached = waypoint_reached(geometry.to_next.distance@, geometry.cross_track, config@.arrival_radius@);
            &&& state.position is Some
            &&& active@ < route@.0.len() - 1
            &&& route@.0[active@] != route@.0[active@ + 1]
            &&& !(config@.turn matches Some(p) && p.mode is RateOfTurn && state.ground_track is None)
            &&& view@ == GuidanceState {
                active_leg: active,
                next_waypoint: route@.0[active@ + 1],
                desired_track: geometry.desired_track,
                course_to_steer: view@.course_to_steer,
                steering: geometry.steering,
                cross_track: geometry.cross_track,
                bearing_to_waypoint: geometry.to_next.initial_course,
                distance_to_waypoint: geometry.to_next.distance,
                distance_to_end: Distance {
                    millimetres: (geometry.to_next.distance@ + total(geometry.later_legs@)) as i64,
                },
                next_turn: ahead,
                in_turn,
            }
            &&& view@.course_to_steer@ == wrap360_spec(through_water@ - config@.leeway@)
            &&& events@ == (if exceeded {
                seq![
                    GuidanceEvent::CrossTrackExceeded {
                        error: geometry.cross_track.distance,
                        limit: config@.cross_track_limit,
                        at,
                    },
                ]
            } else {
                Seq::empty()
            }) + (if wheel_over {
                seq![
                    GuidanceEvent::WheelOverReached {
                        index: ahead.unwrap().waypoint_index,
                        wheel_over_at: ahead.unwrap().wheel_over,
                        at,
                    },
                ]
            } else {
                Seq::empty()
            }) + (if reached {
                seq![GuidanceEvent::WaypointReached { index: (active@ + 1) as u16, at }]
            } else {
                Seq::empty()
            })
        },
{
    let at = match state.position {
        None => {
            return Err(
                NavigationError::Kernel(KernelError::Missing { what: "the vessel's position" }),
            )
        },
        Some((_, at)) => at,
    };
    let (from, to) = route.leg_ends(active)?;
    if from == to {
        return Err(
            NavigationError::Kernel(
                KernelError::Indeterminate { quantity: "the track of a zero-length leg" },
            ),
        );
    }
    // Remaining distance: direct to the next waypoint, then leg by leg.
    let mut remaining: i64 = geometry.to_next.distance.millimetres;
    let mut i: usize = 0;
    while i < geometry.later_legs.len()
        invariant
            geometry_in_range(*geometry),
            i <= geometry.later_legs@.len(),
            remaining == geometry.to_next.distance@ + total(geometry.later_legs@.subrange(0, i as int)),
            0 <= remaining <= (i + 1) * MAX_LENGTH_MM,
        decreases geometry.later_legs@.len() - i,
    {
        proof {
            let s = geometry.later_legs@.subrange(0, i + 1);
            assert(s.drop_last() =~= geometry.later_legs@.subrange(0, i as int));
            assert(0 <= geometry.later_legs@[i as int]@ <= MAX_LENGTH_MM);
        }
        remaining = remaining + geometry.later_legs[i].millimetres;
        i = i + 1;
    }
    assert(geometry.later_legs@.subrange(0, i as int) =~= geometry.later_legs@);
    let through_water = match geometry.steering {
        Some(s) => s.heading,
        None => geometry.desired_track,
    };
    let steer = (through_water.microdegrees() as i128) - (config.leeway().microdegrees as i128);
    let reduced = steer % 360_000_000;
    let reduced = if reduced < 0 {
        reduced + 360_000_000
    } else {
        reduced
    };
    let course_to_steer = TrueCourse::from_wrapped(reduced as i64);
    let last = active.is_last(route);
    let (behind, ahead) = match config.turn() {
        Some(parameters) => {
            if let TurnMode::RateOfTurn(_) = parameters.mode() {
                if state.ground_track.is_none() {
                    return Err(
                        NavigationError::Kernel(
                            KernelError::Indeterminate {
                                quantity: "the speed for a turn by rate of turn",
                            },
                        ),
                    );
                }
            }
            (
                if active.index() > 0 {
                    geometry.turn_behind
                } else {
                    None
                },
                if last {
                    None
                } else {
                    geometry.turn_ahead
                },
            )
        },
        None => (None, None),
    };
    let still_turning_on = match behind {
        Some(t) => geometry.cross_track.along_track.millimetres < t.tangent.millimetres,
        None => false,
    };
    let wheel_over_passed = match ahead {
        Some(t) => geometry.cross_track.to_run.millimetres <= t.lead.millimetres,
        None => false,
    };
    let in_turn = still_turning_on || wheel_over_passed;
    let mut events: Vec<GuidanceEvent> = Vec::new();
    if !in_turn && geometry.cross_track.distance.millimetres > config.cross_track_limit().millimetres {
        events.push(
            GuidanceEvent::CrossTrackExceeded {
                error: geometry.cross_track.distance,
                limit: config.cross_track_limit(),
                at,
            },
        );
    }
    let ghost after_cross = events@;
    if let Some(turn) = ahead {
        if geometry.cross_track.to_run.millimetres <= turn.lead.millimetres {
            events.push(
                GuidanceEvent::WheelOverReached {
                    index: turn.waypoint_index,
                    wheel_over_at: turn.wheel_over,
                    at,
                },
            );
        }
    }
    let ghost after_wheel = events@;
    let inside_circle = geometry.to_next.distance.millimetres <= config.arrival_radius().millimetres;
    let abeam_or_past = geometry.cross_track.to_run.millimetres <= 0;
    if inside_circle || abeam_or_past {
        events.push(GuidanceEvent::WaypointReached { index: active.index() + 1, at });
    }
    let view = GuidanceView {
        state: GuidanceState {
            active_leg: active,
            next_waypoint: to,
            desired_track: geometry.desired_track,
            course_to_steer,
            steering: geometry.steering,
            cross_track: geometry.cross_track,
            bearing_to_waypoint: geometry.to_next.initial_course,
            distance_to_waypoint: geometry.to_next.distance,
            distance_to_end: Distance { millimetres: remaining },
            next_turn: ahead,
            in_turn,
        },
    };
    Ok((view, events))
}

} // verus!
