//! Anchor watch: swinging circle and dragging detection.
//!
//! Swinging radius = horizontal scope of the cable + hawse-to-antenna distance.
//! A position outside the circle plus an allowance (position error, catenary
//! slack) raises [`AnchorEvent::AnchorDragging`]. An error in the recorded
//! anchor position is indistinguishable from dragging.
//!
//! The distance and bearing of the vessel from the anchor are a spherical
//! computation made by the caller; [`AnchorWatch::check`] takes them.
use vstd::prelude::*;

use crate::error::{ensure_range, KernelError, NavigationError};
use crate::event::{AnchorEvent, EventList};
use crate::math::{is_nearest_root, nearest_root};
use crate::position::Position;
use crate::sailings::Sailing;
use crate::snapshot::NavigationSnapshot;
use crate::time::Instant;
use crate::units::{Distance, TrueCourse};

verus! {

/// Swinging circle radius about the anchor, at the measured position:
/// `√(cable² − depth_at_hawse²) + antenna_to_bow`, the root rounded to the
/// nearest whole millimetre (so within half a millimetre of the exact
/// radius).
///
/// `depth_at_hawse` is the water depth plus the hawse height above the
/// surface.
///
/// # Errors
///
/// [`KernelError::OutOfRange`] naming the first of the depth at hawse and
/// the distance from antenna to bow that is negative; else naming the cable
/// if it is shorter than `depth_at_hawse`; else naming the swinging radius if
/// the radius is longer than a [`Distance`] holds.
pub fn swinging_radius(cable: Distance, depth_at_hawse: Distance, antenna_to_bow: Distance) -> (r:
    Result<Distance, NavigationError>)
    ensures
        match r {
            Ok(radius) => {
                &&& 0 <= depth_at_hawse@
                &&& 0 <= antenna_to_bow@
                &&& depth_at_hawse@ <= cable@
                &&& is_nearest_root(
                    cable@ * cable@ - depth_at_hawse@ * depth_at_hawse@,
                    radius@ - antenna_to_bow@,
                )
            },
            Err(e) => if depth_at_hawse@ < 0 {
                e == NavigationError::Kernel(KernelError::OutOfRange {
                    parameter: "depth at hawse",
                    value: depth_at_hawse@ as i64,
                    min: 0,
                    max: i64::MAX,
                })
            } else if antenna_to_bow@ < 0 {
                e == NavigationError::Kernel(KernelError::OutOfRange {
                    parameter: "antenna to bow",
                    value: antenna_to_bow@ as i64,
                    min: 0,
                    max: i64::MAX,
                })
            } else if cable@ < depth_at_hawse@ {
                e == NavigationError::Kernel(KernelError::OutOfRange {
                    parameter: "cable",
                    value: cable@ as i64,
                    min: depth_at_hawse@ as i64,
                    max: i64::MAX,
                })
            } else {
                &&& forall|s: int| #[trigger] is_nearest_root(
                    cable@ * cable@ - depth_at_hawse@ * depth_at_hawse@,
                    s,
                ) ==> s + antenna_to_bow@ > i64::MAX
                &&& e matches NavigationError::Kernel(KernelError::OutOfRange {
                    parameter: "swinging radius",
                    ..
                })
            },
        },
{
    ensure_range("depth at hawse", depth_at_hawse.millimetres, 0, i64::MAX)?;
    ensure_range("antenna to bow", antenna_to_bow.millimetres, 0, i64::MAX)?;
    ensure_range("cable", cable.millimetres, depth_at_hawse.millimetres, i64::MAX)?;
    let c = cable.millimetres as u128;
    let d = depth_at_hawse.millimetres as u128;
    proof {
        assert(d * d <= c * c < 0x1_0000_0000_0000_0000 * 0x1_0000_0000_0000_0000) by (
        nonlinear_arith)
            requires
                0 <= d <= c < 0x1_0000_0000_0000_0000,
        ;
    }
    let scope = nearest_root(c * c - d * d);
    proof {
        if scope > c {
            assert((2 * c + 1) * (2 * c + 1) <= (2 * scope - 1) * (2 * scope - 1)) by (nonlinear_arith)
                requires
                    c + 1 <= scope,
                    c >= 0,
            ;
            assert(4 * (c * c - d * d) < (2 * c + 1) * (2 * c + 1)) by (nonlinear_arith)
                requires
                    d >= 0,
            ;
        }
        assert forall|s: int| #[trigger] is_nearest_root(
            cable@ * cable@ - depth_at_hawse@ * depth_at_hawse@,
            s,
        ) implies s == scope by {
            crate::math::lemma_nearest_root_unique(
                cable@ * cable@ - depth_at_hawse@ * depth_at_hawse@,
                s,
                scope as int,
            );
        }
    }
    let radius = scope as i128 + antenna_to_bow.millimetres as i128;
    if radius > i64::MAX as i128 {
        return Err(
            NavigationError::Kernel(
                KernelError::OutOfRange {
                    parameter: "swinging radius",
                    value: antenna_to_bow.millimetres,
                    min: 0,
                    max: i64::MAX - scope as i64,
                },
            ),
        );
    }
    Ok(Distance { millimetres: radius as i64 })
}

/// Swinging radius plus allowance, held at the largest length a
/// [`Distance`] holds.
pub open spec fn alarm_sum(radius: int, allowance: int) -> int {
    if radius + allowance > i64::MAX {
        i64::MAX as int
    } else {
        radius + allowance
    }
}

/// Whether a vessel at `distance` from the anchor is dragging: beyond the
/// swinging circle and its allowance.
pub open spec fn dragging(distance: int, watch: AnchorWatchState) -> bool {
    distance > watch.swinging_radius@ + watch.allowance@
}

/// The dragging alarm is a circle: a vessel on or inside the swinging radius
/// plus the allowance is quiet, one beyond it is dragging, and moving
/// further from the anchor never silences the alarm; a larger allowance
/// never raises it.
pub proof fn law_dragging_is_outside_the_circle(
    watch: AnchorWatchState,
    distance: int,
    further: int,
    allowance: Distance,
)
    requires
        distance <= further,
        watch.allowance@ <= allowance@,
    ensures
        !dragging(watch.swinging_radius@ + watch.allowance@, watch),
        dragging(watch.swinging_radius@ + watch.allowance@ + 1, watch),
        dragging(distance, watch) ==> dragging(further, watch),
        dragging(distance, AnchorWatchState { allowance, ..watch }) ==> dragging(distance, watch),
{
}

/// What a watch is, as the contracts see it.
#[derive(Clone, Copy, Debug, PartialEq, Eq)]
pub struct AnchorWatchState {
    /// Anchor position.
    pub anchor: Position,
    /// Swinging circle radius.
    pub swinging_radius: Distance,
    /// Allowance beyond the circle.
    pub allowance: Distance,
}

/// Anchor position and the circle the vessel may swing on.
#[derive(Clone, Copy, Debug, PartialEq, Eq)]
pub struct AnchorWatch {
    anchor: Position,
    swinging_radius: Distance,
    allowance: Distance,
}

impl View for AnchorWatch {
    type V = AnchorWatchState;

    closed spec fn view(&self) -> AnchorWatchState {
        AnchorWatchState {
            anchor: self.anchor,
            swinging_radius: self.swinging_radius,
            allowance: self.allowance,
        }
    }
}

impl AnchorWatch {
    #[verifier::type_invariant]
    closed spec fn radii_in_range(&self) -> bool {
        &&& 0 <= self.swinging_radius@
        &&& 0 <= self.allowance@
    }

    /// Watch on `anchor` with the given swinging radius and zero allowance.
    ///
    /// # Errors
    ///
    /// [`KernelError::OutOfRange`] naming the swinging radius if it is
    /// negative; every other length is accepted.
    pub fn new(anchor: Position, swinging_radius: Distance) -> (r: Result<
        AnchorWatch,
        NavigationError,
    >)
        ensures
            match r {
                Ok(w) => 0 <= swinging_radius@ && w@ == (AnchorWatchState {
                    anchor,
                    swinging_radius,
                    allowance: Distance { millimetres: 0 },
                }),
                Err(e) => swinging_radius@ < 0 && e == NavigationError::Kernel(
                    KernelError::OutOfRange {
                        parameter: "swinging radius",
                        value: swinging_radius@ as i64,
                        min: 0,
                        max: i64::MAX,
                    },
                ),
            },
    {
        ensure_range("swinging radius", swinging_radius.millimetres, 0, i64::MAX)?;
        Ok(AnchorWatch { anchor, swinging_radius, allowance: Distance { millimetres: 0 } })
    }

    /// Sets the allowance beyond the swinging circle before dragging is
    /// reported: position error, cable slack, false-alarm margin.
    ///
    /// # Errors
    ///
    /// [`KernelError::OutOfRange`] naming the allowance if it is negative;
    /// every other length is accepted.
    pub fn with_allowance(self, allowance: Distance) -> (r: Result<AnchorWatch, NavigationError>)
        ensures
            match r {
                Ok(w) => 0 <= allowance@ && w@ == (AnchorWatchState {
                    allowance,
                    ..self@
                }),
                Err(e) => allowance@ < 0 && e == NavigationError::Kernel(
                    KernelError::OutOfRange {
                        parameter: "allowance",
                        value: allowance@ as i64,
                        min: 0,
                        max: i64::MAX,
                    },
                ),
            },
    {
        proof {
            use_type_invariant(&self);
        }
        ensure_range("allowance", allowance.millimetres, 0, i64::MAX)?;
        Ok(AnchorWatch { allowance, ..self })
    }

    /// Anchor position.
    pub fn anchor(&self) -> (r: Position)
        ensures
            r == self@.anchor,
    {
        self.anchor
    }

    /// Swinging circle radius.
    pub fn swinging_radius(&self) -> (r: Distance)
        ensures
            r == self@.swinging_radius,
            0 <= r@,
    {
        proof {
            use_type_invariant(self);
        }
        self.swinging_radius
    }

    /// Allowance beyond the swinging circle.
    pub fn allowance(&self) -> (r: Distance)
        ensures
            r == self@.allowance,
            0 <= r@,
    {
        proof {
            use_type_invariant(self);
        }
        self.allowance
    }

    /// Dragging threshold: swinging radius + allowance, held at the largest
    /// length a [`Distance`] holds where the sum goes beyond it.
    pub fn alarm_radius(&self) -> (r: Distance)
        ensures
            r@ == alarm_sum(self@.swinging_radius@, self@.allowance@),
            0 <= r@,
    {
        proof {
            use_type_invariant(self);
        }
        let sum = self.swinging_radius.millimetres as i128 + self.allowance.millimetres as i128;
        let held: i64 = if sum > i64::MAX as i128 {
            i64::MAX
        } else {
            sum as i64
        };
        Distance { millimetres: held }
    }

    /// Checks the position in `state` against the watch, given the great-circle
    /// sailing from the anchor to that position.
    ///
    /// # Errors
    ///
    /// [`KernelError::Missing`] if the snapshot has no position.
    pub fn check(&self, state: &NavigationSnapshot, from_anchor: Sailing) -> (r: Result<
        (AnchorView, EventList<AnchorEvent>),
        NavigationError,
    >)
        requires
            0 <= from_anchor.distance@,
        ensures
            match state.position {
                None => r == Err::<(AnchorView, EventList<AnchorEvent>), NavigationError>(
                    NavigationError::Kernel(KernelError::Missing { what: "the vessel's position" }),
                ),
                Some((_, at)) => r matches Ok((view, events)) && {
                    &&& view@ == (AnchorViewState {
                        at,
                        distance_from_anchor: from_anchor.distance,
                        bearing_from_anchor: from_anchor.initial_course,
                        alarm_radius: Distance {
                            millimetres: alarm_sum(self@.swinging_radius@, self@.allowance@) as i64,
                        },
                    })
                    &&& events@ == if dragging(from_anchor.distance@, self@) {
                        seq![
                            AnchorEvent::AnchorDragging {
                                distance: from_anchor.distance,
                                radius: view@.alarm_radius,
                                at,
                            },
                        ]
                    } else {
                        seq![]
                    }
                },
            },
    {
        let at = match state.position {
            None => {
                return Err(
                    NavigationError::Kernel(KernelError::Missing { what: "the vessel's position" }),
                )
            },
            Some((_, at)) => at,
        };
        let view = AnchorView {
            at,
            distance_from_anchor: from_anchor.distance,
            bearing_from_anchor: from_anchor.initial_course,
            alarm_radius: self.alarm_radius(),
        };
        let mut events: Vec<AnchorEvent> = Vec::new();
        if view.is_dragging() {
            events.push(
                AnchorEvent::AnchorDragging {
                    distance: view.distance_from_anchor,
                    radius: view.alarm_radius,
                    at: view.at,
                },
            );
        }
        Ok((view, events))
    }
}

/// Vessel position relative to the anchor, as the contracts see it.
#[derive(Clone, Copy, Debug, PartialEq, Eq)]
pub struct AnchorViewState {
    /// Time of the position.
    pub at: Instant,
    /// Distance from the anchor.
    pub distance_from_anchor: Distance,
    /// Bearing of the position from the anchor.
    pub bearing_from_anchor: TrueCourse,
    /// Dragging threshold.
    pub alarm_radius: Distance,
}

/// Vessel position relative to the anchor at one instant.
#[derive(Clone, Copy, Debug, PartialEq, Eq)]
pub struct AnchorView {
    at: Instant,
    distance_from_anchor: Distance,
    bearing_from_anchor: TrueCourse,
    alarm_radius: Distance,
}

impl View for AnchorView {
    type V = AnchorViewState;

    closed spec fn view(&self) -> AnchorViewState {
        AnchorViewState {
            at: self.at,
            distance_from_anchor: self.distance_from_anchor,
            bearing_from_anchor: self.bearing_from_anchor,
            alarm_radius: self.alarm_radius,
        }
    }
}

impl AnchorView {
    #[verifier::type_invariant]
    closed spec fn lengths_in_range(&self) -> bool {
        &&& 0 <= self.distance_from_anchor@
        &&& 0 <= self.alarm_radius@
    }

    /// Time of the position.
    pub fn at(&self) -> (r: Instant)
        ensures
            r == self@.at,
    {
        self.at
    }

    /// Distance from the anchor.
    pub fn distance_from_anchor(&self) -> (r: Distance)
        ensures
            r == self@.distance_from_anchor,
    {
        self.distance_from_anchor
    }

    /// Bearing of the position from the anchor.
    pub fn bearing_from_anchor(&self) -> (r: TrueCourse)
        ensures
            r == self@.bearing_from_anchor,
    {
        self.bearing_from_anchor
    }

    /// Dragging threshold: swinging radius + allowance.
    pub fn alarm_radius(&self) -> (r: Distance)
        ensures
            r == self@.alarm_radius,
    {
        self.alarm_radius
    }

    /// Margin to the threshold; negative when beyond it.
    pub fn slack(&self) -> (r: Distance)
        ensures
            r@ == self@.alarm_radius@ - self@.distance_from_anchor@,
    {
        proof {
            use_type_invariant(self);
        }
        Distance { millimetres: self.alarm_radius.millimetres - self.distance_from_anchor.millimetres }
    }

    /// Whether the position is beyond the threshold.
    pub fn is_dragging(&self) -> (r: bool)
        ensures
            r == (self@.distance_from_anchor@ > self@.alarm_radius@),
    {
        self.slack().is_negative()
    }
}

} // verus!
