//! Events, returned in lists, never published.
use vstd::prelude::*;

use crate::position::Position;
use crate::time::Instant;
use crate::units::{Distance, Speed};

verus! {

/// Events of one evaluation, in the order they occurred.
pub type EventList<E> = Vec<E>;

/// A source of observations.
#[derive(Clone, Copy, Debug, PartialEq, Eq, Hash, Structural)]
pub struct SensorId {
    pub id: u32,
}

impl SensorId {
    /// Source number `id`.
    pub fn new(id: u32) -> (s: SensorId)
        ensures
            s.id == id,
    {
        SensorId { id }
    }
}

/// A traffic target.
#[derive(Clone, Copy, Debug, PartialEq, Eq, Hash, Structural)]
pub struct TargetId {
    pub id: u32,
}

impl TargetId {
    /// Target number `id`.
    pub fn new(id: u32) -> (t: TargetId)
        ensures
            t.id == id,
    {
        TargetId { id }
    }
}

/// Where a position came from.
#[derive(Clone, Copy, Debug, PartialEq, Eq, Hash, Structural)]
pub enum PositionSource {
    /// Satellite receiver.
    Gnss,
    /// Estimator.
    Estimated,
    /// Dead reckoning.
    DeadReckoning,
}

/// Why an observation was not used.
#[derive(Clone, Copy, Debug, PartialEq, Eq, Structural)]
pub enum RejectionReason {
    /// The source does not vouch for it.
    Invalid,
    /// Older than the last accepted one.
    OutOfOrder,
    /// Reaching it would need this speed, more than is plausible.
    ImplausibleJump { implied_speed: Speed },
    /// Gated out: normalised innovation squared, in thousandths.
    Improbable { normalised_innovation_squared_milli: u64 },
}

/// Verdict on one source.
#[derive(Clone, Copy, Debug, PartialEq, Eq, Hash, Structural)]
pub enum SensorHealth {
    /// Observations are being accepted.
    Healthy,
    /// Too many consecutive observations rejected.
    Suspect,
}

/// Overall integrity verdict.
#[derive(Clone, Copy, Debug, PartialEq, Eq, Hash, Structural)]
pub enum NavigationIntegrity {
    /// Fixed recently, uncertainty within the alert limit.
    Nominal,
    /// No position fix for too long.
    DeadReckoning,
    /// Uncertainty beyond the alert limit.
    Exceeded,
}

/// Position and integrity events.
#[derive(Clone, Copy, Debug, PartialEq, Eq, Structural)]
pub enum NavigationEvent {
    /// A position is held again.
    FixAcquired { source: PositionSource, at: Instant },
    /// The held position went stale at `at`; `last_good` is its time.
    FixLost { source: PositionSource, at: Instant, last_good: Instant },
    /// An observation was not used.
    ObservationRejected { reason: RejectionReason, at: Instant },
    /// A source's verdict changed.
    SensorHealthChanged { sensor: SensorId, from: SensorHealth, to: SensorHealth, at: Instant },
    /// The overall verdict changed.
    IntegrityChanged { from: NavigationIntegrity, to: NavigationIntegrity, at: Instant },
}

/// Route guidance events.
#[derive(Clone, Copy, Debug, PartialEq, Eq, Structural)]
pub enum GuidanceEvent {
    /// Waypoint `index` reached: inside the arrival circle, abeam or past.
    WaypointReached { index: u16, at: Instant },
    /// Wheel-over point of the turn at waypoint `index` reached.
    WheelOverReached { index: u16, wheel_over_at: Position, at: Instant },
    /// Cross-track error beyond the limit.
    CrossTrackExceeded { error: Distance, limit: Distance, at: Instant },
}

/// Under-keel clearance events.
#[derive(Clone, Copy, Debug, PartialEq, Eq, Structural)]
pub enum ClearanceEvent {
    /// Clearance below the policy; negative when aground.
    UnderKeelClearanceLow { clearance: Distance, required: Distance, at: Instant },
}

/// Anchor watch events.
#[derive(Clone, Copy, Debug, PartialEq, Eq, Structural)]
pub enum AnchorEvent {
    /// Distance from the anchor beyond swinging radius plus allowance.
    AnchorDragging { distance: Distance, radius: Distance, at: Instant },
}

impl GuidanceEvent {
    /// Time of the position the event was found at.
    pub fn at(&self) -> (r: Instant)
        ensures
            r == match *self {
                GuidanceEvent::WaypointReached { at, .. } => at,
                GuidanceEvent::WheelOverReached { at, .. } => at,
                GuidanceEvent::CrossTrackExceeded { at, .. } => at,
            },
    {
        match self {
            GuidanceEvent::WaypointReached { at, .. } => *at,
            GuidanceEvent::WheelOverReached { at, .. } => *at,
            GuidanceEvent::CrossTrackExceeded { at, .. } => *at,
        }
    }
}

impl ClearanceEvent {
    /// Time of the depth of water.
    pub fn at(&self) -> (r: Instant)
        ensures
            r == match *self {
                ClearanceEvent::UnderKeelClearanceLow { at, .. } => at,
            },
    {
        match self {
            ClearanceEvent::UnderKeelClearanceLow { at, .. } => *at,
        }
    }
}

impl AnchorEvent {
    /// Time of the position.
    pub fn at(&self) -> (r: Instant)
        ensures
            r == match *self {
                AnchorEvent::AnchorDragging { at, .. } => at,
            },
    {
        match self {
            AnchorEvent::AnchorDragging { at, .. } => *at,
        }
    }
}

} // verus!
