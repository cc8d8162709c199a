//! Leg-to-leg turns: how they are made, and where the wheel goes over.
//!
//! The turn geometry (advance, transfer, the wheel-over point) is computed
//! outside the library; guidance reasons over its results.
use vstd::prelude::*;

use crate::position::Position;
use crate::units::Distance;

verus! {

/// Rate of turn, microdegrees per minute.
#[derive(Clone, Copy, Debug, PartialEq, Eq, Hash, Structural)]
pub struct RateOfTurn {
    /// Microdegrees per minute.
    pub microdegrees_per_minute: i64,
}

/// How turns are made.
#[derive(Clone, Copy, Debug, PartialEq, Eq, Structural)]
pub enum TurnMode {
    /// On an arc of this radius.
    Radius(Distance),
    /// At this rate of turn; the radius follows from the speed.
    RateOfTurn(RateOfTurn),
}

/// Turn planning settings.
#[derive(Clone, Copy, Debug, PartialEq, Eq)]
pub struct TurnParameters {
    /// How turns are made.
    pub mode: TurnMode,
}

impl TurnParameters {
    /// Turns made as `mode` says.
    pub fn new(mode: TurnMode) -> (t: TurnParameters)
        ensures
            t.mode == mode,
    {
        TurnParameters { mode }
    }

    /// How turns are made.
    pub fn mode(&self) -> (r: TurnMode)
        ensures
            r == self.mode,
    {
        self.mode
    }
}

/// A planned turn at a waypoint.
#[derive(Clone, Copy, Debug, PartialEq, Eq)]
pub struct Turn {
    /// Waypoint of the turn.
    pub waypoint_index: u16,
    /// Where the wheel goes over.
    pub wheel_over: Position,
    /// Distance before the waypoint, along the incoming leg, of the wheel-over.
    pub lead: Distance,
    /// Distance after the waypoint, along the outgoing leg, where the arc
    /// joins it.
    pub tangent: Distance,
    /// Rate of turn made.
    pub rate_of_turn: RateOfTurn,
}

} // verus!
