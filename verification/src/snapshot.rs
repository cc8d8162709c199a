//! Read model: position, motion, uncertainty and age at one instant.
use vstd::prelude::*;

use crate::event::{NavigationIntegrity, PositionSource};
use crate::position::Position;
use crate::time::{Duration, Instant};
use crate::units::{Distance, Speed, TrueCourse};

verus! {

/// Course and speed over ground.
#[derive(Clone, Copy, Debug, PartialEq, Eq)]
pub struct GroundTrack {
    /// Course over ground.
    pub course_over_ground: TrueCourse,
    /// Speed over ground.
    pub speed_over_ground: Speed,
}

/// What is known of the vessel at one instant.
#[derive(Clone, Copy, Debug, PartialEq, Eq)]
pub struct NavigationSnapshot {
    /// Position and the time it was taken.
    pub position: Option<(Position, Instant)>,
    /// Where the position came from.
    pub source: Option<PositionSource>,
    /// Ground track, if known.
    pub ground_track: Option<GroundTrack>,
    /// One-sigma horizontal error radius, if known.
    pub horizontal_error: Option<Distance>,
    /// Age of the position at the evaluation instant; `None` before it.
    pub age: Option<Duration>,
    /// Whether the position is older than its limit.
    pub stale: bool,
    /// Integrity verdict, if assessed.
    pub integrity: Option<NavigationIntegrity>,
}

impl NavigationSnapshot {
    /// Nothing known.
    pub open spec fn spec_empty() -> NavigationSnapshot {
        NavigationSnapshot {
            position: None,
            source: None,
            ground_track: None,
            horizontal_error: None,
            age: None,
            stale: false,
            integrity: None,
        }
    }

    /// Nothing known.
    pub fn empty() -> (s: NavigationSnapshot)
        ensures
            s == NavigationSnapshot::spec_empty(),
    {
        NavigationSnapshot {
            position: None,
            source: None,
            ground_track: None,
            horizontal_error: None,
            age: None,
            stale: false,
            integrity: None,
        }
    }

    /// With a position taken at `at` from `source`.
    pub fn with_position(self, position: Position, at: Instant, source: PositionSource) -> (s:
        NavigationSnapshot)
        ensures
            s == (NavigationSnapshot { position: Some((position, at)), source: Some(source), ..self }),
    {
        NavigationSnapshot { position: Some((position, at)), source: Some(source), ..self }
    }

    /// With a ground track.
    pub fn with_ground_track(self, track: GroundTrack) -> (s: NavigationSnapshot)
        ensures
            s == (NavigationSnapshot { ground_track: Some(track), ..self }),
    {
        NavigationSnapshot { ground_track: Some(track), ..self }
    }

    /// Position, if known.
    pub fn position(&self) -> (r: Option<Position>)
        ensures
            r == match self.position {
                Some((p, _)) => Some(p),
                None => None,
            },
    {
        match self.position {
            Some((p, _)) => Some(p),
            None => None,
        }
    }

    /// Time of the position, if known.
    pub fn taken_at(&self) -> (r: Option<Instant>)
        ensures
            r == match self.position {
                Some((_, t)) => Some(t),
                None => None,
            },
    {
        match self.position {
            Some((_, t)) => Some(t),
            None => None,
        }
    }

    /// Source of the position.
    pub fn source(&self) -> (r: Option<PositionSource>)
        ensures
            r == self.source,
    {
        self.source
    }

    /// Ground track.
    pub fn ground_track(&self) -> (r: Option<GroundTrack>)
        ensures
            r == self.ground_track,
    {
        self.ground_track
    }

    /// Age of the position.
    pub fn age(&self) -> (r: Option<Duration>)
        ensures
            r == self.age,
    {
        self.age
    }

    /// Whether the position is stale.
    pub fn is_stale(&self) -> (r: bool)
        ensures
            r == self.stale,
    {
        self.stale
    }
}

} // verus!
