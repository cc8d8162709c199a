//! Results of sailing computations between two positions.
//!
//! The spherical and ellipsoidal computations themselves run outside the
//! library; the library reasons over their results.
use vstd::prelude::*;

use crate::units::{Distance, TrueCourse};

verus! {

/// Track between two positions: length and initial course.
#[derive(Clone, Copy, Debug, PartialEq, Eq)]
pub struct Sailing {
    /// Distance along the track.
    pub distance: Distance,
    /// Course on leaving the first position.
    pub initial_course: TrueCourse,
}

impl Sailing {
    /// Sailing of `distance` on `initial_course`.
    pub fn new(distance: Distance, initial_course: TrueCourse) -> (s: Sailing)
        ensures
            s.distance == distance,
            s.initial_course == initial_course,
    {
        Sailing { distance, initial_course }
    }
}

} // verus!

verus! {

/// Side of the track the vessel is on.
#[derive(Clone, Copy, Debug, PartialEq, Eq, Hash, Structural)]
pub enum TrackSide {
    /// To port of the track.
    Port,
    /// To starboard of the track.
    Starboard,
    /// On it.
    OnTrack,
}

/// Position relative to a leg: cross-track error and the distances along it.
#[derive(Clone, Copy, Debug, PartialEq, Eq)]
pub struct CrossTrack {
    /// Distance off the track, never negative.
    pub distance: Distance,
    /// Side of the track.
    pub side: TrackSide,
    /// Distance from the start of the leg to the foot of the perpendicular;
    /// negative before the start.
    pub along_track: Distance,
    /// Distance from the foot of the perpendicular to the end of the leg;
    /// negative past the end.
    pub to_run: Distance,
}

} // verus!
