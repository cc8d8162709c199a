//! One target's track: its recent fixes and reported motion.
use vstd::prelude::*;

use crate::event::TargetId;
use crate::position::Position;
use crate::snapshot::GroundTrack;
use crate::time::{Duration, Instant};
use crate::units::TrueCourse;

verus! {

/// Fixes kept per track.
pub const MAX_TRACK_HISTORY: usize = 12;

/// Track acquisition state.
#[derive(Clone, Copy, Debug, PartialEq, Eq, Hash, Structural)]
pub enum TrackStatus {
    /// Fewer fixes than the policy needs to acquire.
    Acquiring,
    /// Acquired.
    Tracking,
}

/// One observation of a target.
#[derive(Clone, Copy, Debug, PartialEq, Eq)]
pub struct TargetObservation {
    /// Target.
    pub target: TargetId,
    /// Observed position.
    pub position: Position,
    /// Time of the observation.
    pub at: Instant,
    /// Reported course and speed over ground, if any.
    pub ground_track: Option<GroundTrack>,
    /// Reported heading, if any.
    pub heading: Option<TrueCourse>,
}

impl TargetObservation {
    /// Observation of `target` at `position` and `at`, with no motion
    /// reported.
    pub fn new(target: TargetId, position: Position, at: Instant) -> (o: TargetObservation)
        ensures
            o == (TargetObservation { target, position, at, ground_track: None, heading: None }),
    {
        TargetObservation { target, position, at, ground_track: None, heading: None }
    }

    /// With a reported course and speed over ground.
    pub fn with_ground_track(self, ground_track: GroundTrack) -> (o: TargetObservation)
        ensures
            o == (TargetObservation { ground_track: Some(ground_track), ..self }),
    {
        TargetObservation { ground_track: Some(ground_track), ..self }
    }

    /// With a reported heading.
    pub fn with_heading(self, heading: TrueCourse) -> (o: TargetObservation)
        ensures
            o == (TargetObservation { heading: Some(heading), ..self }),
    {
        TargetObservation { heading: Some(heading), ..self }
    }

    /// Target.
    pub fn target(&self) -> (r: TargetId)
        ensures
            r == self.target,
    {
        self.target
    }

    /// Observed position.
    pub fn position(&self) -> (r: Position)
        ensures
            r == self.position,
    {
        self.position
    }

    /// Time of the observation.
    pub fn at(&self) -> (r: Instant)
        ensures
            r == self.at,
    {
        self.at
    }
}

/// A track as the contracts see it.
pub struct TrackState {
    /// Target.
    pub target: TargetId,
    /// Recent fixes, oldest first.
    pub fixes: Seq<(Position, Instant)>,
    /// Last reported course and speed over ground.
    pub reported: Option<GroundTrack>,
    /// Last reported heading.
    pub heading: Option<TrueCourse>,
    /// Acquisition state.
    pub status: TrackStatus,
}

/// Recent fixes after one more: appended, the oldest dropped when full.
pub open spec fn with_fix(fixes: Seq<(Position, Instant)>, fix: (Position, Instant)) -> Seq<
    (Position, Instant),
> {
    if fixes.len() >= MAX_TRACK_HISTORY {
        fixes.subrange(1, fixes.len() as int).push(fix)
    } else {
        fixes.push(fix)
    }
}

/// One target's track.
#[derive(Debug)]
pub struct TargetTrack {
    target: TargetId,
    fixes: Vec<(Position, Instant)>,
    reported: Option<GroundTrack>,
    heading: Option<TrueCourse>,
    status: TrackStatus,
}

impl View for TargetTrack {
    type V = TrackState;

    closed spec fn view(&self) -> TrackState {
        TrackState {
            target: self.target,
            fixes: self.fixes@,
            reported: self.reported,
            heading: self.heading,
            status: self.status,
        }
    }
}

impl TargetTrack {
    #[verifier::type_invariant]
    closed spec fn has_fixes(&self) -> bool {
        1 <= self.fixes@.len() <= MAX_TRACK_HISTORY
    }

    /// Track started by its first observation.
    pub fn started_by(observation: &TargetObservation) -> (t: TargetTrack)
        ensures
            t@.target == observation.target,
            t@.fixes == seq![(observation.position, observation.at)],
            t@.reported == observation.ground_track,
            t@.heading == observation.heading,
            t@.status == TrackStatus::Acquiring,
    {
        let mut fixes: Vec<(Position, Instant)> = Vec::new();
        fixes.push((observation.position, observation.at));
        TargetTrack {
            target: observation.target,
            fixes,
            reported: observation.ground_track,
            heading: observation.heading,
            status: TrackStatus::Acquiring,
        }
    }

    /// Adds an observation: its fix, and any motion it reports.
    pub fn extend(&mut self, observation: &TargetObservation)
        ensures
            final(self)@.target == old(self)@.target,
            final(self)@.fixes == with_fix(old(self)@.fixes, (observation.position, observation.at)),
            final(self)@.reported == if observation.ground_track is Some {
                observation.ground_track
            } else {
                old(self)@.reported
            },
            final(self)@.heading == if observation.heading is Some {
                observation.heading
            } else {
                old(self)@.heading
            },
            final(self)@.status == old(self)@.status,
    {
        proof {
            use_type_invariant(&*self);
        }
        let fix = (observation.position, observation.at);
        let ghost before = self.fixes@;
        let mut fixes: Vec<(Position, Instant)> = Vec::new();
        fixes.push(fix);
        std::mem::swap(&mut fixes, &mut self.fixes);
        if fixes.len() >= MAX_TRACK_HISTORY {
            fixes.remove(0);
            assert(fixes@ == before.subrange(1, before.len() as int));
        }
        fixes.push(fix);
        self.fixes = fixes;
        if observation.ground_track.is_some() {
            self.reported = observation.ground_track;
        }
        if observation.heading.is_some() {
            self.heading = observation.heading;
        }
    }

    /// Marks the track acquired.
    pub fn acquire(&mut self)
        ensures
            final(self)@.status == TrackStatus::Tracking,
            final(self)@.target == old(self)@.target,
            final(self)@.fixes == old(self)@.fixes,
            final(self)@.reported == old(self)@.reported,
            final(self)@.heading == old(self)@.heading,
    {
        proof {
            use_type_invariant(&*self);
        }
        self.status = TrackStatus::Tracking;
    }

    /// Target.
    pub fn target(&self) -> (r: TargetId)
        ensures
            r == self@.target,
    {
        self.target
    }

    /// Acquisition state.
    pub fn status(&self) -> (r: TrackStatus)
        ensures
            r == self@.status,
    {
        self.status
    }

    /// Number of fixes held, at most [`MAX_TRACK_HISTORY`].
    pub fn fix_count(&self) -> (r: usize)
        ensures
            r == self@.fixes.len(),
            1 <= r <= MAX_TRACK_HISTORY,
    {
        proof {
            use_type_invariant(self);
        }
        self.fixes.len()
    }

    /// Time of the last fix.
    pub fn last_seen(&self) -> (r: Instant)
        ensures
            r == self@.fixes.last().1,
            self@.fixes.len() >= 1,
    {
        proof {
            use_type_invariant(self);
        }
        self.fixes[self.fixes.len() - 1].1
    }

    /// Position of the last fix.
    pub fn last_position(&self) -> (r: Position)
        ensures
            r == self@.fixes.last().0,
    {
        proof {
            use_type_invariant(self);
        }
        self.fixes[self.fixes.len() - 1].0
    }

    /// Time of the oldest fix held.
    pub fn first_seen(&self) -> (r: Instant)
        ensures
            r == self@.fixes[0].1,
    {
        proof {
            use_type_invariant(self);
        }
        self.fixes[0].1
    }

    /// Fixes held, oldest first.
    pub fn fixes(&self) -> (r: &Vec<(Position, Instant)>)
        ensures
            r@ == self@.fixes,
    {
        &self.fixes
    }

    /// Last reported course and speed over ground.
    pub fn reported_ground_track(&self) -> (r: Option<GroundTrack>)
        ensures
            r == self@.reported,
    {
        self.reported
    }

    /// Last reported heading.
    pub fn heading(&self) -> (r: Option<TrueCourse>)
        ensures
            r == self@.heading,
    {
        self.heading
    }

    /// Time since the last fix; zero if `now` is before it.
    pub fn age(&self, now: Instant) -> (r: Duration)
        ensures
            r@ == if now@ >= self@.fixes.last().1@ {
                now@ - self@.fixes.last().1@
            } else {
                0
            },
    {
        match now.checked_duration_since(self.last_seen()) {
            Some(d) => d,
            None => Duration { nanos: 0 },
        }
    }
}

} // verus!
