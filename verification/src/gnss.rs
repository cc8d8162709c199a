//! Satellite fixes.
use vstd::prelude::*;

use crate::position::Position;
use crate::time::Instant;
use crate::units::{Distance, Speed, TrueCourse};

verus! {

/// What the receiver says its solution is.
#[derive(Clone, Copy, Debug, PartialEq, Eq, Hash, Structural)]
pub enum FixType {
    /// No solution: the sky is lost.
    NoFix,
    /// Estimated by the receiver itself from its last motion.
    Estimated,
    /// Autonomous, two-dimensional.
    TwoDimensional,
    /// Autonomous, three-dimensional.
    ThreeDimensional,
    /// Differentially corrected.
    Differential,
    /// Real-time kinematic, float ambiguities.
    RtkFloat,
    /// Real-time kinematic, fixed ambiguities.
    RtkFixed,
}

impl FixType {
    /// Whether the receiver vouches for the position: a measured solution,
    /// not none and not its own estimate.
    pub open spec fn spec_is_position_fix(self) -> bool {
        !(self is NoFix) && !(self is Estimated)
    }

    /// Whether the receiver vouches for the position.
    pub fn is_position_fix(&self) -> (r: bool)
        ensures
            r == self.spec_is_position_fix(),
    {
        match self {
            FixType::NoFix | FixType::Estimated => false,
            _ => true,
        }
    }
}

/// One fix from a receiver.
#[derive(Clone, Copy, Debug, PartialEq, Eq)]
pub struct GnssFix {
    /// Time of the fix.
    pub taken_at: Instant,
    /// Position.
    pub position: Position,
    /// Solution type.
    pub fix_type: FixType,
    /// Receiver's course over ground, if reported.
    pub course_over_ground: Option<TrueCourse>,
    /// Receiver's speed over ground, if reported.
    pub speed_over_ground: Option<Speed>,
    /// One-sigma horizontal accuracy, if reported.
    pub horizontal_accuracy: Option<Distance>,
}

/// Builder of a [`GnssFix`]: a three-dimensional fix with nothing else unless
/// set.
#[derive(Clone, Copy, Debug, PartialEq, Eq)]
pub struct GnssFixBuilder {
    /// Fix under construction.
    pub fix: GnssFix,
}

impl GnssFix {
    /// Builder for a fix at `taken_at` and `position`.
    pub fn builder(taken_at: Instant, position: Position) -> (b: GnssFixBuilder)
        ensures
            b.fix == (GnssFix {
                taken_at,
                position,
                fix_type: FixType::ThreeDimensional,
                course_over_ground: None,
                speed_over_ground: None,
                horizontal_accuracy: None,
            }),
    {
        GnssFixBuilder {
            fix: GnssFix {
                taken_at,
                position,
                fix_type: FixType::ThreeDimensional,
                course_over_ground: None,
                speed_over_ground: None,
                horizontal_accuracy: None,
            },
        }
    }

    /// Time of the fix.
    pub fn taken_at(&self) -> (r: Instant)
        ensures
            r == self.taken_at,
    {
        self.taken_at
    }

    /// Position.
    pub fn position(&self) -> (r: Position)
        ensures
            r == self.position,
    {
        self.position
    }

    /// Receiver's course over ground.
    pub fn course_over_ground(&self) -> (r: Option<TrueCourse>)
        ensures
            r == self.course_over_ground,
    {
        self.course_over_ground
    }

    /// Receiver's speed over ground.
    pub fn speed_over_ground(&self) -> (r: Option<Speed>)
        ensures
            r == self.speed_over_ground,
    {
        self.speed_over_ground
    }

    /// One-sigma horizontal accuracy.
    pub fn horizontal_accuracy(&self) -> (r: Option<Distance>)
        ensures
            r == self.horizontal_accuracy,
    {
        self.horizontal_accuracy
    }
}

impl GnssFixBuilder {
    /// Sets the solution type.
    pub fn fix_type(self, fix_type: FixType) -> (b: GnssFixBuilder)
        ensures
            b.fix == (GnssFix { fix_type, ..self.fix }),
    {
        GnssFixBuilder { fix: GnssFix { fix_type, ..self.fix } }
    }

    /// Sets the receiver's course over ground.
    pub fn course_over_ground(self, course: TrueCourse) -> (b: GnssFixBuilder)
        ensures
            b.fix == (GnssFix { course_over_ground: Some(course), ..self.fix }),
    {
        GnssFixBuilder { fix: GnssFix { course_over_ground: Some(course), ..self.fix } }
    }

    /// Sets the receiver's speed over ground.
    pub fn speed_over_ground(self, speed: Speed) -> (b: GnssFixBuilder)
        ensures
            b.fix == (GnssFix { speed_over_ground: Some(speed), ..self.fix }),
    {
        GnssFixBuilder { fix: GnssFix { speed_over_ground: Some(speed), ..self.fix } }
    }

    /// Sets the one-sigma horizontal accuracy.
    pub fn horizontal_accuracy(self, sigma: Distance) -> (b: GnssFixBuilder)
        ensures
            b.fix == (GnssFix { horizontal_accuracy: Some(sigma), ..self.fix }),
    {
        GnssFixBuilder { fix: GnssFix { horizontal_accuracy: Some(sigma), ..self.fix } }
    }

    /// The fix.
    pub fn build(self) -> (f: GnssFix)
        ensures
            f == self.fix,
    {
        self.fix
    }
}

} // verus!
