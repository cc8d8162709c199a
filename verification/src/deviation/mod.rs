//! Compass deviation: the table of deviation on compass courses, the swing
//! observations it is built from, and the points of the compass.
use vstd::prelude::*;

pub mod analysis;
pub mod interpolation;
pub mod ring;
pub mod swing;
pub mod table;

verus! {

/// Interpolation method between table nodes.
///
/// The methods themselves are numerical (splines, least squares) and are
/// evaluated outside the library; the table chooses between them by this
/// value.
#[derive(Clone, Copy, Debug, PartialEq, Eq, Hash, Structural)]
pub enum InterpolationMethod {
    /// Periodic linear interpolation: exact at nodes, never overshoots.
    Linear,
    /// Periodic cubic spline, smooth across 360°/0°.
    Cubic,
    /// Classical five-coefficient model, least-squares fit.
    Parametric,
    /// Periodic shape-preserving cubic: monotone between nodes.
    ShapePreserving,
}

impl Default for InterpolationMethod {
    /// Linear: exact at nodes, never overshoots, needs two nodes.
    fn default() -> (m: InterpolationMethod)
        ensures
            m == InterpolationMethod::Linear,
    {
        InterpolationMethod::Linear
    }
}

/// The eight principal points of the compass.
#[derive(Clone, Copy, Debug, PartialEq, Eq, Hash, Structural)]
pub enum CardinalPoint {
    /// North, 0°.
    N,
    /// North-east, 45°.
    NE,
    /// East, 90°.
    E,
    /// South-east, 135°.
    SE,
    /// South, 180°.
    S,
    /// South-west, 225°.
    SW,
    /// West, 270°.
    W,
    /// North-west, 315°.
    NW,
}

/// Direction of a point, whole degrees.
pub open spec fn point_degrees(p: CardinalPoint) -> int {
    match p {
        CardinalPoint::N => 0,
        CardinalPoint::NE => 45,
        CardinalPoint::E => 90,
        CardinalPoint::SE => 135,
        CardinalPoint::S => 180,
        CardinalPoint::SW => 225,
        CardinalPoint::W => 270,
        CardinalPoint::NW => 315,
    }
}

impl CardinalPoint {
    /// Direction of the point, whole degrees.
    pub fn whole_degrees(&self) -> (r: i32)
        ensures
            r == point_degrees(*self),
    {
        match self {
            CardinalPoint::N => 0,
            CardinalPoint::NE => 45,
            CardinalPoint::E => 90,
            CardinalPoint::SE => 135,
            CardinalPoint::S => 180,
            CardinalPoint::SW => 225,
            CardinalPoint::W => 270,
            CardinalPoint::NW => 315,
        }
    }
}

} // verus!
