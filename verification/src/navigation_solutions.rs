//! Course solutions: the heading that makes a track good.
use vstd::prelude::*;

use crate::units::{Speed, TrueCourse};

verus! {

/// Heading to steer through the water to make a track good against a
/// current, and the speed made good along it.
#[derive(Clone, Copy, Debug, PartialEq, Eq)]
pub struct SteeringSolution {
    /// Heading through the water.
    pub heading: TrueCourse,
    /// Speed made good along the track.
    pub speed_made_good: Speed,
}

} // verus!
