//! Swinging the compass: one observation of a known bearing on a compass
//! heading gives the deviation on that heading.
use vstd::prelude::*;

use crate::error::NavigationError;
use crate::units::{
    wrap180, wrap180_spec, CompassBearing, CompassCourse, Deviation, TrueBearing, Variation,
    MICRODEGREES_PER_DEGREE,
};

verus! {

/// One observation of a swing: the compass heading, and a mark's bearing by
/// the compass and from the chart.
#[derive(Clone, Copy, Debug, PartialEq, Eq)]
pub struct SwingObservation {
    /// Ship's heading by the compass.
    pub compass_heading: CompassCourse,
    /// Bearing of the mark by the compass.
    pub observed_bearing: CompassBearing,
    /// True bearing of the mark from the chart.
    pub reference_bearing: TrueBearing,
}

/// Deviation a swing observation gives: true bearing less variation less
/// compass bearing, reduced into `[-180°, 180°)`.
pub open spec fn swing_deviation(observation: SwingObservation, variation: int) -> int {
    wrap180_spec(observation.reference_bearing@ - variation - observation.observed_bearing@)
}

/// A direction in microdegrees, `[0°, 360°)`, rounded to whole degrees, halves
/// away from zero.
pub open spec fn rounded_degrees(microdegrees: int) -> int {
    (microdegrees + MICRODEGREES_PER_DEGREE / 2) / (MICRODEGREES_PER_DEGREE as int)
}

impl SwingObservation {
    /// Deviation on this heading, given the variation at the swing.
    ///
    /// # Errors
    ///
    /// None in practice: the result is reduced into `[-180°, 180°)`, within
    /// the deviation's range.
    pub fn deviation(&self, variation: Variation) -> (r: Result<Deviation, NavigationError>)
        ensures
            r matches Ok(d) && d@ == swing_deviation(*self, variation@),
    {
        let reference = self.reference_bearing.microdegrees();
        let observed = self.observed_bearing.microdegrees();
        let v = variation.microdegrees();
        let wrapped = wrap180(reference - v - observed);
        match Deviation::new(wrapped) {
            Ok(d) => Ok(d),
            Err(e) => Err(NavigationError::Kernel(e)),
        }
    }

    /// Compass heading to the nearest whole degree, in `[0, 360]`.
    pub fn heading_degrees(&self) -> (r: i32)
        ensures
            r == rounded_degrees(self.compass_heading@),
            0 <= r <= 360,
    {
        let h = self.compass_heading.microdegrees();
        ((h + MICRODEGREES_PER_DEGREE / 2) / MICRODEGREES_PER_DEGREE) as i32
    }
}

} // verus!
