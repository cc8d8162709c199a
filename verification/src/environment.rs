//! Environment: current, wind and tide resolved at one place and time.
use vstd::prelude::*;

use crate::error::KernelError;
use crate::position::Position;
use crate::time::Instant;
use crate::units::{Speed, TrueCourse};
use crate::units::Distance;

verus! {

/// Tidal stream or ocean current: the direction it sets towards and its rate.
#[derive(Clone, Copy, Debug, PartialEq, Eq)]
pub struct Current {
    /// Direction the water moves towards.
    pub set: TrueCourse,
    /// Rate.
    pub drift: Speed,
}

/// Wind: the direction it blows from and its speed, never negative.
#[derive(Clone, Copy, Debug, PartialEq, Eq)]
pub struct Wind {
    from: TrueCourse,
    speed: Speed,
}

impl Wind {
    #[verifier::type_invariant]
    closed spec fn not_negative(&self) -> bool {
        self.speed@ >= 0
    }

    /// Direction the wind blows from.
    pub closed spec fn spec_from(self) -> TrueCourse {
        self.from
    }

    /// Wind speed.
    pub closed spec fn spec_speed(self) -> Speed {
        self.speed
    }

    /// Wind from `from` at `speed`.
    ///
    /// # Errors
    ///
    /// [`KernelError::OutOfRange`] for a negative speed.
    pub fn new(from: TrueCourse, speed: Speed) -> (r: Result<Wind, KernelError>)
        ensures
            match r {
                Ok(w) => speed@ >= 0 && w.spec_from() == from && w.spec_speed() == speed,
                Err(e) => speed@ < 0 && e is OutOfRange,
            },
    {
        if speed.millimetres_per_hour < 0 {
            Err(KernelError::OutOfRange {
                parameter: "wind speed",
                value: speed.millimetres_per_hour,
                min: 0,
                max: i64::MAX,
            })
        } else {
            Ok(Wind { from, speed })
        }
    }

    /// No wind.
    pub fn calm() -> (w: Wind)
        ensures
            w.spec_from()@ == 0,
            w.spec_speed()@ == 0,
    {
        Wind { from: TrueCourse::north(), speed: Speed { millimetres_per_hour: 0 } }
    }

    /// Direction the wind blows from.
    pub fn from(&self) -> (r: TrueCourse)
        ensures
            r == self.spec_from(),
    {
        self.from
    }

    /// Wind speed.
    pub fn speed(&self) -> (r: Speed)
        ensures
            r == self.spec_speed(),
            r@ >= 0,
    {
        proof {
            use_type_invariant(self);
        }
        self.speed
    }
}

/// Heading and speed through the water.
#[derive(Clone, Copy, Debug, PartialEq, Eq)]
pub struct VesselMotion {
    /// Heading.
    pub heading: TrueCourse,
    /// Speed through the water.
    pub speed: Speed,
}

impl VesselMotion {
    /// Motion on `heading` at `speed`.
    pub fn new(heading: TrueCourse, speed: Speed) -> (m: VesselMotion)
        ensures
            m.heading == heading,
            m.speed == speed,
    {
        VesselMotion { heading, speed }
    }
}

/// Environment resolved at one place and time; components not resolved are
/// absent.
#[derive(Clone, Copy, Debug, PartialEq, Eq)]
pub struct EnvironmentSample {
    /// Where.
    pub position: Position,
    /// When.
    pub when: Instant,
    /// Height of tide above chart datum.
    pub tide: Option<Distance>,
    /// Current.
    pub current: Option<Current>,
    /// Wind.
    pub wind: Option<Wind>,
}

impl EnvironmentSample {
    /// Nothing resolved yet, at `position` and `when`.
    pub fn at(position: Position, when: Instant) -> (s: EnvironmentSample)
        ensures
            s == (EnvironmentSample { position, when, tide: None, current: None, wind: None }),
    {
        EnvironmentSample { position, when, tide: None, current: None, wind: None }
    }

    /// With a height of tide.
    pub fn with_tide(self, tide: Distance) -> (s: EnvironmentSample)
        ensures
            s == (EnvironmentSample { tide: Some(tide), ..self }),
    {
        EnvironmentSample { tide: Some(tide), ..self }
    }

    /// With a current.
    pub fn with_current(self, current: Current) -> (s: EnvironmentSample)
        ensures
            s == (EnvironmentSample { current: Some(current), ..self }),
    {
        EnvironmentSample { current: Some(current), ..self }
    }

    /// With a wind.
    pub fn with_wind(self, wind: Wind) -> (s: EnvironmentSample)
        ensures
            s == (EnvironmentSample { wind: Some(wind), ..self }),
    {
        EnvironmentSample { wind: Some(wind), ..self }
    }

    /// Height of tide, if resolved.
    pub fn tide(&self) -> (r: Option<Distance>)
        ensures
            r == self.tide,
    {
        self.tide
    }

    /// Time of the sample.
    pub fn when(&self) -> (r: Instant)
        ensures
            r == self.when,
    {
        self.when
    }
}

} // verus!
