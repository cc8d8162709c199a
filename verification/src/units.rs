//! Quantities in exact fixed-point units.
//!
//! Lengths are whole millimetres, speeds whole millimetres per hour (a knot is
//! exactly 1 852 000 of them), angles whole microdegrees. Arithmetic on them is
//! exact integer arithmetic, so sums and comparisons carry no rounding.
use vstd::prelude::*;

use crate::error::KernelError;
use crate::time::Duration;

verus! {

/// Millimetres in a metre.
pub const MILLIMETRES_PER_METRE: i64 = 1_000;

/// Millimetres in a nautical mile (1852 m by definition).
pub const MILLIMETRES_PER_NAUTICAL_MILE: i64 = 1_852_000;

/// Millimetres in a cable (a tenth of a nautical mile).
pub const MILLIMETRES_PER_CABLE: i64 = 185_200;

/// Largest magnitude of a length that enters the clearance and guidance
/// computations: a thousand million kilometres. It is what keeps their
/// sums and products inside `i64`: a clearance adds and subtracts five such
/// lengths, one of them up to ten draughts, and a route sums up to 128 legs
/// (`128 × 10¹⁵ < 2⁶³`). Lengths that are only stored or compared are
/// accepted up to what a [`Distance`] holds.
pub const MAX_LENGTH_MM: i64 = 1_000_000_000_000_000;

/// Largest magnitude of a speed accepted by validating constructors: one
/// million knots, in millimetres per hour.
pub const MAX_SPEED_MM_PER_HOUR: i64 = 1_852_000_000_000;

/// Nanoseconds in an hour.
pub const NANOS_PER_HOUR: i64 = 3_600_000_000_000;

/// Microdegrees in a full circle.
pub const FULL_CIRCLE: i64 = 360_000_000;

/// Microdegrees in half a circle.
pub const HALF_CIRCLE: i64 = 180_000_000;

/// Microdegrees in a degree.
pub const MICRODEGREES_PER_DEGREE: i64 = 1_000_000;

/// Largest deviation magnitude, microdegrees.
pub const MAX_DEVIATION: i64 = 180_000_000;

/// Largest variation magnitude, microdegrees.
pub const MAX_VARIATION: i64 = 180_000_000;

/// Truncating division, as Rust's `/` on signed integers.
pub open spec fn div_trunc(a: int, b: int) -> int
    recommends
        b > 0,
{
    if a >= 0 {
        a / b
    } else {
        -((-a) / b)
    }
}

/// `x` reduced into `[0, 360°)`.
pub open spec fn wrap360_spec(x: int) -> int {
    x % (FULL_CIRCLE as int)
}

/// `x` reduced into `[-180°, 180°)`.
pub open spec fn wrap180_spec(x: int) -> int {
    (x + HALF_CIRCLE) % (FULL_CIRCLE as int) - HALF_CIRCLE
}

/// Angle reduced into `[0°, 360°)`, microdegrees.
pub fn wrap360(x: i64) -> (r: i64)
    ensures
        r == wrap360_spec(x as int),
        0 <= r < FULL_CIRCLE,
{
    let r = x % FULL_CIRCLE;
    if r < 0 {
        r + FULL_CIRCLE
    } else {
        r
    }
}

/// Angle reduced into `[-180°, 180°)`, microdegrees.
pub fn wrap180(x: i64) -> (r: i64)
    ensures
        r == wrap180_spec(x as int),
        -HALF_CIRCLE <= r < HALF_CIRCLE,
{
    let shifted = (x as i128) + (HALF_CIRCLE as i128);
    let m = shifted % (FULL_CIRCLE as i128);
    let m = if m < 0 {
        m + FULL_CIRCLE as i128
    } else {
        m
    };
    (m - HALF_CIRCLE as i128) as i64
}

/// A length, signed: negative for a shortfall or a drying height.
#[derive(Clone, Copy, Debug, PartialEq, Eq, Structural)]
pub struct Distance {
    /// Length in millimetres.
    pub millimetres: i64,
}

impl View for Distance {
    type V = int;

    open spec fn view(&self) -> int {
        self.millimetres as int
    }
}

impl Distance {
    /// Zero length.
    pub fn zero() -> (d: Distance)
        ensures
            d@ == 0,
    {
        Distance { millimetres: 0 }
    }

    /// Length of `millimetres`.
    pub fn from_millimetres(millimetres: i64) -> (d: Distance)
        ensures
            d@ == millimetres,
    {
        Distance { millimetres }
    }

    /// Length of whole metres.
    ///
    /// # Errors
    ///
    /// [`KernelError::OutOfRange`] for a length longer than a [`Distance`]
    /// holds.
    pub fn from_metres(metres: i64) -> (r: Result<Distance, KernelError>)
        ensures
            match r {
                Ok(d) => d@ == metres * MILLIMETRES_PER_METRE && i64::MIN <= metres
                    * MILLIMETRES_PER_METRE <= i64::MAX,
                Err(e) => (metres * MILLIMETRES_PER_METRE > i64::MAX || metres
                    * MILLIMETRES_PER_METRE < i64::MIN) && e == KernelError::OutOfRange {
                    parameter: "length",
                    value: metres,
                    min: (-(i64::MAX / MILLIMETRES_PER_METRE)) as i64,
                    max: (i64::MAX / MILLIMETRES_PER_METRE) as i64,
                },
            },
    {
        let mm = (metres as i128) * (MILLIMETRES_PER_METRE as i128);
        if mm > i64::MAX as i128 || mm < i64::MIN as i128 {
            Err(
                KernelError::OutOfRange {
                    parameter: "length",
                    value: metres,
                    min: (-(i64::MAX / MILLIMETRES_PER_METRE)) as i64,
                    max: (i64::MAX / MILLIMETRES_PER_METRE) as i64,
                },
            )
        } else {
            Ok(Distance { millimetres: mm as i64 })
        }
    }

    /// Length of whole nautical miles.
    ///
    /// # Errors
    ///
    /// [`KernelError::OutOfRange`] for a length longer than a [`Distance`]
    /// holds.
    pub fn from_nautical_miles(miles: i64) -> (r: Result<Distance, KernelError>)
        ensures
            match r {
                Ok(d) => d@ == miles * MILLIMETRES_PER_NAUTICAL_MILE && i64::MIN <= miles
                    * MILLIMETRES_PER_NAUTICAL_MILE <= i64::MAX,
                Err(e) => (miles * MILLIMETRES_PER_NAUTICAL_MILE > i64::MAX || miles
                    * MILLIMETRES_PER_NAUTICAL_MILE < i64::MIN) && e == KernelError::OutOfRange {
                    parameter: "length",
                    value: miles,
                    min: (-(i64::MAX / MILLIMETRES_PER_NAUTICAL_MILE)) as i64,
                    max: (i64::MAX / MILLIMETRES_PER_NAUTICAL_MILE) as i64,
                },
            },
    {
        let mm = (miles as i128) * (MILLIMETRES_PER_NAUTICAL_MILE as i128);
        if mm > i64::MAX as i128 || mm < i64::MIN as i128 {
            Err(
                KernelError::OutOfRange {
                    parameter: "length",
                    value: miles,
                    min: (-(i64::MAX / MILLIMETRES_PER_NAUTICAL_MILE)) as i64,
                    max: (i64::MAX / MILLIMETRES_PER_NAUTICAL_MILE) as i64,
                },
            )
        } else {
            Ok(Distance { millimetres: mm as i64 })
        }
    }

    /// Length of whole cables (tenths of a nautical mile).
    ///
    /// # Errors
    ///
    /// [`KernelError::OutOfRange`] for a length longer than a [`Distance`]
    /// holds.
    pub fn from_cables(cables: i64) -> (r: Result<Distance, KernelError>)
        ensures
            match r {
                Ok(d) => d@ == cables * MILLIMETRES_PER_CABLE && i64::MIN <= cables
                    * MILLIMETRES_PER_CABLE <= i64::MAX,
                Err(e) => (cables * MILLIMETRES_PER_CABLE > i64::MAX || cables
                    * MILLIMETRES_PER_CABLE < i64::MIN) && e == KernelError::OutOfRange {
                    parameter: "length",
                    value: cables,
                    min: (-(i64::MAX / MILLIMETRES_PER_CABLE)) as i64,
                    max: (i64::MAX / MILLIMETRES_PER_CABLE) as i64,
                },
            },
    {
        let mm = (cables as i128) * (MILLIMETRES_PER_CABLE as i128);
        if mm > i64::MAX as i128 || mm < i64::MIN as i128 {
            Err(
                KernelError::OutOfRange {
                    parameter: "length",
                    value: cables,
                    min: (-(i64::MAX / MILLIMETRES_PER_CABLE)) as i64,
                    max: (i64::MAX / MILLIMETRES_PER_CABLE) as i64,
                },
            )
        } else {
            Ok(Distance { millimetres: mm as i64 })
        }
    }

    /// Length in millimetres.
    pub fn millimetres(&self) -> (r: i64)
        ensures
            r == self@,
    {
        self.millimetres
    }

    /// Sum of two lengths.
    pub fn plus(self, other: Distance) -> (r: Distance)
        requires
            i64::MIN <= self@ + other@ <= i64::MAX,
        ensures
            r@ == self@ + other@,
    {
        Distance { millimetres: self.millimetres + other.millimetres }
    }

    /// Difference of two lengths.
    pub fn minus(self, other: Distance) -> (r: Distance)
        requires
            i64::MIN <= self@ - other@ <= i64::MAX,
        ensures
            r@ == self@ - other@,
    {
        Distance { millimetres: self.millimetres - other.millimetres }
    }

    /// Whether the length is negative.
    pub fn is_negative(&self) -> (r: bool)
        ensures
            r == (self@ < 0),
    {
        self.millimetres < 0
    }
}

/// A speed, signed: negative for sternway.
#[derive(Clone, Copy, Debug, PartialEq, Eq, Structural)]
pub struct Speed {
    /// Speed in millimetres per hour.
    pub millimetres_per_hour: i64,
}

impl View for Speed {
    type V = int;

    open spec fn view(&self) -> int {
        self.millimetres_per_hour as int
    }
}

/// Distance run in `nanos` at `speed` millimetres per hour, truncated to
/// whole millimetres.
pub open spec fn distance_run(speed: int, nanos: int) -> int {
    div_trunc(speed * nanos, NANOS_PER_HOUR as int)
}

impl Speed {
    /// Stopped.
    pub fn zero() -> (s: Speed)
        ensures
            s@ == 0,
    {
        Speed { millimetres_per_hour: 0 }
    }

    /// Speed of `millimetres_per_hour`.
    pub fn from_millimetres_per_hour(millimetres_per_hour: i64) -> (s: Speed)
        ensures
            s@ == millimetres_per_hour,
    {
        Speed { millimetres_per_hour }
    }

    /// Speed of whole knots.
    ///
    /// # Errors
    ///
    /// [`KernelError::OutOfRange`] beyond [`MAX_SPEED_MM_PER_HOUR`].
    pub fn from_knots(knots: i64) -> (r: Result<Speed, KernelError>)
        ensures
            match r {
                Ok(s) => s@ == knots * MILLIMETRES_PER_NAUTICAL_MILE && -MAX_SPEED_MM_PER_HOUR
                    <= knots * MILLIMETRES_PER_NAUTICAL_MILE <= MAX_SPEED_MM_PER_HOUR,
                Err(e) => (knots * MILLIMETRES_PER_NAUTICAL_MILE > MAX_SPEED_MM_PER_HOUR || knots
                    * MILLIMETRES_PER_NAUTICAL_MILE < -MAX_SPEED_MM_PER_HOUR) && e is OutOfRange,
            },
    {
        let v = (knots as i128) * (MILLIMETRES_PER_NAUTICAL_MILE as i128);
        if v > MAX_SPEED_MM_PER_HOUR as i128 || v < -(MAX_SPEED_MM_PER_HOUR as i128) {
            Err(KernelError::OutOfRange { parameter: "speed", value: knots, min: -MAX_SPEED_MM_PER_HOUR / MILLIMETRES_PER_NAUTICAL_MILE, max: MAX_SPEED_MM_PER_HOUR / MILLIMETRES_PER_NAUTICAL_MILE })
        } else {
            Ok(Speed { millimetres_per_hour: v as i64 })
        }
    }

    /// Speed in millimetres per hour.
    pub fn millimetres_per_hour(&self) -> (r: i64)
        ensures
            r == self@,
    {
        self.millimetres_per_hour
    }

    /// Distance run at this speed in `elapsed`, truncated towards zero to whole
    /// millimetres.
    pub fn distance_covered(&self, elapsed: Duration) -> (d: Distance)
        requires
            i64::MIN <= distance_run(self@, elapsed@) <= i64::MAX,
        ensures
            d@ == distance_run(self@, elapsed@),
    {
        let product = (self.millimetres_per_hour as i128) * (elapsed.as_nanos() as i128);
        let mm = if product >= 0 {
            product / (NANOS_PER_HOUR as i128)
        } else {
            -((-product) / (NANOS_PER_HOUR as i128))
        };
        Distance { millimetres: mm as i64 }
    }

    /// Distance run at this speed in `elapsed`, as [`Speed::distance_covered`];
    /// `None` where it is longer than a [`Distance`] holds.
    pub fn checked_distance_covered(&self, elapsed: Duration) -> (d: Option<Distance>)
        ensures
            match d {
                Some(run) => i64::MIN <= distance_run(self@, elapsed@) <= i64::MAX && run@
                    == distance_run(self@, elapsed@),
                None => !(i64::MIN <= distance_run(self@, elapsed@) <= i64::MAX),
            },
    {
        let speed = self.millimetres_per_hour as i128;
        let nanos = elapsed.as_nanos() as i128;
        proof {
            assert(-0x8000_0000_0000_0000 * 0xffff_ffff_ffff_ffff <= speed * nanos
                <= 0x7fff_ffff_ffff_ffff * 0xffff_ffff_ffff_ffff) by (nonlinear_arith)
                requires
                    -0x8000_0000_0000_0000 <= speed <= 0x7fff_ffff_ffff_ffff,
                    0 <= nanos <= 0xffff_ffff_ffff_ffff,
            ;
        }
        let product = speed * nanos;
        let mm = if product >= 0 {
            product / (NANOS_PER_HOUR as i128)
        } else {
            -((-product) / (NANOS_PER_HOUR as i128))
        };
        if mm > i64::MAX as i128 || mm < i64::MIN as i128 {
            None
        } else {
            Some(self.distance_covered(elapsed))
        }
    }
}

/// An angle that is not a direction: leeway, an alteration of course.
#[derive(Clone, Copy, Debug, PartialEq, Eq, Structural)]
pub struct Angle {
    /// Angle in microdegrees.
    pub microdegrees: i64,
}

impl View for Angle {
    type V = int;

    open spec fn view(&self) -> int {
        self.microdegrees as int
    }
}

impl Angle {
    /// Zero angle.
    pub fn zero() -> (a: Angle)
        ensures
            a@ == 0,
    {
        Angle { microdegrees: 0 }
    }

    /// Angle of `microdegrees`.
    pub fn from_microdegrees(microdegrees: i64) -> (a: Angle)
        ensures
            a@ == microdegrees,
    {
        Angle { microdegrees }
    }

    /// Angle of whole degrees, at most a full turn either way.
    ///
    /// # Errors
    ///
    /// [`KernelError::OutOfRange`] beyond ±360°.
    pub fn from_degrees(degrees: i64) -> (r: Result<Angle, KernelError>)
        ensures
            match r {
                Ok(a) => a@ == degrees * MICRODEGREES_PER_DEGREE && -360 <= degrees <= 360,
                Err(e) => (degrees > 360 || degrees < -360) && e is OutOfRange,
            },
    {
        if degrees > 360 || degrees < -360 {
            Err(KernelError::OutOfRange { parameter: "angle", value: degrees, min: -360, max: 360 })
        } else {
            Ok(Angle { microdegrees: degrees * MICRODEGREES_PER_DEGREE })
        }
    }

    /// Angle in microdegrees.
    pub fn microdegrees(&self) -> (r: i64)
        ensures
            r == self@,
    {
        self.microdegrees
    }
}

/// Reference frame of true (geographic) north.
pub const TRUE: u8 = 0;

/// Reference frame of magnetic north.
pub const MAGNETIC: u8 = 1;

/// Reference frame of the ship's compass.
pub const COMPASS: u8 = 2;

/// A direction in `[0°, 360°)` in reference frame `FRAME`; directions of
/// different frames are different types and do not mix.
#[derive(Clone, Copy, Debug, PartialEq, Eq)]
pub struct Direction<const FRAME: u8> {
    microdegrees: i64,
}

/// Course or bearing referred to true north.
pub type TrueCourse = Direction<0>;

/// Bearing referred to true north.
pub type TrueBearing = Direction<0>;

/// Course referred to the compass.
pub type CompassCourse = Direction<2>;

/// Bearing referred to the compass.
pub type CompassBearing = Direction<2>;

/// Course referred to magnetic north.
pub type MagneticCourse = Direction<1>;

impl<const FRAME: u8> View for Direction<FRAME> {
    type V = int;

    closed spec fn view(&self) -> int {
        self.microdegrees as int
    }
}

impl<const FRAME: u8> Direction<FRAME> {
    #[verifier::type_invariant]
    closed spec fn in_circle(&self) -> bool {
        0 <= self.microdegrees < FULL_CIRCLE
    }

    /// Direction of `microdegrees`, accepting `[0°, 360°]` with 360° read as
    /// 0°.
    ///
    /// # Errors
    ///
    /// [`KernelError::OutOfRange`] outside `[0°, 360°]`.
    pub fn new(microdegrees: i64) -> (r: Result<Direction<FRAME>, KernelError>)
        ensures
            match r {
                Ok(d) => 0 <= microdegrees <= FULL_CIRCLE && d@ == (microdegrees as int) % (FULL_CIRCLE as int),
                Err(e) => (microdegrees < 0 || microdegrees > FULL_CIRCLE) && e is OutOfRange,
            },
    {
        if microdegrees < 0 || microdegrees > FULL_CIRCLE {
            Err(KernelError::OutOfRange { parameter: "direction", value: microdegrees, min: 0, max: FULL_CIRCLE })
        } else if microdegrees == FULL_CIRCLE {
            Ok(Direction { microdegrees: 0 })
        } else {
            Ok(Direction { microdegrees })
        }
    }

    /// Direction of whole degrees, accepting `[0°, 360°]` with 360° read as
    /// 0°.
    ///
    /// # Errors
    ///
    /// [`KernelError::OutOfRange`] outside `[0°, 360°]`.
    pub fn from_degrees(degrees: i64) -> (r: Result<Direction<FRAME>, KernelError>)
        ensures
            match r {
                Ok(d) => 0 <= degrees <= 360 && d@ == (degrees * MICRODEGREES_PER_DEGREE)
                    % (FULL_CIRCLE as int),
                Err(e) => (degrees < 0 || degrees > 360) && e is OutOfRange,
            },
    {
        if degrees < 0 || degrees > 360 {
            Err(KernelError::OutOfRange { parameter: "direction", value: degrees, min: 0, max: 360 })
        } else {
            Self::new(degrees * MICRODEGREES_PER_DEGREE)
        }
    }

    /// Any angle reduced into `[0°, 360°)`.
    pub fn from_wrapped(microdegrees: i64) -> (d: Direction<FRAME>)
        ensures
            d@ == wrap360_spec(microdegrees as int),
    {
        Direction { microdegrees: wrap360(microdegrees) }
    }

    /// North.
    pub fn north() -> (d: Direction<FRAME>)
        ensures
            d@ == 0,
    {
        Direction { microdegrees: 0 }
    }

    /// Direction in microdegrees, in `[0, 360°)`.
    pub fn microdegrees(&self) -> (r: i64)
        ensures
            r == self@,
            0 <= r < FULL_CIRCLE,
    {
        proof {
            use_type_invariant(self);
        }
        self.microdegrees
    }

    /// The opposite direction.
    pub fn reciprocal(&self) -> (d: Direction<FRAME>)
        ensures
            d@ == wrap360_spec(self@ + HALF_CIRCLE),
    {
        proof {
            use_type_invariant(self);
        }
        Self::from_wrapped(self.microdegrees + HALF_CIRCLE)
    }

    /// Angle from this direction to `other`, in `[-180°, 180°)`: positive
    /// clockwise.
    pub fn signed_difference(&self, other: Direction<FRAME>) -> (r: i64)
        ensures
            r == wrap180_spec(other@ - self@),
            -HALF_CIRCLE <= r < HALF_CIRCLE,
    {
        proof {
            use_type_invariant(self);
            use_type_invariant(&other);
        }
        wrap180(other.microdegrees - self.microdegrees)
    }
}

/// Signed angle in `[-max, max]` microdegrees: deviation or variation.
pub open spec fn within(x: int, max: int) -> bool {
    -max <= x <= max
}

/// Deviation: compass north's displacement from magnetic north, easterly
/// positive.
#[derive(Clone, Copy, Debug, PartialEq, Eq, Structural)]
pub struct Deviation {
    microdegrees: i64,
}

impl View for Deviation {
    type V = int;

    closed spec fn view(&self) -> int {
        self.microdegrees as int
    }
}

impl Deviation {
    #[verifier::type_invariant]
    closed spec fn bounded(&self) -> bool {
        within(self.microdegrees as int, MAX_DEVIATION as int)
    }

    /// Deviation of `microdegrees`.
    ///
    /// # Errors
    ///
    /// [`KernelError::OutOfRange`] beyond [`MAX_DEVIATION`].
    pub fn new(microdegrees: i64) -> (r: Result<Deviation, KernelError>)
        ensures
            match r {
                Ok(d) => d@ == microdegrees && within(microdegrees as int, MAX_DEVIATION as int),
                Err(e) => !within(microdegrees as int, MAX_DEVIATION as int) && e is OutOfRange,
            },
    {
        if microdegrees < -MAX_DEVIATION || microdegrees > MAX_DEVIATION {
            Err(KernelError::OutOfRange { parameter: "deviation", value: microdegrees, min: -MAX_DEVIATION, max: MAX_DEVIATION })
        } else {
            Ok(Deviation { microdegrees })
        }
    }

    /// No deviation.
    pub fn zero() -> (d: Deviation)
        ensures
            d@ == 0,
    {
        Deviation { microdegrees: 0 }
    }

    /// Deviation in microdegrees.
    pub fn microdegrees(&self) -> (r: i64)
        ensures
            r == self@,
            within(r as int, MAX_DEVIATION as int),
    {
        proof {
            use_type_invariant(self);
        }
        self.microdegrees
    }
}

/// Variation: magnetic north's displacement from true north, easterly
/// positive.
#[derive(Clone, Copy, Debug, PartialEq, Eq, Structural)]
pub struct Variation {
    microdegrees: i64,
}

impl View for Variation {
    type V = int;

    closed spec fn view(&self) -> int {
        self.microdegrees as int
    }
}

impl Variation {
    #[verifier::type_invariant]
    closed spec fn bounded(&self) -> bool {
        within(self.microdegrees as int, MAX_VARIATION as int)
    }

    /// Variation of `microdegrees`.
    ///
    /// # Errors
    ///
    /// [`KernelError::OutOfRange`] beyond [`MAX_VARIATION`].
    pub fn new(microdegrees: i64) -> (r: Result<Variation, KernelError>)
        ensures
            match r {
                Ok(v) => v@ == microdegrees && within(microdegrees as int, MAX_VARIATION as int),
                Err(e) => !within(microdegrees as int, MAX_VARIATION as int) && e is OutOfRange,
            },
    {
        if microdegrees < -MAX_VARIATION || microdegrees > MAX_VARIATION {
            Err(KernelError::OutOfRange { parameter: "variation", value: microdegrees, min: -MAX_VARIATION, max: MAX_VARIATION })
        } else {
            Ok(Variation { microdegrees })
        }
    }

    /// Variation in microdegrees.
    pub fn microdegrees(&self) -> (r: i64)
        ensures
            r == self@,
            within(r as int, MAX_VARIATION as int),
    {
        proof {
            use_type_invariant(self);
        }
        self.microdegrees
    }
}

} // verus!
