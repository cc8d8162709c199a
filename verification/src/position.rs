//! Latitude, longitude and position, in nanodegrees.
use vstd::prelude::*;

use crate::error::KernelError;

verus! {

/// Nanodegrees in a degree.
pub const NANODEGREES_PER_DEGREE: i64 = 1_000_000_000;

/// Latitude of a pole, nanodegrees.
pub const POLE: i64 = 90_000_000_000;

/// Longitude of the antimeridian, nanodegrees.
pub const ANTIMERIDIAN: i64 = 180_000_000_000;

/// Latitude in `[-90°, 90°]`, north positive.
#[derive(Clone, Copy, Debug, PartialEq, Eq, Hash, Structural)]
pub struct Latitude {
    nanodegrees: i64,
}

impl View for Latitude {
    type V = int;

    closed spec fn view(&self) -> int {
        self.nanodegrees as int
    }
}

impl Latitude {
    #[verifier::type_invariant]
    closed spec fn on_earth(&self) -> bool {
        -POLE <= self.nanodegrees <= POLE
    }

    /// Latitude of `nanodegrees`.
    ///
    /// # Errors
    ///
    /// [`KernelError::OutOfRange`] beyond a pole.
    pub fn new(nanodegrees: i64) -> (r: Result<Latitude, KernelError>)
        ensures
            match r {
                Ok(l) => l@ == nanodegrees && -POLE <= nanodegrees <= POLE,
                Err(e) => (nanodegrees < -POLE || nanodegrees > POLE) && e is OutOfRange,
            },
    {
        if nanodegrees < -POLE || nanodegrees > POLE {
            Err(KernelError::OutOfRange { parameter: "latitude", value: nanodegrees, min: -POLE, max: POLE })
        } else {
            Ok(Latitude { nanodegrees })
        }
    }

    /// Latitude in nanodegrees.
    pub fn nanodegrees(&self) -> (r: i64)
        ensures
            r == self@,
            -POLE <= r <= POLE,
    {
        proof {
            use_type_invariant(self);
        }
        self.nanodegrees
    }
}

/// Longitude in `[-180°, 180°]`, east positive.
#[derive(Clone, Copy, Debug, PartialEq, Eq, Hash, Structural)]
pub struct Longitude {
    nanodegrees: i64,
}

impl View for Longitude {
    type V = int;

    closed spec fn view(&self) -> int {
        self.nanodegrees as int
    }
}

impl Longitude {
    #[verifier::type_invariant]
    closed spec fn on_earth(&self) -> bool {
        -ANTIMERIDIAN <= self.nanodegrees <= ANTIMERIDIAN
    }

    /// Longitude of `nanodegrees`.
    ///
    /// # Errors
    ///
    /// [`KernelError::OutOfRange`] beyond the antimeridian.
    pub fn new(nanodegrees: i64) -> (r: Result<Longitude, KernelError>)
        ensures
            match r {
                Ok(l) => l@ == nanodegrees && -ANTIMERIDIAN <= nanodegrees <= ANTIMERIDIAN,
                Err(e) => (nanodegrees < -ANTIMERIDIAN || nanodegrees > ANTIMERIDIAN)
                    && e is OutOfRange,
            },
    {
        if nanodegrees < -ANTIMERIDIAN || nanodegrees > ANTIMERIDIAN {
            Err(KernelError::OutOfRange {
                parameter: "longitude",
                value: nanodegrees,
                min: -ANTIMERIDIAN,
                max: ANTIMERIDIAN,
            })
        } else {
            Ok(Longitude { nanodegrees })
        }
    }

    /// Longitude in nanodegrees.
    pub fn nanodegrees(&self) -> (r: i64)
        ensures
            r == self@,
            -ANTIMERIDIAN <= r <= ANTIMERIDIAN,
    {
        proof {
            use_type_invariant(self);
        }
        self.nanodegrees
    }
}

/// A position on the Earth.
#[derive(Clone, Copy, Debug, PartialEq, Eq, Hash, Structural)]
pub struct Position {
    pub latitude: Latitude,
    pub longitude: Longitude,
}

impl Position {
    /// Position from latitude and longitude.
    pub fn new(latitude: Latitude, longitude: Longitude) -> (p: Position)
        ensures
            p.latitude == latitude,
            p.longitude == longitude,
    {
        Position { latitude, longitude }
    }

    /// Position from latitude and longitude in nanodegrees.
    ///
    /// # Errors
    ///
    /// [`KernelError::OutOfRange`] for a latitude beyond a pole or a longitude
    /// beyond the antimeridian.
    pub fn from_nanodegrees(latitude: i64, longitude: i64) -> (r: Result<Position, KernelError>)
        ensures
            match r {
                Ok(p) => p.latitude@ == latitude && p.longitude@ == longitude,
                Err(e) => (latitude < -POLE || latitude > POLE || longitude < -ANTIMERIDIAN
                    || longitude > ANTIMERIDIAN) && e is OutOfRange,
            },
    {
        let latitude = Latitude::new(latitude)?;
        let longitude = Longitude::new(longitude)?;
        Ok(Position { latitude, longitude })
    }
}

} // verus!
