//! Man overboard datum.
//!
//! The alarm fixes a position and time. The casualty then drifts with the full
//! current and with a small fraction of the wind speed, downwind. The *datum*
//! is the drop position carried by both drifts; it centres the search and the
//! return manoeuvre.
//!
//! [`ManOverboard::drifts`] works out, from an [`EnvironmentSample`], how far
//! each drift has carried the casualty and towards where; components missing
//! from the sample are not applied, and the datum says so. The vector sum of
//! the drifts and the great-circle destination are computed by the caller and
//! handed to [`ManOverboard::datum`].
use vstd::prelude::*;

use crate::environment::EnvironmentSample;
use crate::error::{KernelError, NavigationError};
use crate::position::Position;
use crate::time::{Duration, Instant};
use crate::units::{distance_run, Distance, TrueCourse, FULL_CIRCLE, HALF_CIRCLE, wrap360_spec};

verus! {

/// Parts per million in one: the scale of a wind factor.
pub const PARTS_PER_MILLION: i64 = 1_000_000;

/// Time and position of a person entering the water.
#[derive(Clone, Copy, Debug, PartialEq, Eq)]
pub struct ManOverboard {
    position: Position,
    at: Instant,
}

/// One drift: where it carries the casualty towards, and how far.
#[derive(Clone, Copy, Debug, PartialEq, Eq)]
pub struct DriftLeg {
    /// Direction of the drift.
    pub towards: TrueCourse,
    /// Distance drifted.
    pub distance: Distance,
}

/// The drifts acting on a casualty between the alarm and `at`.
#[derive(Clone, Copy, Debug, PartialEq, Eq)]
pub struct MobDrifts {
    /// Time of the datum.
    pub at: Instant,
    /// Time in the water.
    pub elapsed: Duration,
    /// Drift with the current, if a current was resolved and running.
    pub current: Option<DriftLeg>,
    /// Drift with the wind, if a wind was resolved and blowing and the factor
    /// is not zero.
    pub wind: Option<DriftLeg>,
}

/// Direction the wind drives a casualty: away from where it blows from.
pub open spec fn downwind(from: int) -> int {
    wrap360_spec(from + HALF_CIRCLE)
}

/// The wind drives a casualty straight downwind: half a circle from where
/// the wind blows from, and back again.
pub proof fn law_the_wind_drives_downwind(from: int)
    requires
        0 <= from < FULL_CIRCLE,
    ensures
        0 <= downwind(from) < FULL_CIRCLE,
        wrap360_spec(downwind(from) + HALF_CIRCLE) == from,
        downwind(from) != from,
        from < HALF_CIRCLE ==> downwind(from) == from + HALF_CIRCLE,
        from >= HALF_CIRCLE ==> downwind(from) == from - HALF_CIRCLE,
{
}

/// Effective speed of wind drift: `speed` scaled by `factor` parts per
/// million, rounded down.
pub open spec fn wind_drift_speed(speed: int, factor: int) -> int {
    (speed * factor) / (PARTS_PER_MILLION as int)
}

/// Drift distance at `speed` for `elapsed`, if representable.
fn leg_distance(speed: i64, elapsed: Duration) -> (r: Option<Distance>)
    requires
        speed >= 0,
    ensures
        match r {
            Some(d) => d@ == distance_run(speed as int, elapsed@) && distance_run(
                speed as int,
                elapsed@,
            ) <= i64::MAX,
            None => distance_run(speed as int, elapsed@) > i64::MAX,
        },
{
    let s = speed as i128;
    let e = elapsed.as_nanos() as i128;
    assert(0 <= s * e <= (i64::MAX as int) * (u64::MAX as int)) by (nonlinear_arith)
        requires
            0 <= s <= i64::MAX,
            0 <= e <= u64::MAX,
    ;
    let product = s * e;
    let mm = product / 3_600_000_000_000i128;
    if mm > i64::MAX as i128 {
        None
    } else {
        Some(Distance { millimetres: mm as i64 })
    }
}

impl ManOverboard {
    /// Drop position.
    pub closed spec fn spec_position(self) -> Position {
        self.position
    }

    /// Drop time.
    pub closed spec fn spec_at(self) -> Instant {
        self.at
    }

    /// Alarm at the vessel's position when raised.
    pub fn new(position: Position, at: Instant) -> (m: ManOverboard)
        ensures
            m.spec_position() == position,
            m.spec_at() == at,
    {
        ManOverboard { position, at }
    }

    /// Drop position.
    pub fn position(&self) -> (r: Position)
        ensures
            r == self.spec_position(),
    {
        self.position
    }

    /// Drop time.
    pub fn at(&self) -> (r: Instant)
        ensures
            r == self.spec_at(),
    {
        self.at
    }

    /// The drifts at `now`.
    ///
    /// Current in `env` applies at its full rate, towards its set; wind at
    /// `wind_factor` parts per million of its speed, downwind. Typical factors:
    /// about 1 % for a person, a few percent for a liferaft. Zero applies no
    /// wind. A current or wind that is absent or still is not applied.
    ///
    /// # Errors
    ///
    /// - [`KernelError::OutOfRange`] if the factor is outside `[0, 1]`, or a
    ///   drift is too long to represent.
    /// - [`KernelError::TimeReversed`] if `now` precedes the alarm.
    pub fn drifts(&self, env: &EnvironmentSample, now: Instant, wind_factor: i64) -> (r: Result<
        MobDrifts,
        NavigationError,
    >)
        ensures
            ({
                let factor_ok = 0 <= wind_factor <= PARTS_PER_MILLION;
                let in_time = self.spec_at()@ <= now@;
                let elapsed = now@ - self.spec_at()@;
                let current_running = env.current matches Some(c) && c.drift@ > 0;
                let wind_blowing = env.wind matches Some(w) && w.spec_speed()@ > 0 && wind_factor
                    > 0;
                let current_run = distance_run(env.current.unwrap().drift@, elapsed);
                let wind_run = distance_run(
                    wind_drift_speed(env.wind.unwrap().spec_speed()@, wind_factor as int),
                    elapsed,
                );
                let fits = (current_running ==> current_run <= i64::MAX) && (wind_blowing
                    ==> wind_run <= i64::MAX);
                match r {
                    Ok(d) => {
                        &&& factor_ok && in_time && fits
                        &&& d.at == now
                        &&& d.elapsed@ == elapsed
                        &&& d.current == if current_running {
                            Some(
                                DriftLeg {
                                    towards: env.current.unwrap().set,
                                    distance: Distance { millimetres: current_run as i64 },
                                },
                            )
                        } else {
                            None
                        }
                        &&& (d.wind is Some <==> wind_blowing)
                        &&& (d.wind matches Some(leg) ==> leg.towards@ == downwind(
                            env.wind.unwrap().spec_from()@,
                        ) && leg.distance@ == wind_run)
                    },
                    Err(e) => {
                        &&& !(factor_ok && in_time && fits)
                        &&& !factor_ok ==> (e matches NavigationError::Kernel(
                            KernelError::OutOfRange { .. },
                        ))
                        &&& factor_ok && !in_time ==> (e matches NavigationError::Kernel(
                            KernelError::TimeReversed { .. },
                        ))
                        &&& factor_ok && in_time ==> (e matches NavigationError::Kernel(
                            KernelError::OutOfRange { .. },
                        ))
                    },
                }
            }),
    {
        if wind_factor < 0 || wind_factor > PARTS_PER_MILLION {
            return Err(
                NavigationError::Kernel(
                    KernelError::OutOfRange {
                        parameter: "wind factor",
                        value: wind_factor,
                        min: 0,
                        max: PARTS_PER_MILLION,
                    },
                ),
            );
        }
        let elapsed = match now.duration_since(self.at) {
            Ok(d) => d,
            Err(e) => {
                return Err(NavigationError::Kernel(e));
            },
        };
        let too_far = NavigationError::Kernel(
            KernelError::OutOfRange { parameter: "drift", value: i64::MAX, min: 0, max: i64::MAX },
        );
        let current = match env.current {
            Some(c) => {
                if c.drift.millimetres_per_hour > 0 {
                    match leg_distance(c.drift.millimetres_per_hour, elapsed) {
                        Some(distance) => Some(DriftLeg { towards: c.set, distance }),
                        None => {
                            return Err(too_far);
                        },
                    }
                } else {
                    None
                }
            },
            None => None,
        };
        let wind = match env.wind {
            Some(w) => {
                let speed = w.speed().millimetres_per_hour;
                if speed > 0 && wind_factor > 0 {
                    let sp = speed as i128;
                    let wf = wind_factor as i128;
                    assert(0 < sp * wf <= (i64::MAX as int) * (PARTS_PER_MILLION as int)) by (nonlinear_arith)
                        requires
                            0 < sp <= i64::MAX,
                            0 < wf <= PARTS_PER_MILLION,
                    ;
                    let scaled = sp * wf / (PARTS_PER_MILLION as i128);
                    assert(0 <= scaled <= speed) by (nonlinear_arith)
                        requires
                            scaled == (speed * wind_factor) / (PARTS_PER_MILLION as int),
                            0 < speed,
                            0 < wind_factor <= PARTS_PER_MILLION,
                    ;
                    match leg_distance(scaled as i64, elapsed) {
                        Some(distance) => Some(DriftLeg { towards: w.from().reciprocal(), distance }),
                        None => {
                            return Err(too_far);
                        },
                    }
                } else {
                    None
                }
            },
            None => None,
        };
        Ok(MobDrifts { at: now, elapsed, current, wind })
    }

    /// Datum from the drifts. With no leg the casualty has not moved; with
    /// one leg the drift is that leg; with both, `drift` and `set` are their
    /// vector sum, which the caller makes. `destination` is where a great
    /// circle from the drop position on that set reaches after that drift. A
    /// drift that is not positive leaves the datum at the drop position, with
    /// no set.
    pub fn datum(&self, drifts: &MobDrifts, drift: Distance, set: TrueCourse, destination: Position) -> (d:
        MobDatum)
        ensures
            d.spec_at() == drifts.at,
            d.spec_elapsed() == drifts.elapsed,
            d.spec_current_applied() == drifts.current is Some,
            d.spec_wind_applied() == drifts.wind is Some,
            ({
                let (total, towards) = combined_drift(drifts, drift, set);
                &&& total@ > 0 ==> d.spec_drift() == total && d.spec_set() == Some(towards)
                    && d.spec_position() == destination
                &&& total@ <= 0 ==> d.spec_drift()@ == 0 && d.spec_set() is None
                    && d.spec_position() == self.spec_position()
            }),
    {
        let (total, towards) = match (drifts.current, drifts.wind) {
            (None, None) => (Distance { millimetres: 0 }, set),
            (Some(leg), None) => (leg.distance, leg.towards),
            (None, Some(leg)) => (leg.distance, leg.towards),
            (Some(_), Some(_)) => (drift, set),
        };
        let moved = total.millimetres > 0;
        MobDatum {
            at: drifts.at,
            position: if moved {
                destination
            } else {
                self.position
            },
            elapsed: drifts.elapsed,
            drift: if moved {
                total
            } else {
                Distance { millimetres: 0 }
            },
            set: if moved {
                Some(towards)
            } else {
                None
            },
            current_applied: drifts.current.is_some(),
            wind_applied: drifts.wind.is_some(),
        }
    }
}

/// Combined drift and its set: none with no leg, the leg itself with one,
/// the given vector sum `drift` on `set` with both.
pub open spec fn combined_drift(drifts: &MobDrifts, drift: Distance, set: TrueCourse) -> (
    Distance,
    TrueCourse,
) {
    match (drifts.current, drifts.wind) {
        (None, None) => (Distance { millimetres: 0 }, set),
        (Some(leg), None) => (leg.distance, leg.towards),
        (None, Some(leg)) => (leg.distance, leg.towards),
        (Some(_), Some(_)) => (drift, set),
    }
}

/// Datum at one instant, stating which drifts were applied.
#[derive(Clone, Copy, Debug, PartialEq, Eq)]
pub struct MobDatum {
    at: Instant,
    position: Position,
    elapsed: Duration,
    drift: Distance,
    set: Option<TrueCourse>,
    current_applied: bool,
    wind_applied: bool,
}

impl MobDatum {
    /// Time of the datum.
    pub closed spec fn spec_at(self) -> Instant {
        self.at
    }

    /// Datum position.
    pub closed spec fn spec_position(self) -> Position {
        self.position
    }

    /// Time in the water.
    pub closed spec fn spec_elapsed(self) -> Duration {
        self.elapsed
    }

    /// Drift distance.
    pub closed spec fn spec_drift(self) -> Distance {
        self.drift
    }

    /// Drift direction.
    pub closed spec fn spec_set(self) -> Option<TrueCourse> {
        self.set
    }

    /// Whether current was applied.
    pub closed spec fn spec_current_applied(self) -> bool {
        self.current_applied
    }

    /// Whether wind was applied.
    pub closed spec fn spec_wind_applied(self) -> bool {
        self.wind_applied
    }

    /// Time of the datum.
    pub fn at(&self) -> (r: Instant)
        ensures
            r == self.spec_at(),
    {
        self.at
    }

    /// Datum position.
    pub fn position(&self) -> (r: Position)
        ensures
            r == self.spec_position(),
    {
        self.position
    }

    /// Time in the water.
    pub fn elapsed(&self) -> (r: Duration)
        ensures
            r == self.spec_elapsed(),
    {
        self.elapsed
    }

    /// Drift distance from the drop position.
    pub fn drift(&self) -> (r: Distance)
        ensures
            r == self.spec_drift(),
    {
        self.drift
    }

    /// Drift direction; `None` if there was no drift.
    pub fn set(&self) -> (r: Option<TrueCourse>)
        ensures
            r == self.spec_set(),
    {
        self.set
    }

    /// Whether current was present and applied.
    pub fn current_applied(&self) -> (r: bool)
        ensures
            r == self.spec_current_applied(),
    {
        self.current_applied
    }

    /// Whether wind was present and applied with a non-zero factor.
    pub fn wind_applied(&self) -> (r: bool)
        ensures
            r == self.spec_wind_applied(),
    {
        self.wind_applied
    }
}

/// One drift leg alone is the casualty's drift: with exactly one of the
/// current and the wind acting, the datum's drift and set are that leg's
/// distance and direction, whichever leg it is, and the vector sum offered is
/// not used; with neither acting there is no drift.
pub proof fn law_one_drift_is_the_datum(drifts: MobDrifts, drift: Distance, set: TrueCourse)
    ensures
        drifts.wind is None ==> (drifts.current matches Some(leg) ==> combined_drift(&drifts, drift, set)
            == (leg.distance, leg.towards)),
        drifts.current is None ==> (drifts.wind matches Some(leg) ==> combined_drift(&drifts, drift, set)
            == (leg.distance, leg.towards)),
        (drifts.current is None && drifts.wind is None) ==> combined_drift(&drifts, drift, set).0@ == 0,
        (drifts.current is Some && drifts.wind is Some) ==> combined_drift(&drifts, drift, set) == (
            drift,
            set,
        ),
{
}

} // verus!
