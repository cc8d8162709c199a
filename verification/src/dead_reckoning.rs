//! Dead reckoning: leeway, passage time and speed required.
//!
//! A *DR* position uses course steered and distance run only; an *EP* also
//! allows for current and leeway. The rhumb-line and current-triangle
//! computations are spherical and run outside the library; here are the
//! exact parts: distance run, the water track after leeway, and the time and
//! speed of a passage.
use vstd::prelude::*;

use crate::error::{KernelError, NavigationError};
use crate::position::Position;
use crate::snapshot::GroundTrack;
use crate::time::Duration;
use crate::units::{wrap180_spec, wrap360_spec, Angle, Distance, Speed, TrueCourse, FULL_CIRCLE,
    HALF_CIRCLE, NANOS_PER_HOUR};

verus! {

/// One leg of a traverse.
#[derive(Clone, Copy, Debug, PartialEq, Eq)]
pub struct Leg {
    /// Course made good.
    pub course: TrueCourse,
    /// Distance run.
    pub distance: Distance,
}

/// Estimated position with its ground track.
#[derive(Clone, Copy, Debug, PartialEq, Eq)]
pub struct EstimatedPosition {
    /// Estimated position.
    pub position: Position,
    /// Course and speed made good.
    pub track: GroundTrack,
    /// Distance made good.
    pub distance_made_good: Distance,
}

/// Magnitude of an angle.
pub open spec fn magnitude(x: int) -> int {
    if x >= 0 {
        x
    } else {
        -x
    }
}

/// Water track after leeway: the heading set away from the wind by the
/// magnitude of the leeway, to port with the wind on the starboard side
/// (positive relative bearing) and to starboard otherwise.
pub open spec fn water_track_spec(heading: int, leeway: int, wind_from: int) -> int {
    let relative = wrap180_spec(wind_from - heading);
    let applied = if relative > 0 {
        -magnitude(leeway)
    } else {
        magnitude(leeway)
    };
    wrap360_spec(heading + applied)
}

/// Water track after leeway.
///
/// Leeway sets the ship to leeward of the heading: to starboard with the wind
/// on the port side and vice versa. `leeway` is the observed leeway angle; its
/// sign is ignored.
pub fn water_track(heading: TrueCourse, leeway: Angle, wind_from: TrueCourse) -> (r: TrueCourse)
    ensures
        r@ == water_track_spec(heading@, leeway@, wind_from@),
{
    let relative = heading.signed_difference(wind_from);
    let h = heading.microdegrees() as i128;
    let l = leeway.microdegrees as i128;
    let magnitude: i128 = if l >= 0 {
        l
    } else {
        -l
    };
    let applied: i128 = if relative > 0 {
        -magnitude
    } else {
        magnitude
    };
    let sum = h + applied;
    let reduced = sum % (FULL_CIRCLE as i128);
    let reduced = if reduced < 0 {
        reduced + FULL_CIRCLE as i128
    } else {
        reduced
    };
    proof {
        assert(reduced == wrap360_spec(h + applied));
    }
    TrueCourse::from_wrapped(reduced as i64)
}

/// Passage time of `distance` at `speed`, nanoseconds, truncated.
pub open spec fn passage_nanos(distance: int, speed: int) -> int {
    (distance * NANOS_PER_HOUR) / speed
}

/// Whether a passage is possible: a speed of the distance's sign, or no
/// distance at a non-zero speed.
pub open spec fn passage_possible(distance: int, speed: int) -> bool {
    (speed > 0 && distance >= 0) || (speed < 0 && distance <= 0)
}

/// Passage time at `speed`, truncated to whole nanoseconds.
///
/// # Errors
///
/// - [`KernelError::Indeterminate`] for zero speed, or a speed of the other
///   sign than the distance.
/// - [`KernelError::OutOfRange`] if the time does not fit in a [`Duration`].
pub fn passage_time(distance: Distance, speed: Speed) -> (r: Result<Duration, NavigationError>)
    ensures
        match r {
            Ok(t) => passage_possible(distance@, speed@) && t@ == passage_nanos(
                magnitude(distance@),
                magnitude(speed@),
            ),
            Err(e) => !passage_possible(distance@, speed@) && e == NavigationError::Kernel(
                KernelError::Indeterminate { quantity: "the time to cover a distance" },
            ) || passage_possible(distance@, speed@) && passage_nanos(
                magnitude(distance@),
                magnitude(speed@),
            ) > u64::MAX && e matches NavigationError::Kernel(KernelError::OutOfRange { .. }),
        },
{
    let d = distance.millimetres as i128;
    let v = speed.millimetres_per_hour as i128;
    if !((v > 0 && d >= 0) || (v < 0 && d <= 0)) {
        return Err(
            NavigationError::Kernel(
                KernelError::Indeterminate { quantity: "the time to cover a distance" },
            ),
        );
    }
    let d_abs: u128 = if d >= 0 {
        d as u128
    } else {
        (-d) as u128
    };
    let v_abs: u128 = if v >= 0 {
        v as u128
    } else {
        (-v) as u128
    };
    proof {
        assert(d_abs * (NANOS_PER_HOUR as u128) <= 0x8000_0000_0000_0000 * 3_600_000_000_000)
            by (nonlinear_arith)
            requires
                d_abs <= 0x8000_0000_0000_0000,
        ;
    }
    let nanos = (d_abs * (NANOS_PER_HOUR as u128)) / v_abs;
    if nanos > u64::MAX as u128 {
        return Err(
            NavigationError::Kernel(
                KernelError::OutOfRange {
                    parameter: "passage time",
                    value: distance.millimetres,
                    min: 0,
                    max: i64::MAX,
                },
            ),
        );
    }
    Ok(Duration { nanos: nanos as u64 })
}

/// Speed covering `distance` in `nanos`, millimetres per hour, truncated
/// towards zero.
pub open spec fn required_speed(distance: int, nanos: int) -> int {
    let magnitude = (magnitude(distance) * NANOS_PER_HOUR) / nanos;
    if distance >= 0 {
        magnitude
    } else {
        -magnitude
    }
}

/// Speed required to cover `distance` in `available`, truncated towards zero.
///
/// # Errors
///
/// - [`KernelError::Indeterminate`] for zero time.
/// - [`KernelError::OutOfRange`] if the speed does not fit in a [`Speed`].
pub fn speed_required(distance: Distance, available: Duration) -> (r: Result<Speed, NavigationError>)
    ensures
        match r {
            Ok(v) => available@ > 0 && v@ == required_speed(distance@, available@),
            Err(e) => available@ == 0 && e == NavigationError::Kernel(
                KernelError::Indeterminate { quantity: "the speed required in no time at all" },
            ) || available@ > 0 && magnitude(required_speed(distance@, available@)) > i64::MAX
                && e matches NavigationError::Kernel(KernelError::OutOfRange { .. }),
        },
{
    if available.nanos == 0 {
        return Err(
            NavigationError::Kernel(
                KernelError::Indeterminate { quantity: "the speed required in no time at all" },
            ),
        );
    }
    let d = distance.millimetres as i128;
    let d_abs: u128 = if d >= 0 {
        d as u128
    } else {
        (-d) as u128
    };
    proof {
        assert(d_abs * (NANOS_PER_HOUR as u128) <= 0x8000_0000_0000_0000 * 3_600_000_000_000)
            by (nonlinear_arith)
            requires
                d_abs <= 0x8000_0000_0000_0000,
        ;
    }
    let speed = (d_abs * (NANOS_PER_HOUR as u128)) / (available.nanos as u128);
    if speed > i64::MAX as u128 {
        return Err(
            NavigationError::Kernel(
                KernelError::OutOfRange {
                    parameter: "speed required",
                    value: distance.millimetres,
                    min: i64::MIN,
                    max: i64::MAX,
                },
            ),
        );
    }
    let s = speed as i64;
    Ok(Speed { millimetres_per_hour: if d >= 0 { s } else { -s } })
}

/// Passage time and speed required are inverses: the speed required to run a
/// distance in the passage time at a speed is that speed, whenever the
/// passage time comes out in whole nanoseconds.
pub proof fn lemma_passage_time_and_speed_required_are_inverses(distance: int, speed: int)
    requires
        distance > 0,
        speed > 0,
        (distance * NANOS_PER_HOUR) % speed == 0,
    ensures
        passage_nanos(distance, speed) > 0,
        required_speed(distance, passage_nanos(distance, speed)) == speed,
{
    let product = distance * NANOS_PER_HOUR;
    let t = product / speed;
    assert(product == speed * t) by (nonlinear_arith)
        requires
            product % speed == 0,
            t == product / speed,
            speed > 0,
    ;
    assert(t > 0) by (nonlinear_arith)
        requires
            product == speed * t,
            product > 0,
            speed > 0,
    ;
    assert(product / t == speed) by (nonlinear_arith)
        requires
            product == speed * t,
            t > 0,
    ;
}

/// Two angles a whole number of turns apart reduce alike.
proof fn lemma_same_turn(x: int, y: int, q: int)
    requires
        x == y + q * FULL_CIRCLE,
    ensures
        x % (FULL_CIRCLE as int) == y % (FULL_CIRCLE as int),
{
    let n = FULL_CIRCLE as int;
    vstd::arithmetic::div_mod::lemma_fundamental_div_mod(y, n);
    let r = y % n;
    assert(x == (y / n + q) * n + r);
    vstd::arithmetic::div_mod::lemma_fundamental_div_mod_converse_mod(x, n, y / n + q, r);
}

/// An angle reduced into `[0°, 360°)` is a whole number of turns from it.
proof fn lemma_wrap_is_whole_turns(x: int)
    ensures
        x == wrap360_spec(x) + (x / (FULL_CIRCLE as int)) * FULL_CIRCLE,
{
    let n = FULL_CIRCLE as int;
    vstd::arithmetic::div_mod::lemma_fundamental_div_mod(x, n);
    assert(x == wrap360_spec(x) + (x / n) * FULL_CIRCLE);
}

/// Leeway depends on the wind only through its bearing relative to the
/// heading: turning the heading and the wind together by any angle turns the
/// water track by that angle.
pub proof fn law_water_track_turns_with_the_ship(heading: int, leeway: int, wind_from: int, turn: int)
    ensures
        water_track_spec(wrap360_spec(heading + turn), leeway, wrap360_spec(wind_from + turn))
            == wrap360_spec(water_track_spec(heading, leeway, wind_from) + turn),
{
    let n = FULL_CIRCLE as int;
    let h = wrap360_spec(heading + turn);
    let w = wrap360_spec(wind_from + turn);
    lemma_wrap_is_whole_turns(heading + turn);
    lemma_wrap_is_whole_turns(wind_from + turn);
    let qh = (heading + turn) / n;
    let qw = (wind_from + turn) / n;
    // The relative bearing is the same.
    lemma_same_turn((w - h) + HALF_CIRCLE, (wind_from - heading) + HALF_CIRCLE, qh - qw);
    assert(wrap180_spec(w - h) == wrap180_spec(wind_from - heading));
    let applied = if wrap180_spec(wind_from - heading) > 0 {
        -magnitude(leeway)
    } else {
        magnitude(leeway)
    };
    // Both sides are the heading turned and set by the same amount.
    let before = heading + applied;
    lemma_wrap_is_whole_turns(before);
    let qb = before / n;
    lemma_same_turn(h + applied, wrap360_spec(before) + turn, qb - qh);
}

/// With the wind on the starboard side (from a bearing strictly between 0°
/// and 180° relative to the heading) the ship is set to port: the water track
/// is the heading less the leeway's magnitude. With the wind on the port side
/// (strictly between 180° and 360°) it is set to starboard. The sign of the
/// leeway angle does not matter.
pub proof fn law_leeway_sets_the_ship_to_leeward(heading: int, leeway: int, wind_from: int)
    ensures
        0 < wrap360_spec(wind_from - heading) < HALF_CIRCLE ==> water_track_spec(heading, leeway, wind_from)
            == wrap360_spec(heading - magnitude(leeway)),
        HALF_CIRCLE < wrap360_spec(wind_from - heading) ==> water_track_spec(heading, leeway, wind_from)
            == wrap360_spec(heading + magnitude(leeway)),
        water_track_spec(heading, -leeway, wind_from) == water_track_spec(heading, leeway, wind_from),
{
    let x = wind_from - heading;
    let n = FULL_CIRCLE as int;
    vstd::arithmetic::div_mod::lemma_fundamental_div_mod(x, n);
    let r = wrap360_spec(x);
    if r < HALF_CIRCLE {
        lemma_same_turn(x + HALF_CIRCLE, r + HALF_CIRCLE, x / n);
        assert(wrap180_spec(x) == r);
    } else {
        lemma_same_turn(x + HALF_CIRCLE, r - HALF_CIRCLE, x / n + 1);
        assert(wrap180_spec(x) == r - FULL_CIRCLE);
    }
}

/// Time is distance over speed: the passage time is the whole number of
/// nanoseconds whose run at the speed covers no more than the distance, one
/// more nanosecond covering more; a longer distance never takes less time and
/// a greater speed never more. Likewise the speed required is the whole
/// number of millimetres per hour that in the time available covers no more
/// than the distance, one more covering more.
pub proof fn law_time_is_distance_over_speed(distance: int, longer: int, speed: int, faster: int, nanos: int)
    requires
        0 <= distance <= longer,
        0 < speed <= faster,
        0 < nanos,
    ensures
        passage_nanos(distance, speed) * speed <= distance * NANOS_PER_HOUR < (passage_nanos(distance, speed)
            + 1) * speed,
        passage_nanos(distance, speed) <= passage_nanos(longer, speed),
        passage_nanos(distance, faster) <= passage_nanos(distance, speed),
        required_speed(distance, nanos) * nanos <= distance * NANOS_PER_HOUR < (required_speed(
            distance,
            nanos,
        ) + 1) * nanos,
{
    let h = NANOS_PER_HOUR as int;
    let x = distance * h;
    vstd::arithmetic::div_mod::lemma_fundamental_div_mod(x, speed);
    let t = x / speed;
    assert(t * speed <= x < (t + 1) * speed) by (nonlinear_arith)
        requires
            x == speed * t + x % speed,
            0 <= x % speed < speed,
    ;
    assert(0 <= x <= longer * h) by (nonlinear_arith)
        requires
            0 <= distance <= longer,
            x == distance * h,
            h > 0,
    ;
    vstd::arithmetic::div_mod::lemma_div_is_ordered(x, longer * h, speed);
    vstd::arithmetic::div_mod::lemma_div_is_ordered_by_denominator(x, speed, faster);
    vstd::arithmetic::div_mod::lemma_fundamental_div_mod(x, nanos);
    let s = x / nanos;
    assert(s * nanos <= x < (s + 1) * nanos) by (nonlinear_arith)
        requires
            x == nanos * s + x % nanos,
            0 <= x % nanos < nanos,
    ;
}

} // verus!
