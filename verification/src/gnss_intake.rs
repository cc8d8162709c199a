//! Position from a GNSS fix stream.
//!
//! Receivers emit non-fixes, out-of-order fixes, and fixes implying impossible
//! jumps. [`GnssIntake`] keeps the last accepted fix, judges each new one
//! against it using the vessel thresholds in [`IntakeConfig`], and returns
//! [`NavigationEvent`]s in an [`IntakeOutcome`]; no callbacks.
//! [`GnssIntake::snapshot_at`] answers at a caller-chosen instant and decides
//! staleness, which depends on the evaluation time, not the fix.
//!
//! The distance between two fixes is a spherical computation made by the
//! caller; the intake takes it as an argument.
use vstd::prelude::*;

use crate::event::{EventList, NavigationEvent, PositionSource, RejectionReason};
use crate::gnss::GnssFix;
use crate::sailings::Sailing;
use crate::snapshot::{GroundTrack, NavigationSnapshot};
use crate::time::{Duration, Instant};
use crate::units::{div_trunc, Distance, Speed, NANOS_PER_HOUR};

verus! {

/// Intake thresholds: vessel settings.
#[derive(Clone, Copy, Debug, PartialEq, Eq)]
pub struct IntakeConfig {
    /// Maximum age of the last fix before the position is lost.
    pub max_age: Duration,
    /// Maximum plausible speed; a fix requiring more from the last one is
    /// rejected as an implausible jump.
    pub max_speed: Speed,
}

/// State of an intake, as the contracts see it.
#[derive(Clone, Copy, Debug, PartialEq, Eq)]
pub struct IntakeState {
    /// Thresholds.
    pub config: IntakeConfig,
    /// Last accepted fix.
    pub last: Option<GnssFix>,
    /// The accepted fix before it.
    pub previous: Option<GnssFix>,
    /// Whether a position is held: set by an accepted fix, cleared when it
    /// goes stale.
    pub delivering: bool,
}

/// Intake state.
#[derive(Clone, Copy, Debug)]
pub struct GnssIntake {
    config: IntakeConfig,
    last: Option<GnssFix>,
    previous: Option<GnssFix>,
    delivering: bool,
}

impl View for GnssIntake {
    type V = IntakeState;

    closed spec fn view(&self) -> IntakeState {
        IntakeState {
            config: self.config,
            last: self.last,
            previous: self.previous,
            delivering: self.delivering,
        }
    }
}

/// Result of offering a fix.
#[derive(Clone, Debug, PartialEq, Eq)]
pub struct IntakeOutcome {
    /// Whether the fix was accepted.
    pub accepted: bool,
    /// Events in order: loss, then acquisition or rejection.
    pub events: EventList<NavigationEvent>,
}

impl IntakeOutcome {
    /// Whether the fix was accepted.
    pub fn accepted(&self) -> (r: bool)
        ensures
            r == self.accepted,
    {
        self.accepted
    }

    /// Events in order: loss, then acquisition or rejection.
    pub fn events(&self) -> (r: &EventList<NavigationEvent>)
        ensures
            r == &self.events,
    {
        &self.events
    }
}

/// `a / b` rounded to the nearest whole number, halves away from zero.
pub open spec fn div_round(a: int, b: int) -> int
    recommends
        b > 0,
{
    if a >= 0 {
        (2 * a + b) / (2 * b)
    } else {
        -((-2 * a + b) / (2 * b))
    }
}

/// Speed needed to cover `distance` millimetres in `elapsed` nanoseconds, in
/// millimetres per hour, rounded to the nearest and held within the `i64`
/// range.
pub open spec fn implied_speed_spec(distance: int, elapsed: int) -> int {
    let raw = div_round(distance * NANOS_PER_HOUR, elapsed);
    if raw > i64::MAX {
        i64::MAX as int
    } else if raw < i64::MIN {
        i64::MIN as int
    } else {
        raw
    }
}

/// Whether covering `distance` millimetres in `elapsed` nanoseconds takes a
/// speed above `max` millimetres per hour, exactly.
pub open spec fn too_fast(distance: int, elapsed: int, max: int) -> bool {
    elapsed > 0 && distance * NANOS_PER_HOUR > max * elapsed
}

/// The plausibility check is a speed limit: a longer jump in the same time,
/// or the same jump in less time, is no more plausible; a jump made exactly
/// at the limiting speed is plausible; no time at all judges nothing.
pub proof fn law_too_fast_is_a_speed_limit(
    distance: int,
    longer: int,
    elapsed: int,
    sooner: int,
    max: int,
)
    requires
        distance <= longer,
        0 < sooner <= elapsed,
        0 <= max,
        0 <= distance,
    ensures
        too_fast(distance, elapsed, max) ==> too_fast(longer, elapsed, max),
        too_fast(distance, elapsed, max) ==> too_fast(distance, sooner, max),
        distance * NANOS_PER_HOUR == max * elapsed ==> !too_fast(distance, elapsed, max),
        !too_fast(distance, 0, max),
{
    assert(max * sooner <= max * elapsed) by (nonlinear_arith)
        requires
            0 <= max,
            sooner <= elapsed,
    ;
}

/// Speed required between two positions `distance` apart in `elapsed`;
/// `None` for no time at all.
pub fn implied_speed(distance: Distance, elapsed: Duration) -> (r: Option<Speed>)
    ensures
        match r {
            Some(v) => elapsed@ > 0 && v@ == implied_speed_spec(distance@, elapsed@),
            None => elapsed@ == 0,
        },
{
    if elapsed.nanos == 0 {
        return None;
    }
    let product = (distance.millimetres as i128) * (NANOS_PER_HOUR as i128);
    let span = elapsed.nanos as i128;
    let raw: i128 = if product >= 0 {
        (2 * product + span) / (2 * span)
    } else {
        -((-2 * product + span) / (2 * span))
    };
    proof {
        assert(raw == div_round(distance@ * NANOS_PER_HOUR, elapsed@));
    }
    let clamped: i64 = if raw > i64::MAX as i128 {
        i64::MAX
    } else if raw < i64::MIN as i128 {
        i64::MIN
    } else {
        raw as i64
    };
    Some(Speed { millimetres_per_hour: clamped })
}

/// Whether covering `distance` in `elapsed` takes a speed above `max`,
/// compared exactly.
pub fn exceeds_speed(distance: Distance, elapsed: Duration, max: Speed) -> (r: bool)
    ensures
        r == too_fast(distance@, elapsed@, max@),
{
    if elapsed.nanos == 0 {
        return false;
    }
    let travelled = (distance.millimetres as i128) * (NANOS_PER_HOUR as i128);
    let m = max.millimetres_per_hour as i128;
    let e = elapsed.nanos as i128;
    proof {
        assert(-0x8000_0000_0000_0000 * 0xffff_ffff_ffff_ffff <= m * e
            <= 0x7fff_ffff_ffff_ffff * 0xffff_ffff_ffff_ffff) by (nonlinear_arith)
            requires
                -0x8000_0000_0000_0000 <= m <= 0x7fff_ffff_ffff_ffff,
                0 <= e <= 0xffff_ffff_ffff_ffff,
        ;
    }
    travelled > m * e
}

/// Whether the held position is stale at `now`.
pub open spec fn stale_at(s: IntakeState, now: Instant) -> bool {
    match s.last {
        Some(last) => s.delivering && last.taken_at@ <= now@ && now@ - last.taken_at@
            > s.config.max_age@,
        None => false,
    }
}

/// Time a fix becomes stale: its time plus the age limit, or the latest
/// instant.
pub open spec fn stale_from(last: GnssFix, max_age: Duration) -> Instant {
    Instant {
        nanos: if last.taken_at@ + max_age@ > i64::MAX {
            i64::MAX
        } else {
            (last.taken_at@ + max_age@) as i64
        },
    }
}

/// The intake after checking for loss at `now`, and the loss reported.
pub open spec fn expiry(s: IntakeState, now: Instant) -> (IntakeState, Seq<NavigationEvent>) {
    if stale_at(s, now) {
        (
            IntakeState { delivering: false, ..s },
            seq![
                NavigationEvent::FixLost {
                    source: PositionSource::Gnss,
                    at: stale_from(s.last.unwrap(), s.config.max_age),
                    last_good: s.last.unwrap().taken_at,
                },
            ],
        )
    } else {
        (s, seq![])
    }
}

/// Why the intake refuses `fix`, given the distance from the last accepted
/// fix to it when known.
///
/// Not vouched for by the receiver; older than the last fix; or, while a
/// position is held and time has passed, a jump needing more than the maximum
/// speed.
pub open spec fn rejection(s: IntakeState, fix: GnssFix, distance: Option<Distance>) -> Option<
    RejectionReason,
> {
    if !fix.fix_type.spec_is_position_fix() {
        Some(RejectionReason::Invalid)
    } else {
        match s.last {
            None => None,
            Some(last) => if fix.taken_at@ < last.taken_at@ {
                Some(RejectionReason::OutOfOrder)
            } else if !s.delivering || fix.taken_at@ == last.taken_at@ {
                None
            } else {
                match distance {
                    None => None,
                    Some(d) => {
                        let v = implied_speed_spec(d@, fix.taken_at@ - last.taken_at@);
                        if too_fast(d@, fix.taken_at@ - last.taken_at@, s.config.max_speed@) {
                            Some(
                                RejectionReason::ImplausibleJump {
                                    implied_speed: Speed { millimetres_per_hour: v as i64 },
                                },
                            )
                        } else {
                            None
                        }
                    },
                }
            },
        }
    }
}

/// One offer of a fix: the new state, whether accepted, and the events.
pub open spec fn accept_spec(s: IntakeState, fix: GnssFix, distance: Option<Distance>) -> (
    IntakeState,
    bool,
    Seq<NavigationEvent>,
) {
    let (e, lost) = expiry(s, fix.taken_at);
    match rejection(e, fix, distance) {
        Some(reason) => (
            e,
            false,
            lost.push(NavigationEvent::ObservationRejected { reason, at: fix.taken_at }),
        ),
        None => (
            IntakeState { last: Some(fix), previous: e.last, delivering: true, ..e },
            true,
            if e.delivering {
                lost
            } else {
                lost.push(
                    NavigationEvent::FixAcquired { source: PositionSource::Gnss, at: fix.taken_at },
                )
            },
        ),
    }
}

/// An acquisition is reported once: after a fix is accepted, a later fix
/// accepted within the age limit of it reports no acquisition, and no loss.
pub proof fn law_acquisition_reported_once(
    s: IntakeState,
    first: GnssFix,
    d1: Option<Distance>,
    second: GnssFix,
    d2: Option<Distance>,
)
    requires
        accept_spec(s, first, d1).1,
        first.taken_at@ <= second.taken_at@ <= first.taken_at@ + s.config.max_age@,
        accept_spec(accept_spec(s, first, d1).0, second, d2).1,
    ensures
        accept_spec(accept_spec(s, first, d1).0, second, d2).2 == Seq::<NavigationEvent>::empty(),
{
}

/// A gap longer than the age limit is a loss, then an acquisition: after an
/// accepted fix, the next one accepted beyond the limit reports the loss at
/// the moment the position went stale, then the acquisition.
pub proof fn law_gap_is_loss_then_acquisition(
    s: IntakeState,
    first: GnssFix,
    d1: Option<Distance>,
    second: GnssFix,
    d2: Option<Distance>,
)
    requires
        accept_spec(s, first, d1).1,
        second.taken_at@ > first.taken_at@ + s.config.max_age@,
        accept_spec(accept_spec(s, first, d1).0, second, d2).1,
    ensures
        accept_spec(accept_spec(s, first, d1).0, second, d2).2 == seq![
            NavigationEvent::FixLost {
                source: PositionSource::Gnss,
                at: stale_from(first, s.config.max_age),
                last_good: first.taken_at,
            },
            NavigationEvent::FixAcquired { source: PositionSource::Gnss, at: second.taken_at },
        ],
{
}

/// Ground track for the last fix: the receiver's own, else derived from the
/// previous fix and the sailing between them.
pub open spec fn ground_track_spec(s: IntakeState, between: Option<Sailing>) -> Option<GroundTrack> {
    match s.last {
        None => None,
        Some(last) => match (last.course_over_ground, last.speed_over_ground) {
            (Some(c), Some(v)) => Some(GroundTrack { course_over_ground: c, speed_over_ground: v }),
            _ => match (s.previous, between) {
                (Some(previous), Some(sailing)) => if last.taken_at@ > previous.taken_at@ {
                    Some(
                        GroundTrack {
                            course_over_ground: sailing.initial_course,
                            speed_over_ground: Speed {
                                millimetres_per_hour: implied_speed_spec(
                                    sailing.distance@,
                                    last.taken_at@ - previous.taken_at@,
                                ) as i64,
                            },
                        },
                    )
                } else {
                    None
                },
                _ => None,
            },
        },
    }
}

impl GnssIntake {
    /// Empty intake.
    pub fn new(config: IntakeConfig) -> (r: GnssIntake)
        ensures
            r@ == (IntakeState { config, last: None, previous: None, delivering: false }),
    {
        GnssIntake { config, last: None, previous: None, delivering: false }
    }

    /// Thresholds.
    pub fn config(&self) -> (r: &IntakeConfig)
        ensures
            *r == self@.config,
    {
        &self.config
    }

    /// Last accepted fix, if any.
    pub fn last_fix(&self) -> (r: Option<GnssFix>)
        ensures
            r == self@.last,
    {
        self.last
    }

    /// Offers a fix.
    ///
    /// `distance_from_last` is the distance from the last accepted fix to this
    /// one; without it no jump is judged. First a held position that is stale
    /// at the new fix's time is dropped, so a fix after a long gap reports
    /// loss, then acquisition. Then the fix is rejected (and reported) if the
    /// receiver does not vouch for it, if it is older than the last accepted
    /// fix, or if reaching it would exceed [`IntakeConfig::max_speed`].
    pub fn accept(&mut self, fix: GnssFix, distance_from_last: Option<Distance>) -> (outcome:
        IntakeOutcome)
        ensures
            ({
                let (s, accepted, events) = accept_spec(old(self)@, fix, distance_from_last);
                &&& final(self)@ == s
                &&& outcome.accepted == accepted
                &&& outcome.events@ == events
            }),
    {
        let mut events: Vec<NavigationEvent> = Vec::new();
        self.expire(fix.taken_at, &mut events);
        if let Some(reason) = self.reason_to_reject(&fix, distance_from_last) {
            events.push(NavigationEvent::ObservationRejected { reason, at: fix.taken_at });
            return IntakeOutcome { accepted: false, events };
        }
        if !self.delivering {
            events.push(NavigationEvent::FixAcquired { source: PositionSource::Gnss, at: fix.taken_at });
            self.delivering = true;
        }
        self.previous = self.last;
        self.last = Some(fix);
        IntakeOutcome { accepted: true, events }
    }

    /// Checks for loss without a new fix: a silent receiver sends nothing, so
    /// [`GnssIntake::accept`] never runs; the caller's clock calls this.
    pub fn check_at(&mut self, now: Instant) -> (events: EventList<NavigationEvent>)
        ensures
            final(self)@ == expiry(old(self)@, now).0,
            events@ == expiry(old(self)@, now).1,
    {
        let mut events: Vec<NavigationEvent> = Vec::new();
        self.expire(now, &mut events);
        events
    }

    /// Position at an instant, with its age and staleness at that instant.
    ///
    /// `between_fixes` is the sailing from the previous accepted fix to the
    /// last, used for a ground track when the receiver reports none.
    pub fn snapshot_at(&self, now: Instant, between_fixes: Option<Sailing>) -> (r:
        NavigationSnapshot)
        ensures
            match self@.last {
                None => r == NavigationSnapshot::spec_empty(),
                Some(last) => {
                    &&& r.position == Some((last.position, last.taken_at))
                    &&& r.source == Some(PositionSource::Gnss)
                    &&& r.age == (if last.taken_at@ <= now@ {
                        Some(Duration { nanos: (now@ - last.taken_at@) as u64 })
                    } else {
                        None
                    })
                    &&& r.stale == (last.taken_at@ <= now@ && now@ - last.taken_at@
                        > self@.config.max_age@)
                    &&& r.ground_track == ground_track_spec(self@, between_fixes)
                    &&& r.horizontal_error == last.horizontal_accuracy
                    &&& r.integrity is None
                },
            },
    {
        let last = match self.last {
            None => return NavigationSnapshot::empty(),
            Some(last) => last,
        };
        let age = now.checked_duration_since(last.taken_at);
        let stale = match age {
            Some(a) => a.nanos > self.config.max_age.nanos,
            None => false,
        };
        let ground_track = self.ground_track(&last, between_fixes);
        NavigationSnapshot {
            position: Some((last.position, last.taken_at)),
            source: Some(PositionSource::Gnss),
            ground_track,
            horizontal_error: last.horizontal_accuracy,
            age,
            stale,
            integrity: None,
        }
    }

    /// Drops a held position older than the limit at `now`.
    fn expire(&mut self, now: Instant, events: &mut Vec<NavigationEvent>)
        ensures
            final(self)@ == expiry(old(self)@, now).0,
            final(events)@ == old(events)@ + expiry(old(self)@, now).1,
    {
        let last = match self.last {
            None => return,
            Some(last) => last,
        };
        if !self.delivering {
            return;
        }
        let stale = match now.checked_duration_since(last.taken_at) {
            Some(age) => age.nanos > self.config.max_age.nanos,
            None => false,
        };
        if stale {
            self.delivering = false;
            events.push(
                NavigationEvent::FixLost {
                    source: PositionSource::Gnss,
                    at: last.taken_at.saturating_add(self.config.max_age),
                    last_good: last.taken_at,
                },
            );
        }
    }

    /// Rejection reason, if any.
    fn reason_to_reject(&self, fix: &GnssFix, distance: Option<Distance>) -> (r: Option<
        RejectionReason,
    >)
        ensures
            r == rejection(self@, *fix, distance),
    {
        if !fix.fix_type.is_position_fix() {
            return Some(RejectionReason::Invalid);
        }
        let last = match self.last {
            None => return None,
            Some(last) => last,
        };
        if fix.taken_at.nanos < last.taken_at.nanos {
            return Some(RejectionReason::OutOfOrder);
        }
        if !self.delivering {
            return None;
        }
        let elapsed = match fix.taken_at.checked_duration_since(last.taken_at) {
            Some(e) => e,
            None => return None,
        };
        let d = match distance {
            Some(d) => d,
            None => return None,
        };
        if !exceeds_speed(d, elapsed, self.config.max_speed) {
            return None;
        }
        match implied_speed(d, elapsed) {
            None => None,
            Some(v) => Some(RejectionReason::ImplausibleJump { implied_speed: v }),
        }
    }

    /// Ground track for the last fix: from the receiver, or derived from the
    /// previous fix.
    fn ground_track(&self, last: &GnssFix, between: Option<Sailing>) -> (r: Option<GroundTrack>)
        requires
            self@.last == Some(*last),
        ensures
            r == ground_track_spec(self@, between),
    {
        if let (Some(course_over_ground), Some(speed_over_ground)) = (
            last.course_over_ground,
            last.speed_over_ground,
        ) {
            return Some(GroundTrack { course_over_ground, speed_over_ground });
        }
        let previous = match self.previous {
            None => return None,
            Some(p) => p,
        };
        let sailing = match between {
            None => return None,
            Some(s) => s,
        };
        let elapsed = match last.taken_at.checked_duration_since(previous.taken_at) {
            None => return None,
            Some(e) => e,
        };
        match implied_speed(sailing.distance, elapsed) {
            None => None,
            Some(speed_over_ground) => Some(
                GroundTrack { course_over_ground: sailing.initial_course, speed_over_ground },
            ),
        }
    }
}

} // verus!
