//! Bookkeeping of the navigation-state estimator.
//!
//! The filter mathematics (prediction, measurement update, late updates through
//! the belief history) runs outside the library in floating point. The
//! estimator here holds what the mathematics does not: the current belief and
//! a short history, monotonic time, the late-observation policy, per-source
//! and overall verdicts, re-anchoring, and the events that report them. Each
//! step takes the results of the mathematics as arguments.
use vstd::prelude::*;

pub mod health;
pub mod history;

use crate::error::{ensure_range, KernelError, NavigationError};
use crate::event::{
    EventList, NavigationEvent, NavigationIntegrity, RejectionReason, SensorHealth, SensorId,
};
use crate::snapshot::NavigationSnapshot;
use crate::time::{Duration, Instant};
use crate::units::Distance;

use health::{assess, assess_spec, IntegrityLimits, Sensors};
use history::{recorded, History};

pub use health::MAX_SENSORS;
pub use history::MAX_HISTORY;

verus! {

/// Handling of observations older than the belief.
#[derive(Clone, Copy, Debug, PartialEq, Eq, Structural)]
pub enum LatePolicy {
    /// Reject as [`RejectionReason::OutOfOrder`].
    Reject,
    /// Fold in through the belief history if no older than `max_lag` and
    /// within the history; otherwise reject.
    Smooth { max_lag: Duration },
}

/// Estimator settings, as the contracts see them.
#[derive(Clone, Copy, Debug, PartialEq, Eq)]
pub struct EstimatorSettings {
    /// Distance from the anchor at which the local frame is re-anchored.
    pub reanchor_after: Distance,
    /// Age at which snapshots are marked stale.
    pub max_age: Duration,
    /// Late-observation policy.
    pub late: LatePolicy,
    /// One-sigma semi-major axis beyond which integrity is exceeded.
    pub alert_limit: Distance,
    /// Time without a position fix after which integrity is dead reckoning.
    pub max_unaided: Duration,
    /// Consecutive gate rejections that make a source suspect; zero disables.
    pub suspect_after: u8,
}

/// Estimator settings.
///
/// Start from [`EstimatorConfig::standard`] and adjust with `with_*`.
/// Distances are validated on input, so no limit can move the anchor every
/// step or flag every position.
#[derive(Clone, Copy, Debug, PartialEq, Eq)]
pub struct EstimatorConfig {
    reanchor_after: Distance,
    max_age: Duration,
    late: LatePolicy,
    alert_limit: Distance,
    max_unaided: Duration,
    suspect_after: u8,
}

impl View for EstimatorConfig {
    type V = EstimatorSettings;

    closed spec fn view(&self) -> EstimatorSettings {
        EstimatorSettings {
            reanchor_after: self.reanchor_after,
            max_age: self.max_age,
            late: self.late,
            alert_limit: self.alert_limit,
            max_unaided: self.max_unaided,
            suspect_after: self.suspect_after,
        }
    }
}

impl EstimatorConfig {
    #[verifier::type_invariant]
    closed spec fn limits_positive(&self) -> bool {
        &&& 0 < self.reanchor_after@
        &&& 0 < self.alert_limit@
    }

    /// 50 km anchor distance; 10 s staleness; late observations folded in up
    /// to 2 s; 100 m alert limit; 30 s unaided; 5 consecutive rejections.
    pub fn standard() -> (c: EstimatorConfig)
        ensures
            c@ == (EstimatorSettings {
                reanchor_after: Distance { millimetres: 50_000_000 },
                max_age: Duration { nanos: 10_000_000_000 },
                late: LatePolicy::Smooth { max_lag: Duration { nanos: 2_000_000_000 } },
                alert_limit: Distance { millimetres: 100_000 },
                max_unaided: Duration { nanos: 30_000_000_000 },
                suspect_after: 5,
            }),
    {
        EstimatorConfig {
            reanchor_after: Distance { millimetres: 50_000_000 },
            max_age: Duration { nanos: 10_000_000_000 },
            late: LatePolicy::Smooth { max_lag: Duration { nanos: 2_000_000_000 } },
            alert_limit: Distance { millimetres: 100_000 },
            max_unaided: Duration { nanos: 30_000_000_000 },
            suspect_after: 5,
        }
    }

    /// Sets the distance from the anchor at which the local frame is
    /// re-anchored under the vessel.
    ///
    /// # Errors
    ///
    /// [`KernelError::OutOfRange`] naming the parameter unless positive.
    pub fn with_reanchor_after(self, distance: Distance) -> (r: Result<
        EstimatorConfig,
        NavigationError,
    >)
        ensures
            match r {
                Ok(c) => 0 < distance@ && c@ == (EstimatorSettings {
                    reanchor_after: distance,
                    ..self@
                }),
                Err(e) => distance@ <= 0 && e == NavigationError::Kernel(
                    KernelError::OutOfRange {
                        parameter: "reanchor distance",
                        value: distance@ as i64,
                        min: 1,
                        max: i64::MAX,
                    },
                ),
            },
    {
        ensure_range("reanchor distance", distance.millimetres, 1, i64::MAX)?;
        proof {
            use_type_invariant(&self);
        }
        Ok(EstimatorConfig { reanchor_after: distance, ..self })
    }

    /// Sets the state age at which snapshots are marked stale.
    pub fn with_max_age(self, max_age: Duration) -> (c: EstimatorConfig)
        ensures
            c@ == (EstimatorSettings { max_age, ..self@ }),
    {
        proof {
            use_type_invariant(&self);
        }
        EstimatorConfig { max_age, ..self }
    }

    /// Sets the late-observation policy.
    pub fn with_late(self, late: LatePolicy) -> (c: EstimatorConfig)
        ensures
            c@ == (EstimatorSettings { late, ..self@ }),
    {
        proof {
            use_type_invariant(&self);
        }
        EstimatorConfig { late, ..self }
    }

    /// Sets the one-sigma semi-major axis beyond which integrity is
    /// [`NavigationIntegrity::Exceeded`].
    ///
    /// # Errors
    ///
    /// [`KernelError::OutOfRange`] naming the parameter unless positive.
    pub fn with_alert_limit(self, limit: Distance) -> (r: Result<EstimatorConfig, NavigationError>)
        ensures
            match r {
                Ok(c) => 0 < limit@ && c@ == (EstimatorSettings {
                    alert_limit: limit,
                    ..self@
                }),
                Err(e) => limit@ <= 0 && e == NavigationError::Kernel(
                    KernelError::OutOfRange {
                        parameter: "alert limit",
                        value: limit@ as i64,
                        min: 1,
                        max: i64::MAX,
                    },
                ),
            },
    {
        ensure_range("alert limit", limit.millimetres, 1, i64::MAX)?;
        proof {
            use_type_invariant(&self);
        }
        Ok(EstimatorConfig { alert_limit: limit, ..self })
    }

    /// Sets the time without a position fix after which integrity is
    /// [`NavigationIntegrity::DeadReckoning`].
    pub fn with_max_unaided(self, max_unaided: Duration) -> (c: EstimatorConfig)
        ensures
            c@ == (EstimatorSettings { max_unaided, ..self@ }),
    {
        proof {
            use_type_invariant(&self);
        }
        EstimatorConfig { max_unaided, ..self }
    }

    /// Sets the number of consecutive gate rejections that make a source
    /// [`SensorHealth::Suspect`]; the same number of acceptances clears it.
    /// Zero disables.
    pub fn with_suspect_after(self, rejections: u8) -> (c: EstimatorConfig)
        ensures
            c@ == (EstimatorSettings { suspect_after: rejections, ..self@ }),
    {
        proof {
            use_type_invariant(&self);
        }
        EstimatorConfig { suspect_after: rejections, ..self }
    }

    /// Re-anchoring distance.
    pub fn reanchor_after(&self) -> (r: Distance)
        ensures
            r == self@.reanchor_after,
            0 < r@,
    {
        proof {
            use_type_invariant(self);
        }
        self.reanchor_after
    }

    /// Staleness limit.
    pub fn max_age(&self) -> (r: Duration)
        ensures
            r == self@.max_age,
    {
        self.max_age
    }

    /// Late-observation policy.
    pub fn late(&self) -> (r: LatePolicy)
        ensures
            r == self@.late,
    {
        self.late
    }

    /// One-sigma semi-major axis limit for [`NavigationIntegrity::Exceeded`].
    pub fn alert_limit(&self) -> (r: Distance)
        ensures
            r == self@.alert_limit,
            0 < r@,
    {
        proof {
            use_type_invariant(self);
        }
        self.alert_limit
    }

    /// Unaided time limit for [`NavigationIntegrity::DeadReckoning`].
    pub fn max_unaided(&self) -> (r: Duration)
        ensures
            r == self@.max_unaided,
    {
        self.max_unaided
    }

    /// Consecutive rejections for [`SensorHealth::Suspect`]; zero if disabled.
    pub fn suspect_after(&self) -> (r: u8)
        ensures
            r == self@.suspect_after,
    {
        self.suspect_after
    }

    /// Integrity limits of these settings.
    pub fn integrity_limits(&self) -> (r: IntegrityLimits)
        ensures
            r == (IntegrityLimits { alert_limit: self@.alert_limit, max_unaided: self@.max_unaided }),
    {
        IntegrityLimits { alert_limit: self.alert_limit, max_unaided: self.max_unaided }
    }
}

} // verus!

verus! {

/// Result of a measurement update, as the filter mathematics reports it.
#[derive(Clone, Copy, Debug, PartialEq, Eq, Structural)]
pub struct UpdateReport {
    /// Whether the innovation test accepted the observation, which then corrected the belief.
    pub accepted: bool,
    /// Whether the observation fixes the position absolutely.
    pub fixes_position: bool,
    /// Normalised innovation squared, thousandths.
    pub normalised_innovation_squared_milli: u64,
}

impl UpdateReport {
    /// Whether the innovation test accepted the observation.
    pub fn accepted(&self) -> (r: bool)
        ensures
            r == self.accepted,
    {
        self.accepted
    }

    /// Whether the observation fixes the position absolutely.
    pub fn fixes_position(&self) -> (r: bool)
        ensures
            r == self.fixes_position,
    {
        self.fixes_position
    }
}

/// Step result: events and the update report, if any.
#[derive(Clone, Debug, PartialEq, Eq)]
pub struct Outcome {
    /// Events.
    pub events: EventList<NavigationEvent>,
    /// Update report, for observation steps.
    pub report: Option<UpdateReport>,
}

impl Outcome {
    /// Events.
    pub fn events(&self) -> (r: &EventList<NavigationEvent>)
        ensures
            r == &self.events,
    {
        &self.events
    }

    /// Update report, for observation steps.
    pub fn report(&self) -> (r: Option<UpdateReport>)
        ensures
            r == self.report,
    {
        self.report
    }
}

/// How an observation taken at some instant is to be used.
#[derive(Clone, Copy, Debug, PartialEq, Eq, Structural)]
pub enum Timing {
    /// At or after the belief: propagate the belief to it, then correct.
    Current,
    /// Late but within the policy: fold in through the history from entry
    /// `from` (the last belief at or before it) to the current belief.
    Late { from: usize },
    /// Late beyond the policy or the history: reject as out of order.
    Refused,
}

/// A belief: the filter's state and the one-sigma semi-major axis of its
/// horizontal error.
pub type Belief<S> = (S, Distance);

/// Estimator bookkeeping, as the contracts see it.
pub struct EstimatorState<S> {
    /// Beliefs, oldest first, last current.
    pub history: Seq<(Instant, (S, Distance))>,
    /// Settings.
    pub config: EstimatorSettings,
    /// Verdicts per source.
    pub sensors: Seq<health::Record>,
    /// Time of the last position-fixing observation.
    pub last_fix: Option<Instant>,
    /// Overall verdict as of the current belief.
    pub integrity: NavigationIntegrity,
}

/// Integrity limits of settings.
pub open spec fn limits_of(c: EstimatorSettings) -> IntegrityLimits {
    IntegrityLimits { alert_limit: c.alert_limit, max_unaided: c.max_unaided }
}

/// Verdict on the current belief of a history.
pub open spec fn verdict<S>(
    history: Seq<(Instant, (S, Distance))>,
    last_fix: Option<Instant>,
    config: EstimatorSettings,
) -> NavigationIntegrity {
    assess_spec(history.last().1.1, last_fix, history.last().0, limits_of(config))
}

/// The later of a new fix time and the last one.
pub open spec fn later_fix(at: Instant, last: Option<Instant>) -> Instant {
    match last {
        Some(l) => if l@ > at@ {
            l
        } else {
            at
        },
        None => at,
    }
}

/// Bookkeeping after the belief is propagated to `at`.
pub open spec fn propagated<S>(st: EstimatorState<S>, at: Instant, predicted: Belief<S>) -> EstimatorState<S> {
    EstimatorState { history: recorded(st.history, at, predicted), ..st }
}

/// Bookkeeping after the belief is advanced to `at` with no observation.
pub open spec fn advanced<S>(
    st: EstimatorState<S>,
    at: Instant,
    predicted: Belief<S>,
    reanchored: Option<Belief<S>>,
) -> EstimatorState<S> {
    let history = match reanchored {
        Some(b) => seq![(at, b)],
        None => recorded(st.history, at, predicted),
    };
    EstimatorState { history, integrity: verdict(history, st.last_fix, st.config), ..st }
}

/// Bookkeeping after a measurement update from `sensor` is concluded.
pub open spec fn concluded<S>(
    st: EstimatorState<S>,
    taken_at: Instant,
    sensor: SensorId,
    report: UpdateReport,
    updated: Belief<S>,
    reanchored: Option<Belief<S>>,
) -> EstimatorState<S> {
    let now = st.history.last().0;
    let corrected = if report.accepted {
        recorded(st.history, now, updated)
    } else {
        st.history
    };
    let last_fix = if report.accepted && report.fixes_position {
        Some(later_fix(taken_at, st.last_fix))
    } else {
        st.last_fix
    };
    let history = match reanchored {
        Some(b) => seq![(now, b)],
        None => corrected,
    };
    EstimatorState {
        history,
        config: st.config,
        sensors: health::noted_records(st.sensors, sensor, report.accepted, st.config.suspect_after),
        last_fix,
        integrity: verdict(history, last_fix, st.config),
    }
}

/// A belief recorded at `at` becomes the current one.
proof fn lemma_recorded_last<T>(entries: Seq<(Instant, T)>, at: Instant, state: T)
    requires
        entries.len() >= 1,
    ensures
        recorded(entries, at, state).len() >= 1,
        recorded(entries, at, state).last() == (at, state),
{
}

/// Integrity follows the fixes and the error ellipse: a position fix within
/// the alert limit makes the verdict nominal; an accepted observation that
/// fixes no position (a heading) keeps the last fix, so the verdict stays
/// nominal within the unaided limit; advancing past that limit with no fix
/// gives dead reckoning, or exceeded once the ellipse is beyond the alert
/// limit; the next fix makes it nominal again. Each observation step is the
/// belief propagated to the observation's time, then the update concluded.
pub proof fn law_integrity_follows_the_fixes<S>(
    s0: EstimatorState<S>,
    fix: UpdateReport,
    heading: UpdateReport,
    gnss: SensorId,
    gyro: SensorId,
    t1: Instant,
    p1: Belief<S>,
    u1: Belief<S>,
    t2: Instant,
    p2: Belief<S>,
    u2: Belief<S>,
    t3: Instant,
    p3: Belief<S>,
    t4: Instant,
    p4: Belief<S>,
    u4: Belief<S>,
)
    requires
        s0.history.len() >= 1,
        s0.history.last().0@ <= t1@ <= t2@ <= t3@ <= t4@,
        s0.last_fix matches Some(f) ==> f@ <= t1@,
        fix.accepted && fix.fixes_position,
        heading.accepted && !heading.fixes_position,
        u1.1@ <= s0.config.alert_limit@,
        u2.1@ <= s0.config.alert_limit@,
        u4.1@ <= s0.config.alert_limit@,
        t2@ - t1@ <= s0.config.max_unaided@,
        t3@ - t1@ > s0.config.max_unaided@,
    ensures
        ({
            let s1 = concluded(propagated(s0, t1, p1), t1, gnss, fix, u1, None);
            let s2 = concluded(propagated(s1, t2, p2), t2, gyro, heading, u2, None);
            let s3 = advanced(s2, t3, p3, None);
            let s4 = concluded(propagated(s3, t4, p4), t4, gnss, fix, u4, None);
            &&& s1.integrity == NavigationIntegrity::Nominal
            &&& s2.integrity == NavigationIntegrity::Nominal
            &&& s2.last_fix == Some(t1)
            &&& s3.integrity == if p3.1@ > s0.config.alert_limit@ {
                NavigationIntegrity::Exceeded
            } else {
                NavigationIntegrity::DeadReckoning
            }
            &&& s4.integrity == NavigationIntegrity::Nominal
        }),
{
    let a = propagated(s0, t1, p1);
    lemma_recorded_last(s0.history, t1, p1);
    lemma_recorded_last(a.history, t1, u1);
    let s1 = concluded(a, t1, gnss, fix, u1, None);
    assert(s1.history.last() == (t1, u1));
    assert(s1.last_fix == Some(t1));
    let b = propagated(s1, t2, p2);
    lemma_recorded_last(s1.history, t2, p2);
    lemma_recorded_last(b.history, t2, u2);
    let s2 = concluded(b, t2, gyro, heading, u2, None);
    assert(s2.history.last() == (t2, u2));
    lemma_recorded_last(s2.history, t3, p3);
    let s3 = advanced(s2, t3, p3, None);
    assert(s3.history.last() == (t3, p3));
    let c = propagated(s3, t4, p4);
    lemma_recorded_last(s3.history, t4, p4);
    lemma_recorded_last(c.history, t4, u4);
    let s4 = concluded(c, t4, gnss, fix, u4, None);
    assert(s4.history.last() == (t4, u4));
    assert(later_fix(t4, Some(t1)) == t4);
}

/// Integrity follows the fixes: an accepted position fix taken at the time of
/// the current belief, whose error axis is within the alert limit, makes the
/// verdict nominal (the step [`Estimator::conclude`] takes).
pub proof fn law_a_fix_restores_nominal<S>(
    history: Seq<(Instant, (S, Distance))>,
    last_fix: Option<Instant>,
    config: EstimatorSettings,
    taken_at: Instant,
    updated: (S, Distance),
)
    requires
        history.len() >= 1,
        history.last().0 == taken_at,
        updated.1@ <= config.alert_limit@,
        last_fix matches Some(f) ==> f@ <= taken_at@,
    ensures
        verdict(
            recorded(history, history.last().0, updated),
            Some(later_fix(taken_at, last_fix)),
            config,
        ) == NavigationIntegrity::Nominal,
{
    let h = recorded(history, history.last().0, updated);
    assert(h.last() == (taken_at, updated));
    assert(later_fix(taken_at, last_fix) == taken_at);
}

/// Integrity follows the fixes: advancing the belief without a fix to an
/// instant more than the unaided limit after the last fix (or with no fix at
/// all) never gives a nominal verdict (the step [`Estimator::advance_to`]
/// takes); beyond the alert limit the verdict is exceeded.
pub proof fn law_unaided_time_runs_out<S>(
    history: Seq<(Instant, (S, Distance))>,
    last_fix: Option<Instant>,
    config: EstimatorSettings,
    at: Instant,
    predicted: (S, Distance),
)
    requires
        history.len() >= 1,
        history.last().0@ <= at@,
        last_fix matches Some(f) ==> at@ - f@ > config.max_unaided@,
    ensures
        verdict(recorded(history, at, predicted), last_fix, config) != NavigationIntegrity::Nominal,
        verdict(recorded(history, at, predicted), last_fix, config) == if predicted.1@
            > config.alert_limit@ {
            NavigationIntegrity::Exceeded
        } else {
            NavigationIntegrity::DeadReckoning
        },
{
    let h = recorded(history, at, predicted);
    assert(h.last() == (at, predicted));
}

/// The estimator's bookkeeping around the filter: current belief and history,
/// monotonic time, late policy, verdicts and events.
pub struct Estimator<S: Copy> {
    history: History<(S, Distance)>,
    config: EstimatorConfig,
    sensors: Sensors,
    last_fix: Option<Instant>,
    integrity: NavigationIntegrity,
}

impl<S: Copy> View for Estimator<S> {
    type V = EstimatorState<S>;

    closed spec fn view(&self) -> EstimatorState<S> {
        EstimatorState {
            history: self.history@,
            config: self.config@,
            sensors: self.sensors@,
            last_fix: self.last_fix,
            integrity: self.integrity,
        }
    }
}

impl<S: Copy> Estimator<S> {
    /// Estimator from an initial belief at `at`.
    ///
    /// No position fix yet, so integrity starts at
    /// [`NavigationIntegrity::DeadReckoning`] (or `Exceeded` if the initial
    /// uncertainty is beyond the limit).
    pub fn new(at: Instant, initial: Belief<S>, config: EstimatorConfig) -> (e: Estimator<S>)
        ensures
            e@.history == seq![(at, initial)],
            e@.config == config@,
            e@.sensors == Seq::<health::Record>::empty(),
            e@.last_fix is None,
            e@.integrity == assess_spec(initial.1, None, at, limits_of(config@)),
    {
        let limits = config.integrity_limits();
        let integrity = assess(initial.1, None, at, &limits);
        Estimator {
            history: History::starting_with(at, initial),
            config,
            sensors: Sensors::new(),
            last_fix: None,
            integrity,
        }
    }

    /// Current belief and its time.
    pub fn state(&self) -> (r: (Instant, Belief<S>))
        ensures
            r == self@.history.last(),
    {
        self.history.current()
    }

    /// All beliefs held, oldest first, for a late update.
    pub fn beliefs(&self) -> (r: &Vec<(Instant, Belief<S>)>)
        ensures
            r@ == self@.history,
    {
        self.history.entries()
    }

    /// Settings.
    pub fn config(&self) -> (r: &EstimatorConfig)
        ensures
            r@ == self@.config,
    {
        &self.config
    }

    /// Overall integrity as of the current belief.
    pub fn integrity(&self) -> (r: NavigationIntegrity)
        ensures
            r == self@.integrity,
    {
        self.integrity
    }

    /// Verdict on a source; `None` if not heard from.
    pub fn sensor_health(&self, sensor: SensorId) -> (r: Option<SensorHealth>)
        ensures
            match r {
                Some(h) => exists|i: int|
                    0 <= i < self@.sensors.len() && self@.sensors[i].sensor == sensor
                        && self@.sensors[i].health == h,
                None => forall|i: int|
                    0 <= i < self@.sensors.len() ==> self@.sensors[i].sensor != sensor,
            },
    {
        self.sensors.health(sensor)
    }

    /// How an observation taken at `taken_at` is to be used: current, folded
    /// in late through the history, or refused.
    ///
    /// Late observations follow [`EstimatorConfig::late`]: folded in if no
    /// older than the policy's lag and within the history, else refused.
    pub fn timing(&self, taken_at: Instant) -> (r: Timing)
        ensures
            ({
                let now = self@.history.last().0;
                if taken_at@ >= now@ {
                    r == Timing::Current
                } else {
                    match self@.config.late {
                        LatePolicy::Reject => r == Timing::Refused,
                        LatePolicy::Smooth { max_lag } => if now@ - taken_at@ > max_lag@ {
                            r == Timing::Refused
                        } else {
                            match r {
                                Timing::Late { from } => {
                                    &&& from < self@.history.len()
                                    &&& self@.history[from as int].0@ <= taken_at@
                                    &&& forall|j: int|
                                        from < j < self@.history.len()
                                            ==> self@.history[j].0@ > taken_at@
                                },
                                Timing::Refused => forall|j: int|
                                    0 <= j < self@.history.len() ==> self@.history[j].0@
                                        > taken_at@,
                                Timing::Current => false,
                            }
                        },
                    }
                }
            }),
    {
        let (now, _) = self.history.current();
        if taken_at.nanos >= now.nanos {
            return Timing::Current;
        }
        match self.config.late() {
            LatePolicy::Reject => Timing::Refused,
            LatePolicy::Smooth { max_lag } => {
                let lag = (now.nanos as i128) - (taken_at.nanos as i128);
                if lag > max_lag.nanos as i128 {
                    return Timing::Refused;
                }
                match self.history.reaching(taken_at) {
                    Some(from) => Timing::Late { from },
                    None => Timing::Refused,
                }
            },
        }
    }

    /// Outcome for an observation refused as out of order; the belief is
    /// unchanged.
    pub fn refuse(&self, taken_at: Instant) -> (r: Outcome)
        ensures
            r.events@ == seq![
                NavigationEvent::ObservationRejected {
                    reason: RejectionReason::OutOfOrder,
                    at: taken_at,
                },
            ],
            r.report is None,
    {
        let mut events: Vec<NavigationEvent> = Vec::new();
        events.push(
            NavigationEvent::ObservationRejected { reason: RejectionReason::OutOfOrder, at: taken_at },
        );
        Outcome { events, report: None }
    }

    /// Whether the belief has moved far enough from the local frame's anchor
    /// to re-anchor under the vessel: `offset` is its horizontal distance from
    /// the anchor.
    pub fn reanchor_due(&self, offset: Distance) -> (r: bool)
        ensures
            r == (offset@ > self@.config.reanchor_after@),
    {
        offset.millimetres > self.config.reanchor_after().millimetres
    }

    /// Propagates the belief to `at`, the prediction made by the filter.
    /// `reanchored`, if any, is the predicted belief moved to a new local
    /// frame; the history restarts from it.
    ///
    /// # Errors
    ///
    /// [`KernelError::TimeReversed`] for an instant before the belief;
    /// nothing changes.
    pub fn advance_to(
        &mut self,
        at: Instant,
        predicted: Belief<S>,
        reanchored: Option<Belief<S>>,
    ) -> (r: Result<Outcome, NavigationError>)
        ensures
            ({
                let old_state = old(self)@;
                let now = old_state.history.last().0;
                if at@ < now@ {
                    &&& r matches Err(NavigationError::Kernel(KernelError::TimeReversed { by }))
                    &&& by@ == now@ - at@
                    &&& final(self)@ == old_state
                } else {
                    let history = match reanchored {
                        Some(b) => seq![(at, b)],
                        None => recorded(old_state.history, at, predicted),
                    };
                    let verdict = verdict(history, old_state.last_fix, old_state.config);
                    &&& r matches Ok(outcome)
                    &&& outcome.report is None
                    &&& final(self)@.history == history
                    &&& final(self)@.config == old_state.config
                    &&& final(self)@.sensors == old_state.sensors
                    &&& final(self)@.last_fix == old_state.last_fix
                    &&& final(self)@.integrity == verdict
                    &&& final(self)@ == advanced(old_state, at, predicted, reanchored)
                    &&& outcome.events@ == if verdict == old_state.integrity {
                        seq![]
                    } else {
                        seq![
                            NavigationEvent::IntegrityChanged {
                                from: old_state.integrity,
                                to: verdict,
                                at,
                            },
                        ]
                    }
                }
            }),
    {
        let (now, _) = self.history.current();
        if at.nanos < now.nanos {
            let by = (now.nanos as i128) - (at.nanos as i128);
            return Err(NavigationError::Kernel(KernelError::TimeReversed { by: Duration { nanos: by as u64 } }));
        }
        match reanchored {
            Some(b) => self.history.restart_with(at, b),
            None => self.history.record(at, predicted),
        }
        let mut events: Vec<NavigationEvent> = Vec::new();
        self.judge(&mut events);
        Ok(Outcome { events, report: None })
    }

    /// Records that the belief was propagated to `at` for an observation taken
    /// then: the filter's prediction becomes the current belief.
    ///
    /// # Errors
    ///
    /// [`KernelError::TimeReversed`] for an instant before the belief;
    /// nothing changes.
    pub fn propagate(&mut self, at: Instant, predicted: Belief<S>) -> (r: Result<(), NavigationError>)
        ensures
            ({
                let old_state = old(self)@;
                let now = old_state.history.last().0;
                if at@ < now@ {
                    &&& r matches Err(NavigationError::Kernel(KernelError::TimeReversed { by }))
                    &&& by@ == now@ - at@
                    &&& final(self)@ == old_state
                } else {
                    &&& r is Ok
                    &&& final(self)@ == propagated(old_state, at, predicted)
                }
            }),
    {
        let (now, _) = self.history.current();
        if at.nanos < now.nanos {
            let by = (now.nanos as i128) - (at.nanos as i128);
            return Err(NavigationError::Kernel(KernelError::TimeReversed { by: Duration { nanos: by as u64 } }));
        }
        self.history.record(at, predicted);
        Ok(())
    }

    /// Concludes a measurement update of an observation taken at `taken_at`
    /// from `sensor`: the filter's report and corrected belief (at the current
    /// belief's time), and the corrected belief moved to a new local frame if
    /// the filter re-anchored it.
    ///
    /// An accepted correction becomes the current belief, and a position fix
    /// advances the last-fix time; a gated one is reported as
    /// [`RejectionReason::Improbable`]. The source's verdict is updated, the
    /// history restarts from a re-anchored belief, and integrity is judged
    /// again.
    ///
    /// # Errors
    ///
    /// [`KernelError::CapacityExceeded`] for a source beyond [`MAX_SENSORS`];
    /// nothing changes.
    pub fn conclude(
        &mut self,
        taken_at: Instant,
        sensor: SensorId,
        report: UpdateReport,
        updated: Belief<S>,
        reanchored: Option<Belief<S>>,
    ) -> (r: Result<Outcome, NavigationError>)
        ensures
            ({
                let old_state = old(self)@;
                let now = old_state.history.last().0;
                let corrected = if report.accepted {
                    recorded(old_state.history, now, updated)
                } else {
                    old_state.history
                };
                let last_fix = if report.accepted && report.fixes_position {
                    Some(later_fix(taken_at, old_state.last_fix))
                } else {
                    old_state.last_fix
                };
                let history = match reanchored {
                    Some(b) => seq![(now, b)],
                    None => corrected,
                };
                let verdict = verdict(history, last_fix, old_state.config);
                let known = health::heard(old_state.sensors, sensor);
                let rejection = if report.accepted {
                    Seq::<NavigationEvent>::empty()
                } else {
                    seq![
                        NavigationEvent::ObservationRejected {
                            reason: RejectionReason::Improbable {
                                normalised_innovation_squared_milli:
                                    report.normalised_innovation_squared_milli,
                            },
                            at: taken_at,
                        },
                    ]
                };
                let change = if verdict == old_state.integrity {
                    Seq::<NavigationEvent>::empty()
                } else {
                    seq![NavigationEvent::IntegrityChanged { from: old_state.integrity, to: verdict, at: now }]
                };
                &&& (r is Ok <==> (known || old_state.sensors.len() < health::MAX_SENSORS))
                &&& (r is Err ==> r == Err::<Outcome, NavigationError>(
                    NavigationError::Kernel(
                        KernelError::CapacityExceeded {
                            context: "the estimator's sources",
                            needed: (health::MAX_SENSORS + 1) as usize,
                            capacity: health::MAX_SENSORS,
                        },
                    ),
                ) && final(self)@ == old_state)
                &&& r matches Ok(outcome) ==> {
                    &&& outcome.report == Some(report)
                    &&& final(self)@.config == old_state.config
                    &&& final(self)@.last_fix == last_fix
                    &&& final(self)@.history == history
                    &&& final(self)@.integrity == verdict
                    &&& final(self)@.sensors == health::noted_records(
                        old_state.sensors,
                        sensor,
                        report.accepted,
                        old_state.config.suspect_after,
                    )
                    &&& (report.accepted ==> (final(self)@.history.last().0 == now))
                    &&& final(self)@ == concluded(old_state, taken_at, sensor, report, updated, reanchored)
                    &&& outcome.events@ == rejection + health::noted_events(
                        old_state.sensors,
                        sensor,
                        report.accepted,
                        old_state.config.suspect_after,
                        taken_at,
                    ) + change
                }
            }),
    {
        if !self.sensors.has_room_for(sensor) {
            return Err(
                NavigationError::Kernel(
                    KernelError::CapacityExceeded {
                        context: "the estimator's sources",
                        needed: health::MAX_SENSORS + 1,
                        capacity: health::MAX_SENSORS,
                    },
                ),
            );
        }
        let (now, _) = self.history.current();
        let mut events: Vec<NavigationEvent> = Vec::new();
        if report.accepted {
            self.history.record(now, updated);
            if report.fixes_position {
                let fix = match self.last_fix {
                    Some(l) => if l.nanos > taken_at.nanos {
                        l
                    } else {
                        taken_at
                    },
                    None => taken_at,
                };
                self.last_fix = Some(fix);
            }
        } else {
            events.push(
                NavigationEvent::ObservationRejected {
                    reason: RejectionReason::Improbable {
                        normalised_innovation_squared_milli:
                            report.normalised_innovation_squared_milli,
                    },
                    at: taken_at,
                },
            );
        }
        let noted = self.sensors.note(sensor, report.accepted, self.config.suspect_after(), taken_at, &mut events);
        if noted.is_err() {
            proof {
                assert(false);
            }
        }
        if let Some(b) = reanchored {
            self.history.restart_with(now, b);
        }
        self.judge(&mut events);
        Ok(Outcome { events, report: Some(report) })
    }

    /// Re-evaluates integrity for the current belief and reports a change.
    fn judge(&mut self, events: &mut Vec<NavigationEvent>)
        ensures
            ({
                let old_state = old(self)@;
                let v = verdict(old_state.history, old_state.last_fix, old_state.config);
                &&& final(self)@ == EstimatorState { integrity: v, ..old_state }
                &&& final(events)@ == if v == old_state.integrity {
                    old(events)@
                } else {
                    old(events)@.push(
                        NavigationEvent::IntegrityChanged {
                            from: old_state.integrity,
                            to: v,
                            at: old_state.history.last().0,
                        },
                    )
                }
            }),
    {
        let (at, belief) = self.history.current();
        let limits = self.config.integrity_limits();
        let now = assess(belief.1, self.last_fix, at, &limits);
        if now != self.integrity {
            events.push(NavigationEvent::IntegrityChanged { from: self.integrity, to: now, at });
            self.integrity = now;
        }
    }

    /// Read model at `now`: the projected belief with its age, staleness and
    /// integrity verdict as of that instant.
    pub fn snapshot_at(&self, now: Instant, projected: NavigationSnapshot) -> (r: NavigationSnapshot)
        ensures
            ({
                let (at, belief) = self@.history.last();
                &&& r.position == projected.position
                &&& r.source == projected.source
                &&& r.ground_track == projected.ground_track
                &&& r.horizontal_error == projected.horizontal_error
                &&& r.integrity == Some(
                    assess_spec(belief.1, self@.last_fix, now, limits_of(self@.config)),
                )
                &&& r.age == (if at@ <= now@ {
                    Some(Duration { nanos: (now@ - at@) as u64 })
                } else {
                    None
                })
                &&& r.stale == (at@ <= now@ && now@ - at@ > self@.config.max_age@)
            }),
    {
        let (at, belief) = self.history.current();
        let limits = self.config.integrity_limits();
        let integrity = assess(belief.1, self.last_fix, now, &limits);
        let age = now.checked_duration_since(at);
        let stale = match age {
            Some(a) => a.nanos > self.config.max_age().nanos,
            None => false,
        };
        NavigationSnapshot { integrity: Some(integrity), age, stale, ..projected }
    }
}

} // verus!
