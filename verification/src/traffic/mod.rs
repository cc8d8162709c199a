//! Traffic picture: the tracks of other vessels, their acquisition and loss.
//!
//! [`Traffic`] takes observations ([`Traffic::ingest`]) and time
//! ([`Traffic::sweep`]); it keeps at most its capacity of tracks, one per
//! target, and reports what happened as [`TrafficEvent`]s. The distance a
//! target would have jumped between fixes is a spherical computation made by
//! the caller.
use vstd::prelude::*;

pub mod assessment;
pub mod avoidance;
pub mod track;

use crate::error::{KernelError, NavigationError};
use crate::event::{EventList, RejectionReason, TargetId};
use crate::gnss_intake::{exceeds_speed, implied_speed, implied_speed_spec, too_fast};
use crate::time::{Duration, Instant};
use crate::position::Position;
use crate::snapshot::GroundTrack;
use crate::units::{Distance, Speed, TrueCourse};

use track::{with_fix, TargetObservation, TargetTrack, TrackState, TrackStatus};

verus! {

/// Default picture capacity.
pub const MAX_TARGETS: usize = 32;

/// Behaviour for a new target when the picture is full.
#[derive(Clone, Copy, Debug, PartialEq, Eq, Hash, Structural)]
pub enum WhenFull {
    /// Reject the newcomer with [`KernelError::CapacityExceeded`]; the picture
    /// is unchanged.
    Refuse,
    /// Evict the least recently observed target, reporting
    /// [`TrafficEvent::TargetEvicted`], and track the newcomer.
    EvictStalest,
}

/// Traffic picture events.
#[derive(Clone, Copy, Debug, PartialEq, Eq, Structural)]
pub enum TrafficEvent {
    /// The track reached the fixes needed to acquire.
    TargetAcquired { target: TargetId, at: Instant },
    /// The track was dropped, silent for longer than the loss timeout.
    TargetLost { target: TargetId, last_seen: Instant },
    /// The track was dropped to make room for `for_target`.
    TargetEvicted { target: TargetId, last_seen: Instant, for_target: TargetId },
    /// An observation was not used.
    ObservationRejected { target: TargetId, reason: RejectionReason, at: Instant },
    /// CPA within the CPA limit and TCPA within the TCPA limit; reported on
    /// every assessment that finds it.
    CpaAlarm { target: TargetId, cpa: Distance, tcpa: Duration, at: Instant },
}

impl TrafficEvent {
    /// Time of the event: of the observation, the assessment, or the target's
    /// last observation for a loss or an eviction.
    pub fn at(&self) -> (r: Instant)
        ensures
            r == match *self {
                TrafficEvent::TargetAcquired { at, .. } => at,
                TrafficEvent::TargetLost { last_seen, .. } => last_seen,
                TrafficEvent::TargetEvicted { last_seen, .. } => last_seen,
                TrafficEvent::ObservationRejected { at, .. } => at,
                TrafficEvent::CpaAlarm { at, .. } => at,
            },
    {
        match self {
            TrafficEvent::TargetAcquired { at, .. } => *at,
            TrafficEvent::TargetLost { last_seen, .. } => *last_seen,
            TrafficEvent::TargetEvicted { last_seen, .. } => *last_seen,
            TrafficEvent::ObservationRejected { at, .. } => *at,
            TrafficEvent::CpaAlarm { at, .. } => *at,
        }
    }

    /// Target the event refers to.
    pub fn target(&self) -> (r: TargetId)
        ensures
            r == match *self {
                TrafficEvent::TargetAcquired { target, .. } => target,
                TrafficEvent::TargetLost { target, .. } => target,
                TrafficEvent::TargetEvicted { target, .. } => target,
                TrafficEvent::ObservationRejected { target, .. } => target,
                TrafficEvent::CpaAlarm { target, .. } => target,
            },
    {
        match self {
            TrafficEvent::TargetAcquired { target, .. } => *target,
            TrafficEvent::TargetLost { target, .. } => *target,
            TrafficEvent::TargetEvicted { target, .. } => *target,
            TrafficEvent::ObservationRejected { target, .. } => *target,
            TrafficEvent::CpaAlarm { target, .. } => *target,
        }
    }
}

/// Track acquisition and loss thresholds: vessel settings.
#[derive(Clone, Copy, Debug, PartialEq, Eq)]
pub struct TrackingPolicy {
    fixes_to_acquire: u8,
    stale_after: Duration,
    lost_after: Duration,
    max_speed: Speed,
    when_full: WhenFull,
}

/// Tracking thresholds, as the contracts see them.
#[derive(Clone, Copy, Debug, PartialEq, Eq)]
pub struct TrackingSettings {
    /// Observations before acquisition.
    pub fixes_to_acquire: u8,
    /// Time after which a track is stale in the view.
    pub stale_after: Duration,
    /// Time after which a track is dropped.
    pub lost_after: Duration,
    /// Maximum plausible target speed.
    pub max_speed: Speed,
    /// Full-picture behaviour.
    pub when_full: WhenFull,
}

impl View for TrackingPolicy {
    type V = TrackingSettings;

    closed spec fn view(&self) -> TrackingSettings {
        TrackingSettings {
            fixes_to_acquire: self.fixes_to_acquire,
            stale_after: self.stale_after,
            lost_after: self.lost_after,
            max_speed: self.max_speed,
            when_full: self.when_full,
        }
    }
}

fn clamp_to_i64(x: u64) -> (r: i64)
    ensures
        r == if x > i64::MAX {
            i64::MAX as int
        } else {
            x as int
        },
{
    if x > i64::MAX as u64 {
        i64::MAX
    } else {
        x as i64
    }
}

impl TrackingPolicy {
    #[verifier::type_invariant]
    closed spec fn valid(&self) -> bool {
        &&& self.fixes_to_acquire >= 1
        &&& self.stale_after@ <= self.lost_after@
        &&& self.max_speed@ > 0
    }

    /// Policy from four thresholds; a full picture refuses newcomers.
    ///
    /// # Errors
    ///
    /// [`KernelError::OutOfRange`] for zero fixes, `lost_after <
    /// stale_after`, or a non-positive speed.
    pub fn new(fixes_to_acquire: u8, stale_after: Duration, lost_after: Duration, max_speed: Speed) -> (r:
        Result<TrackingPolicy, NavigationError>)
        ensures
            match r {
                Ok(p) => fixes_to_acquire >= 1 && stale_after@ <= lost_after@ && max_speed@ > 0
                    && p@ == (TrackingSettings {
                    fixes_to_acquire,
                    stale_after,
                    lost_after,
                    max_speed,
                    when_full: WhenFull::Refuse,
                }),
                Err(e) => !(fixes_to_acquire >= 1 && stale_after@ <= lost_after@ && max_speed@ > 0)
                    && e matches NavigationError::Kernel(KernelError::OutOfRange { .. }),
            },
    {
        if fixes_to_acquire < 1 {
            return Err(
                NavigationError::Kernel(
                    KernelError::OutOfRange {
                        parameter: "fixes to acquire",
                        value: fixes_to_acquire as i64,
                        min: 1,
                        max: 255,
                    },
                ),
            );
        }
        if lost_after.nanos < stale_after.nanos {
            return Err(
                NavigationError::Kernel(
                    KernelError::OutOfRange {
                        parameter: "lost after",
                        value: clamp_to_i64(lost_after.nanos),
                        min: clamp_to_i64(stale_after.nanos),
                        max: i64::MAX,
                    },
                ),
            );
        }
        if max_speed.millimetres_per_hour <= 0 {
            return Err(
                NavigationError::Kernel(
                    KernelError::OutOfRange {
                        parameter: "max speed",
                        value: max_speed.millimetres_per_hour,
                        min: 1,
                        max: i64::MAX,
                    },
                ),
            );
        }
        Ok(
            TrackingPolicy {
                fixes_to_acquire,
                stale_after,
                lost_after,
                max_speed,
                when_full: WhenFull::Refuse,
            },
        )
    }

    /// Sets the full-picture behaviour.
    pub fn when_full(self, when_full: WhenFull) -> (p: TrackingPolicy)
        ensures
            p@ == (TrackingSettings { when_full, ..self@ }),
    {
        proof {
            use_type_invariant(&self);
        }
        TrackingPolicy { when_full, ..self }
    }

    /// Observations needed to acquire.
    pub fn fixes_to_acquire(&self) -> (r: u8)
        ensures
            r == self@.fixes_to_acquire,
            r >= 1,
    {
        proof {
            use_type_invariant(self);
        }
        self.fixes_to_acquire
    }

    /// Stale timeout.
    pub fn stale_after(&self) -> (r: Duration)
        ensures
            r == self@.stale_after,
    {
        self.stale_after
    }

    /// Lost timeout.
    pub fn lost_after(&self) -> (r: Duration)
        ensures
            r == self@.lost_after,
    {
        self.lost_after
    }

    /// Maximum plausible target speed.
    pub fn max_speed(&self) -> (r: Speed)
        ensures
            r == self@.max_speed,
    {
        self.max_speed
    }

    /// Full-picture behaviour.
    pub fn on_full(&self) -> (r: WhenFull)
        ensures
            r == self@.when_full,
    {
        self.when_full
    }
}

/// Views of tracks.
pub open spec fn views(tracks: Seq<TargetTrack>) -> Seq<TrackState> {
    tracks.map_values(|t: TargetTrack| t@)
}

/// Whether no two tracks are of one target.
pub open spec fn targets_distinct(tracks: Seq<TrackState>) -> bool {
    forall|i: int, j: int| 0 <= i < j < tracks.len() ==> tracks[i].target != tracks[j].target
}

/// Index of the first track of the earliest last fix among the first `n`.
pub open spec fn stalest(tracks: Seq<TrackState>, n: int) -> int
    decreases n,
{
    if n <= 1 {
        0
    } else {
        let best = stalest(tracks, n - 1);
        if tracks[n - 1].fixes.last().1@ < tracks[best].fixes.last().1@ {
            n - 1
        } else {
            best
        }
    }
}

/// Age of a track at `now`; zero if `now` is before its last fix.
pub open spec fn age_at(t: TrackState, now: Instant) -> int {
    if now@ >= t.fixes.last().1@ {
        now@ - t.fixes.last().1@
    } else {
        0
    }
}

/// Tracks kept by a sweep at `now`, and the losses reported, over the first
/// `n` tracks.
pub open spec fn swept(tracks: Seq<TrackState>, now: Instant, lost_after: Duration, n: int) -> (
    Seq<TrackState>,
    Seq<TrafficEvent>,
)
    decreases n,
{
    if n <= 0 {
        (Seq::empty(), Seq::empty())
    } else {
        let (kept, lost) = swept(tracks, now, lost_after, n - 1);
        let t = tracks[n - 1];
        if age_at(t, now) > lost_after@ {
            (
                kept,
                lost.push(TrafficEvent::TargetLost { target: t.target, last_seen: t.fixes.last().1 }),
            )
        } else {
            (kept.push(t), lost)
        }
    }
}

/// A sweep keeps exactly the tracks heard from within the loss timeout, in
/// their order, and reports every other one lost: nothing is dropped early,
/// nothing stale survives, and every track is accounted for once.
pub proof fn law_sweep_keeps_the_recent(tracks: Seq<TrackState>, now: Instant, lost_after: Duration, n: int)
    requires
        0 <= n <= tracks.len(),
    ensures
        swept(tracks, now, lost_after, n).0.len() + swept(tracks, now, lost_after, n).1.len() == n,
        forall|i: int|
            0 <= i < swept(tracks, now, lost_after, n).0.len() ==> age_at(
                #[trigger] swept(tracks, now, lost_after, n).0[i],
                now,
            ) <= lost_after@,
        forall|i: int|
            0 <= i < swept(tracks, now, lost_after, n).1.len() ==> (#[trigger] swept(
                tracks,
                now,
                lost_after,
                n,
            ).1[i]) is TargetLost,
        forall|i: int|
            0 <= i < n && age_at(tracks[i], now) <= lost_after@ ==> swept(
                tracks,
                now,
                lost_after,
                n,
            ).0.contains(#[trigger] tracks[i]),
    decreases n,
{
    if n > 0 {
        law_sweep_keeps_the_recent(tracks, now, lost_after, n - 1);
        let (kept, lost) = swept(tracks, now, lost_after, n - 1);
        let t = tracks[n - 1];
        if age_at(t, now) <= lost_after@ {
            assert(kept.push(t)[kept.len() as int] == t);
            assert forall|i: int|
                0 <= i < n && age_at(tracks[i], now) <= lost_after@ implies kept.push(t).contains(
                    tracks[i],
                ) by {
                if i < n - 1 {
                    let k = choose|k: int| 0 <= k < kept.len() && kept[k] == tracks[i];
                    assert(kept.push(t)[k] == tracks[i]);
                }
            }
        }
    }
}

/// Whether a jump of `jump` in `elapsed` nanoseconds implies a speed above
/// `max_speed`; no jump is never rejected.
pub open spec fn jump_rejected(jump: Result<Distance, NavigationError>, elapsed: int, max_speed: int) -> bool {
    match jump {
        Ok(d) => too_fast(d@, elapsed, max_speed),
        Err(_) => false,
    }
}

/// Traffic picture as the contracts see it.
pub struct TrafficState {
    /// Policy.
    pub policy: TrackingSettings,
    /// Capacity.
    pub capacity: usize,
    /// Tracks, in order of first detection.
    pub tracks: Seq<TrackState>,
}

/// Where a track is at an instant, as extrapolated from its fixes.
#[derive(Clone, Copy, Debug, PartialEq, Eq)]
pub struct TargetKinematics {
    /// Extrapolated position; `None` if it cannot be extrapolated.
    pub position: Option<Position>,
    /// Fitted course and speed over ground, if the track has motion.
    pub motion: Option<GroundTrack>,
}

/// One target in the view.
#[derive(Clone, Copy, Debug, PartialEq, Eq)]
pub struct TargetView {
    /// Target.
    pub target: TargetId,
    /// Whether acquired.
    pub status: TrackStatus,
    /// Extrapolated current position.
    pub position: Position,
    /// Course and speed over ground, if known.
    pub motion: Option<GroundTrack>,
    /// Reported heading, if any.
    pub heading: Option<TrueCourse>,
    /// Time since the last observation.
    pub age: Duration,
    /// Whether older than the stale timeout.
    pub stale: bool,
}

/// What the view shows of one track.
pub open spec fn target_view(t: TrackState, k: TargetKinematics, now: Instant, stale_after: Duration) -> TargetView {
    let age = age_at(t, now);
    TargetView {
        target: t.target,
        status: t.status,
        position: match k.position {
            Some(p) => p,
            None => t.fixes.last().0,
        },
        motion: k.motion,
        heading: t.heading,
        age: Duration { nanos: age as u64 },
        stale: age > stale_after@,
    }
}

/// Traffic picture at one instant.
#[derive(Clone, Debug)]
pub struct TrafficView {
    at: Instant,
    targets: Vec<TargetView>,
}

/// Targets of a view that are not stale, in order.
pub open spec fn current_spec(targets: Seq<TargetView>, n: int) -> Seq<TargetView>
    decreases n,
{
    if n <= 0 {
        Seq::empty()
    } else if targets[n - 1].stale {
        current_spec(targets, n - 1)
    } else {
        current_spec(targets, n - 1).push(targets[n - 1])
    }
}

impl TrafficView {
    /// Time of the view.
    pub closed spec fn spec_at(&self) -> Instant {
        self.at
    }

    /// Targets, in order of first detection.
    pub closed spec fn spec_targets(&self) -> Seq<TargetView> {
        self.targets@
    }

    /// Time of the view.
    pub fn at(&self) -> (r: Instant)
        ensures
            r == self.spec_at(),
    {
        self.at
    }

    /// Targets, in order of first detection.
    pub fn targets(&self) -> (r: &Vec<TargetView>)
        ensures
            r@ == self.spec_targets(),
    {
        &self.targets
    }

    /// Number of targets.
    pub fn len(&self) -> (r: usize)
        ensures
            r == self.spec_targets().len(),
    {
        self.targets.len()
    }

    /// Whether empty.
    pub fn is_empty(&self) -> (r: bool)
        ensures
            r == (self.spec_targets().len() == 0),
    {
        self.targets.len() == 0
    }

    /// Entry for a target, if present: the first for it.
    pub fn target(&self, target: TargetId) -> (r: Option<TargetView>)
        ensures
            match r {
                Some(v) => exists|i: int|
                    0 <= i < self.spec_targets().len() && self.spec_targets()[i] == v && v.target
                        == target && forall|j: int|
                        0 <= j < i ==> #[trigger] self.spec_targets()[j].target != target,
                None => forall|i: int|
                    0 <= i < self.spec_targets().len() ==> #[trigger] self.spec_targets()[i].target
                        != target,
            },
    {
        let mut i: usize = 0;
        while i < self.targets.len()
            invariant
                i <= self.targets@.len(),
                forall|j: int| 0 <= j < i ==> #[trigger] self.targets@[j].target != target,
            decreases self.targets@.len() - i,
        {
            if self.targets[i].target == target {
                return Some(self.targets[i]);
            }
            i = i + 1;
        }
        None
    }

    /// Targets that are not stale, in order.
    pub fn current(&self) -> (r: Vec<TargetView>)
        ensures
            r@ == current_spec(self.spec_targets(), self.spec_targets().len() as int),
    {
        let mut out: Vec<TargetView> = Vec::new();
        let mut i: usize = 0;
        while i < self.targets.len()
            invariant
                i <= self.targets@.len(),
                out@ == current_spec(self.targets@, i as int),
            decreases self.targets@.len() - i,
        {
            if !self.targets[i].stale {
                out.push(self.targets[i]);
            }
            i = i + 1;
        }
        out
    }
}

/// Traffic picture: up to its capacity of tracked targets.
#[derive(Debug)]
pub struct Traffic {
    policy: TrackingPolicy,
    capacity: usize,
    tracks: Vec<TargetTrack>,
}

impl View for Traffic {
    type V = TrafficState;

    closed spec fn view(&self) -> TrafficState {
        TrafficState { policy: self.policy@, capacity: self.capacity, tracks: views(self.tracks@) }
    }
}

impl Traffic {
    #[verifier::type_invariant]
    closed spec fn within_capacity(&self) -> bool {
        &&& self.tracks@.len() <= self.capacity
        &&& targets_distinct(views(self.tracks@))
    }

    /// Empty picture with [`MAX_TARGETS`] capacity.
    pub fn new(policy: TrackingPolicy) -> (t: Traffic)
        ensures
            t@.policy == policy@,
            t@.capacity == MAX_TARGETS,
            t@.tracks.len() == 0,
    {
        Traffic { policy, capacity: MAX_TARGETS, tracks: Vec::new() }
    }

    /// Empty picture with room for `capacity` targets.
    pub fn with_capacity(policy: TrackingPolicy, capacity: usize) -> (t: Traffic)
        ensures
            t@.policy == policy@,
            t@.capacity == capacity,
            t@.tracks.len() == 0,
    {
        Traffic { policy, capacity, tracks: Vec::new() }
    }

    /// Policy.
    pub fn policy(&self) -> (r: TrackingPolicy)
        ensures
            r@ == self@.policy,
    {
        self.policy
    }

    /// Capacity.
    pub fn capacity(&self) -> (r: usize)
        ensures
            r == self@.capacity,
    {
        self.capacity
    }

    /// Number of tracks, including those still acquiring.
    pub fn len(&self) -> (r: usize)
        ensures
            r == self@.tracks.len(),
            r <= self@.capacity,
    {
        proof {
            use_type_invariant(self);
        }
        self.tracks.len()
    }

    /// Whether empty.
    pub fn is_empty(&self) -> (r: bool)
        ensures
            r == (self@.tracks.len() == 0),
    {
        self.tracks.len() == 0
    }

    /// Tracks, in order of first detection.
    pub fn tracks(&self) -> (r: &Vec<TargetTrack>)
        ensures
            views(r@) == self@.tracks,
    {
        &self.tracks
    }

    /// Index of the track of `target`, if present.
    pub fn position_of(&self, target: TargetId) -> (r: Option<usize>)
        ensures
            match r {
                Some(i) => i < self@.tracks.len() && self@.tracks[i as int].target == target,
                None => forall|i: int| 0 <= i < self@.tracks.len() ==> self@.tracks[i].target != target,
            },
    {
        let mut i: usize = 0;
        while i < self.tracks.len()
            invariant
                i <= self.tracks@.len(),
                forall|k: int| 0 <= k < i ==> #[trigger] views(self.tracks@)[k].target != target,
            decreases self.tracks@.len() - i,
        {
            if self.tracks[i].target() == target {
                return Some(i);
            }
            i = i + 1;
        }
        None
    }

    /// Track of `target`, if present.
    pub fn track(&self, target: TargetId) -> (r: Option<&TargetTrack>)
        ensures
            match r {
                Some(t) => exists|i: int|
                    0 <= i < self@.tracks.len() && self@.tracks[i] == t@ && t@.target == target,
                None => forall|i: int| 0 <= i < self@.tracks.len() ==> self@.tracks[i].target != target,
            },
    {
        match self.position_of(target) {
            Some(i) => {
                proof {
                    assert(views(self.tracks@)[i as int] == self.tracks@[i as int]@);
                }
                Some(&self.tracks[i])
            },
            None => None,
        }
    }

    /// The picture at `now`: each target's age, whether stale, and where it
    /// is.
    ///
    /// `kinematics` holds, for each track in order, its position extrapolated
    /// to `now` and its fitted motion; a track whose position cannot be
    /// extrapolated (across a pole) is shown at its last observed position.
    pub fn view_at(&self, now: Instant, kinematics: &Vec<TargetKinematics>) -> (r: TrafficView)
        requires
            kinematics@.len() == self@.tracks.len(),
        ensures
            r.spec_at() == now,
            r.spec_targets().len() == self@.tracks.len(),
            forall|i: int|
                0 <= i < self@.tracks.len() ==> #[trigger] r.spec_targets()[i] == target_view(
                    self@.tracks[i],
                    kinematics@[i],
                    now,
                    self@.policy.stale_after,
                ),
    {
        proof {
            use_type_invariant(self);
        }
        let stale_after = self.policy.stale_after();
        let mut targets: Vec<TargetView> = Vec::new();
        let mut i: usize = 0;
        while i < self.tracks.len()
            invariant
                i <= self.tracks@.len(),
                kinematics@.len() == self.tracks@.len(),
                stale_after == self@.policy.stale_after,
                targets@.len() == i,
                forall|k: int|
                    0 <= k < i ==> #[trigger] targets@[k] == target_view(
                        views(self.tracks@)[k],
                        kinematics@[k],
                        now,
                        stale_after,
                    ),
            decreases self.tracks@.len() - i,
        {
            let track = &self.tracks[i];
            let age = track.age(now);
            let k = kinematics[i];
            let position = match k.position {
                Some(p) => p,
                None => track.last_position(),
            };
            targets.push(
                TargetView {
                    target: track.target(),
                    status: track.status(),
                    position,
                    motion: k.motion,
                    heading: track.heading(),
                    age,
                    stale: age.nanos > stale_after.nanos,
                },
            );
            proof {
                assert(views(self.tracks@)[i as int] == self.tracks@[i as int]@);
            }
            i = i + 1;
        }
        TrafficView { at: now, targets }
    }

    /// Ingests an observation.
    ///
    /// A new target starts a track; a known target's track is extended unless
    /// the observation is not newer than its last fix, or the jump from that
    /// fix (`jump`, the great-circle distance between the two positions, or
    /// the failure to compute it) implies a speed above the policy's, in which
    /// case it is rejected with [`TrafficEvent::ObservationRejected`]. `jump`
    /// is not read for a new target or an observation out of order.
    /// [`TrafficEvent::TargetAcquired`] is reported when the track reaches the
    /// policy's fixes. A new target in a full picture is refused or admitted
    /// by evicting the least recently observed target, as the policy says.
    ///
    /// # Errors
    ///
    /// - [`KernelError::CapacityExceeded`] for a new target in a full picture
    ///   that cannot make room; the picture is unchanged.
    /// - The failure in `jump`, for a newer observation of a known target; the
    ///   picture is unchanged.
    #[verifier::rlimit(80)]
    pub fn ingest(&mut self, observation: TargetObservation, jump: Result<Distance, NavigationError>) -> (r: Result<
        EventList<TrafficEvent>,
        NavigationError,
    >)
        ensures
            ({
                let old_state = old(self)@;
                let ts = old_state.tracks;
                let policy = old_state.policy;
                &&& final(self)@.policy == policy
                &&& final(self)@.capacity == old_state.capacity
                &&& if exists|i: int| 0 <= i < ts.len() && ts[i].target == observation.target {
                    forall|i: int|
                        0 <= i < ts.len() && ts[i].target == observation.target ==> {
                            let t = ts[i];
                            let last = t.fixes.last().1;
                            &&& if observation.at@ <= last@ {
                                &&& r is Ok
                                &&& final(self)@.tracks == ts
                                &&& r.unwrap()@ == seq![
                                    TrafficEvent::ObservationRejected {
                                        target: observation.target,
                                        reason: RejectionReason::OutOfOrder,
                                        at: observation.at,
                                    },
                                ]
                            } else if jump is Err {
                                &&& final(self)@.tracks == ts
                                &&& r == Err::<EventList<TrafficEvent>, NavigationError>(jump->Err_0)
                            } else if jump_rejected(jump, observation.at@ - last@, policy.max_speed@) {
                                &&& r is Ok
                                &&& final(self)@.tracks == ts
                                &&& r.unwrap()@ == seq![
                                    TrafficEvent::ObservationRejected {
                                        target: observation.target,
                                        reason: RejectionReason::ImplausibleJump {
                                            implied_speed: Speed {
                                                millimetres_per_hour: implied_speed_spec(
                                                    jump->Ok_0@,
                                                    observation.at@ - last@,
                                                ) as i64,
                                            },
                                        },
                                        at: observation.at,
                                    },
                                ]
                            } else {
                                let fixes = with_fix(t.fixes, (observation.position, observation.at));
                                let acquired = t.status == TrackStatus::Acquiring && fixes.len()
                                    >= policy.fixes_to_acquire;
                                let u = final(self)@.tracks[i];
                                &&& r is Ok
                                &&& final(self)@.tracks.len() == ts.len()
                                &&& forall|j: int|
                                    0 <= j < ts.len() && j != i ==> final(self)@.tracks[j] == ts[j]
                                &&& u.target == t.target
                                &&& u.fixes == fixes
                                &&& u.status == if acquired {
                                    TrackStatus::Tracking
                                } else {
                                    t.status
                                }
                                &&& u.reported == if observation.ground_track is Some {
                                    observation.ground_track
                                } else {
                                    t.reported
                                }
                                &&& u.heading == if observation.heading is Some {
                                    observation.heading
                                } else {
                                    t.heading
                                }
                                &&& r.unwrap()@ == if acquired {
                                    seq![
                                        TrafficEvent::TargetAcquired {
                                            target: observation.target,
                                            at: observation.at,
                                        },
                                    ]
                                } else {
                                    Seq::empty()
                                }
                            }
                        }
                } else if ts.len() < old_state.capacity {
                    let n = final(self)@.tracks.last();
                    let acquire = policy.fixes_to_acquire <= 1;
                    &&& r is Ok
                    &&& final(self)@.tracks.drop_last() == ts
                    &&& n.target == observation.target
                    &&& n.fixes == seq![(observation.position, observation.at)]
                    &&& n.reported == observation.ground_track
                    &&& n.heading == observation.heading
                    &&& n.status == if acquire {
                        TrackStatus::Tracking
                    } else {
                        TrackStatus::Acquiring
                    }
                    &&& r.unwrap()@ == if acquire {
                        seq![TrafficEvent::TargetAcquired { target: observation.target, at: observation.at }]
                    } else {
                        Seq::empty()
                    }
                } else if policy.when_full == WhenFull::EvictStalest && ts.len() > 0 {
                    let s = stalest(ts, ts.len() as int);
                    let rest = ts.remove(s);
                    let n = final(self)@.tracks.last();
                    let acquire = policy.fixes_to_acquire <= 1;
                    let evicted = TrafficEvent::TargetEvicted {
                        target: ts[s].target,
                        last_seen: ts[s].fixes.last().1,
                        for_target: observation.target,
                    };
                    &&& r is Ok
                    &&& final(self)@.tracks.drop_last() == rest
                    &&& n.target == observation.target
                    &&& n.fixes == seq![(observation.position, observation.at)]
                    &&& n.status == if acquire {
                        TrackStatus::Tracking
                    } else {
                        TrackStatus::Acquiring
                    }
                    &&& r.unwrap()@ == if acquire {
                        seq![
                            evicted,
                            TrafficEvent::TargetAcquired { target: observation.target, at: observation.at },
                        ]
                    } else {
                        seq![evicted]
                    }
                } else {
                    &&& r matches Err(NavigationError::Kernel(KernelError::CapacityExceeded { .. }))
                    &&& final(self)@.tracks == ts
                }
            }),
    {
        proof {
            use_type_invariant(&*self);
        }
        let mut events: Vec<TrafficEvent> = Vec::new();
        let found = self.position_of(observation.target);
        let ghost ts = views(self.tracks@);
        match found {
            None => {
                let mut tracks: Vec<TargetTrack> = Vec::new();
                std::mem::swap(&mut tracks, &mut self.tracks);
                if tracks.len() >= self.capacity {
                    if self.policy.on_full() == WhenFull::EvictStalest && tracks.len() > 0 {
                        let s = Self::stalest_index(&tracks);
                        let evicted = tracks.remove(s);
                        proof {
                            assert(views(tracks@) =~= ts.remove(s as int));
                            assert forall|a: int, b: int|
                                0 <= a < b < views(tracks@).len() implies views(tracks@)[a].target
                                != views(tracks@)[b].target by {
                                let a0 = if a < s {
                                    a
                                } else {
                                    a + 1
                                };
                                let b0 = if b < s {
                                    b
                                } else {
                                    b + 1
                                };
                                assert(views(tracks@)[a] == ts[a0]);
                                assert(views(tracks@)[b] == ts[b0]);
                            }
                        }
                        events.push(
                            TrafficEvent::TargetEvicted {
                                target: evicted.target(),
                                last_seen: evicted.last_seen(),
                                for_target: observation.target,
                            },
                        );
                    } else {
                        self.tracks = tracks;
                        return Err(
                            NavigationError::Kernel(
                                KernelError::CapacityExceeded {
                                    context: "the traffic picture",
                                    needed: if self.capacity < usize::MAX {
                                        self.capacity + 1
                                    } else {
                                        usize::MAX
                                    },
                                    capacity: self.capacity,
                                },
                            ),
                        );
                    }
                }
                let ghost before_push = views(tracks@);
                let mut track = TargetTrack::started_by(&observation);
                if self.policy.fixes_to_acquire() <= 1 {
                    track.acquire();
                    events.push(
                        TrafficEvent::TargetAcquired { target: observation.target, at: observation.at },
                    );
                }
                tracks.push(track);
                proof {
                    assert(views(tracks@).drop_last() =~= before_push);
                    assert(views(tracks@).last() == track@);
                    assert forall|a: int, b: int|
                        0 <= a < b < views(tracks@).len() implies views(tracks@)[a].target
                        != views(tracks@)[b].target by {
                        if b == views(tracks@).len() - 1 {
                            assert(views(tracks@)[a] == before_push[a]);
                            if before_push.len() < ts.len() {
                                let s = stalest(ts, ts.len() as int);
                                let a0 = if a < s {
                                    a
                                } else {
                                    a + 1
                                };
                                assert(before_push[a] == ts[a0]);
                            } else {
                                assert(before_push[a] == ts[a]);
                            }
                        } else {
                            assert(views(tracks@)[a] == before_push[a]);
                            assert(views(tracks@)[b] == before_push[b]);
                        }
                    }
                }
                self.tracks = tracks;
                Ok(events)
            },
            Some(i) => {
                let last = self.tracks[i].last_seen();
                if observation.at.nanos <= last.nanos {
                    events.push(
                        TrafficEvent::ObservationRejected {
                            target: observation.target,
                            reason: RejectionReason::OutOfOrder,
                            at: observation.at,
                        },
                    );
                    proof {
                        assert forall|k: int|
                            0 <= k < ts.len() && ts[k].target == observation.target implies k
                            == i by {
                            if k != i {
                                assert(ts[k].target != ts[i as int].target);
                            }
                        }
                    }
                    return Ok(events);
                }
                let elapsed = Duration { nanos: (observation.at.nanos as i128 - last.nanos as i128) as u64 };
                let d = match jump {
                    Ok(d) => d,
                    Err(e) => {
                        proof {
                            assert forall|k: int|
                                0 <= k < ts.len() && ts[k].target == observation.target implies k
                                == i by {
                                if k != i {
                                    assert(ts[k].target != ts[i as int].target);
                                }
                            }
                        }
                        return Err(e);
                    },
                };
                {
                    if exceeds_speed(d, elapsed, self.policy.max_speed()) {
                        if let Some(v) = implied_speed(d, elapsed) {
                            events.push(
                                TrafficEvent::ObservationRejected {
                                    target: observation.target,
                                    reason: RejectionReason::ImplausibleJump { implied_speed: v },
                                    at: observation.at,
                                },
                            );
                            proof {
                                assert forall|k: int|
                                    0 <= k < ts.len() && ts[k].target == observation.target implies k
                                    == i by {
                                    if k != i {
                                        assert(ts[k].target != ts[i as int].target);
                                    }
                                }
                            }
                            return Ok(events);
                        }
                    }
                }
                let mut tracks: Vec<TargetTrack> = Vec::new();
                std::mem::swap(&mut tracks, &mut self.tracks);
                let mut track = tracks.remove(i);
                let ghost removed = views(tracks@);
                track.extend(&observation);
                let needed = self.policy.fixes_to_acquire() as usize;
                let acquired = track.status() == TrackStatus::Acquiring && track.fix_count() >= needed;
                if acquired {
                    track.acquire();
                    events.push(
                        TrafficEvent::TargetAcquired { target: observation.target, at: observation.at },
                    );
                }
                tracks.insert(i, track);
                proof {
                    assert(removed =~= ts.remove(i as int));
                    assert forall|j: int|
                        0 <= j < ts.len() && j != i implies views(tracks@)[j] == ts[j] by {
                        if j < i {
                            assert(views(tracks@)[j] == removed[j]);
                        } else {
                            assert(views(tracks@)[j] == removed[j - 1]);
                        }
                    }
                    assert(views(tracks@)[i as int] == track@);
                    assert forall|k: int|
                        0 <= k < ts.len() && ts[k].target == observation.target implies k == i by {
                        if k != i {
                            assert(ts[k].target != ts[i as int].target);
                        }
                    }
                    assert forall|a: int, b: int|
                        0 <= a < b < views(tracks@).len() implies views(tracks@)[a].target
                        != views(tracks@)[b].target by {
                        assert(views(tracks@)[a].target == ts[a].target);
                        assert(views(tracks@)[b].target == ts[b].target);
                    }
                }
                self.tracks = tracks;
                Ok(events)
            },
        }
    }

    /// Index of the first track with the earliest last fix.
    fn stalest_index(tracks: &Vec<TargetTrack>) -> (r: usize)
        requires
            tracks@.len() > 0,
        ensures
            r == stalest(views(tracks@), tracks@.len() as int),
            r < tracks@.len(),
    {
        let mut best: usize = 0;
        let mut i: usize = 1;
        while i < tracks.len()
            invariant
                1 <= i <= tracks@.len(),
                best < i,
                best == stalest(views(tracks@), i as int),
            decreases tracks@.len() - i,
        {
            if tracks[i].last_seen().nanos < tracks[best].last_seen().nanos {
                best = i;
            }
            i = i + 1;
        }
        best
    }

    /// Drops tracks not observed within the loss timeout, reporting
    /// [`TrafficEvent::TargetLost`] for each, in order.
    #[verifier::rlimit(80)]
    pub fn sweep(&mut self, now: Instant) -> (events: EventList<TrafficEvent>)
        ensures
            ({
                let (kept, lost) = swept(
                    old(self)@.tracks,
                    now,
                    old(self)@.policy.lost_after,
                    old(self)@.tracks.len() as int,
                );
                &&& final(self)@.tracks == kept
                &&& events@ == lost
                &&& final(self)@.policy == old(self)@.policy
                &&& final(self)@.capacity == old(self)@.capacity
            }),
    {
        proof {
            use_type_invariant(&*self);
        }
        let lost_after = self.policy.lost_after();
        let mut old_tracks: Vec<TargetTrack> = Vec::new();
        std::mem::swap(&mut old_tracks, &mut self.tracks);
        let ghost ts = views(old_tracks@);
        let ghost n = ts.len();
        let mut kept: Vec<TargetTrack> = Vec::new();
        let mut events: Vec<TrafficEvent> = Vec::new();
        let mut k: usize = 0;
        while old_tracks.len() > 0
            invariant
                n == ts.len(),
                n <= self.capacity,
                kept@.len() <= k,
                k + old_tracks@.len() == n,
                views(old_tracks@) == ts.subrange(k as int, n as int),
                (views(kept@), events@) == swept(ts, now, lost_after, k as int),
                targets_distinct(ts),
                targets_distinct(views(kept@)),
                forall|a: int|
                    #![trigger views(kept@)[a]]
                    0 <= a < kept@.len() ==> exists|b: int|
                        0 <= b < k && views(kept@)[a] == #[trigger] ts[b],
            decreases old_tracks@.len(),
        {
            let ghost prev = old_tracks@;
            proof {
                assert(views(prev)[0] == prev[0]@);
            }
            let track = old_tracks.remove(0);
            proof {
                assert(track@ == ts[k as int]);
                assert forall|j: int|
                    0 <= j < old_tracks@.len() implies #[trigger] views(old_tracks@)[j] == ts[k + 1 + j] by {
                    assert(views(prev)[j + 1] == prev[j + 1]@);
                }
                assert(views(old_tracks@) =~= ts.subrange(k + 1, n as int));
            }
            let age = track.age(now);
            if age.nanos > lost_after.nanos {
                events.push(TrafficEvent::TargetLost { target: track.target(), last_seen: track.last_seen() });
            } else {
                let ghost before = views(kept@);
                kept.push(track);
                proof {
                    assert(views(kept@) =~= before.push(track@));
                    assert forall|a: int|
                        #![trigger views(kept@)[a]]
                        0 <= a < kept@.len() implies exists|b: int|
                            0 <= b < k + 1 && views(kept@)[a] == #[trigger] ts[b] by {
                        if a < before.len() {
                            assert(views(kept@)[a] == before[a]);
                        } else {
                            assert(views(kept@)[a] == ts[k as int]);
                        }
                    }
                    assert forall|a: int, c: int|
                        0 <= a < c < views(kept@).len() implies views(kept@)[a].target
                        != views(kept@)[c].target by {
                        assert(views(kept@)[a] == before[a]);
                        if c < before.len() {
                            assert(views(kept@)[c] == before[c]);
                        } else {
                            let b = choose|b: int| 0 <= b < k && before[a] == #[trigger] ts[b];
                            assert(ts[b].target != ts[k as int].target);
                        }
                    }
                }
            }
            k = k + 1;
        }
        self.tracks = kept;
        events
    }
}

} // verus!
