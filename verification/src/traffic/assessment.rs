//! Collision assessment: the risk of an encounter against the vessel's CPA
//! policy, and the picture of all tracked targets.
//!
//! The kinematics of an encounter (range, bearing, relative motion, CPA and
//! bow crossing) are a spherical and trigonometric computation made by the
//! caller into an [`EncounterGeometry`]; this module judges it.
use vstd::prelude::*;

use crate::error::{KernelError, NavigationError};
use crate::event::{EventList, TargetId};
use crate::snapshot::NavigationSnapshot;
use crate::time::{Duration, Instant};
use crate::turning::RateOfTurn;
use crate::units::{Distance, Speed, TrueBearing, TrueCourse};

use super::{Traffic, TrafficEvent};

verus! {

/// CPA and TCPA limits: vessel settings.
#[derive(Clone, Copy, Debug, PartialEq, Eq)]
pub struct CpaPolicy {
    cpa_limit: Distance,
    tcpa_limit: Duration,
}

impl CpaPolicy {
    #[verifier::type_invariant]
    closed spec fn not_negative(&self) -> bool {
        self.cpa_limit@ >= 0
    }

    /// CPA limit.
    pub closed spec fn spec_cpa_limit(self) -> Distance {
        self.cpa_limit
    }

    /// TCPA limit.
    pub closed spec fn spec_tcpa_limit(self) -> Duration {
        self.tcpa_limit
    }

    /// A CPA within `cpa_limit` is dangerous; a dangerous CPA with TCPA beyond
    /// `tcpa_limit` is developing, not yet an alarm.
    ///
    /// # Errors
    ///
    /// [`KernelError::OutOfRange`] for a negative CPA limit.
    pub fn new(cpa_limit: Distance, tcpa_limit: Duration) -> (r: Result<CpaPolicy, NavigationError>)
        ensures
            match r {
                Ok(p) => cpa_limit@ >= 0 && p.spec_cpa_limit() == cpa_limit && p.spec_tcpa_limit()
                    == tcpa_limit,
                Err(e) => cpa_limit@ < 0 && e matches NavigationError::Kernel(
                    KernelError::OutOfRange { .. },
                ),
            },
    {
        if cpa_limit.millimetres < 0 {
            return Err(
                NavigationError::Kernel(
                    KernelError::OutOfRange {
                        parameter: "CPA limit",
                        value: cpa_limit.millimetres,
                        min: 0,
                        max: i64::MAX,
                    },
                ),
            );
        }
        Ok(CpaPolicy { cpa_limit, tcpa_limit })
    }

    /// CPA limit.
    pub fn cpa_limit(&self) -> (r: Distance)
        ensures
            r == self.spec_cpa_limit(),
            r@ >= 0,
    {
        proof {
            use_type_invariant(self);
        }
        self.cpa_limit
    }

    /// TCPA limit; beyond it a dangerous approach is developing, not an alarm.
    pub fn tcpa_limit(&self) -> (r: Duration)
        ensures
            r == self.spec_tcpa_limit(),
    {
        self.tcpa_limit
    }
}

/// Risk level of an encounter, in order of increasing concern.
#[derive(Clone, Copy, Debug, PartialEq, Eq, Hash, Structural)]
pub enum CollisionRisk {
    /// Range opening, or no relative motion: CPA is in the past.
    Opening,
    /// Closing, CPA outside the limit.
    Passing,
    /// Closing, CPA inside the limit, TCPA beyond the limit: monitor.
    Developing,
    /// Closing, CPA and TCPA inside the limits: alarm.
    Dangerous,
}

/// Place of a risk in the order of concern.
pub open spec fn rank(r: CollisionRisk) -> int {
    match r {
        CollisionRisk::Opening => 0,
        CollisionRisk::Passing => 1,
        CollisionRisk::Developing => 2,
        CollisionRisk::Dangerous => 3,
    }
}

impl CollisionRisk {
    /// Place in the order of concern, from 0 for [`CollisionRisk::Opening`].
    pub fn level(&self) -> (r: u8)
        ensures
            r == rank(*self),
    {
        match self {
            CollisionRisk::Opening => 0,
            CollisionRisk::Passing => 1,
            CollisionRisk::Developing => 2,
            CollisionRisk::Dangerous => 3,
        }
    }

    /// Whether this risk is at least `other`.
    pub fn is_at_least(&self, other: CollisionRisk) -> (r: bool)
        ensures
            r == (rank(*self) >= rank(other)),
    {
        self.level() >= other.level()
    }
}

/// Closest point of approach ahead.
#[derive(Clone, Copy, Debug, PartialEq, Eq)]
pub struct Cpa {
    /// Distance at CPA.
    pub distance: Distance,
    /// Time to CPA.
    pub time_to_go: Duration,
    /// Bearing of the target at CPA.
    pub bearing: TrueBearing,
}

/// Kinematics of one encounter, as computed from own motion, the contact and
/// the target's motion.
#[derive(Clone, Copy, Debug, PartialEq, Eq)]
pub struct EncounterGeometry {
    /// Current range.
    pub range: Distance,
    /// Current bearing.
    pub bearing: TrueBearing,
    /// Relative course of the target.
    pub relative_course: TrueCourse,
    /// Relative speed of the target.
    pub relative_speed: Speed,
    /// Bearing rate, positive drawing right.
    pub bearing_drift: RateOfTurn,
    /// CPA, if the range is closing.
    pub cpa: Option<Cpa>,
    /// Bow crossing range, if the target crosses ahead.
    pub bow_crossing: Option<Distance>,
}

/// Risk of an encounter with `cpa` against the limits.
pub open spec fn risk_of(cpa: Option<Cpa>, cpa_limit: Distance, tcpa_limit: Duration) -> CollisionRisk {
    match cpa {
        None => CollisionRisk::Opening,
        Some(c) => if c.distance@ > cpa_limit@ {
            CollisionRisk::Passing
        } else if c.time_to_go@ > tcpa_limit@ {
            CollisionRisk::Developing
        } else {
            CollisionRisk::Dangerous
        },
    }
}

/// Risk grows as the approach closes: an opening target is no risk; a CPA
/// no further and no later is never judged less risky; an encounter is
/// dangerous exactly when its CPA is within both limits; and wider limits
/// never judge an encounter less risky.
pub proof fn law_risk_grows_as_the_approach_closes(
    far: Cpa,
    near: Cpa,
    cpa_limit: Distance,
    tcpa_limit: Duration,
    wider_cpa: Distance,
    wider_tcpa: Duration,
)
    requires
        near.distance@ <= far.distance@,
        near.time_to_go@ <= far.time_to_go@,
        cpa_limit@ <= wider_cpa@,
        tcpa_limit@ <= wider_tcpa@,
    ensures
        risk_of(None, cpa_limit, tcpa_limit) == CollisionRisk::Opening,
        rank(risk_of(Some(near), cpa_limit, tcpa_limit)) >= rank(risk_of(Some(far), cpa_limit, tcpa_limit)),
        (risk_of(Some(near), cpa_limit, tcpa_limit) == CollisionRisk::Dangerous) <==> (near.distance@
            <= cpa_limit@ && near.time_to_go@ <= tcpa_limit@),
        rank(risk_of(Some(near), wider_cpa, wider_tcpa)) >= rank(risk_of(Some(near), cpa_limit, tcpa_limit)),
        rank(risk_of(Some(near), cpa_limit, tcpa_limit)) >= 1,
{
}

/// Assessed encounter.
#[derive(Clone, Copy, Debug, PartialEq, Eq)]
pub struct CollisionAssessment {
    geometry: EncounterGeometry,
    risk: CollisionRisk,
}

/// Assesses one encounter against the policy.
///
/// # Errors
///
/// [`KernelError::OutOfRange`] for a negative range.
pub fn assess(geometry: EncounterGeometry, policy: &CpaPolicy) -> (r: Result<
    CollisionAssessment,
    NavigationError,
>)
    ensures
        match r {
            Ok(a) => geometry.range@ >= 0 && a.spec_geometry() == geometry && a.spec_risk()
                == risk_of(geometry.cpa, policy.spec_cpa_limit(), policy.spec_tcpa_limit()),
            Err(e) => geometry.range@ < 0 && e matches NavigationError::Kernel(
                KernelError::OutOfRange { .. },
            ),
        },
{
    if geometry.range.millimetres < 0 {
        return Err(
            NavigationError::Kernel(
                KernelError::OutOfRange {
                    parameter: "range",
                    value: geometry.range.millimetres,
                    min: 0,
                    max: i64::MAX,
                },
            ),
        );
    }
    let cpa_limit = policy.cpa_limit();
    let tcpa_limit = policy.tcpa_limit();
    let risk = match geometry.cpa {
        None => CollisionRisk::Opening,
        Some(c) => {
            if c.distance.millimetres > cpa_limit.millimetres {
                CollisionRisk::Passing
            } else if c.time_to_go.nanos > tcpa_limit.nanos {
                CollisionRisk::Developing
            } else {
                CollisionRisk::Dangerous
            }
        },
    };
    Ok(CollisionAssessment { geometry, risk })
}

impl CollisionAssessment {
    /// Kinematics of the encounter.
    pub closed spec fn spec_geometry(self) -> EncounterGeometry {
        self.geometry
    }

    /// Risk against the policy.
    pub closed spec fn spec_risk(self) -> CollisionRisk {
        self.risk
    }

    /// Current range.
    pub fn range(&self) -> (r: Distance)
        ensures
            r == self.spec_geometry().range,
    {
        self.geometry.range
    }

    /// Current bearing.
    pub fn bearing(&self) -> (r: TrueBearing)
        ensures
            r == self.spec_geometry().bearing,
    {
        self.geometry.bearing
    }

    /// Relative course of the target (direction of its radar echo trail).
    pub fn relative_course(&self) -> (r: TrueCourse)
        ensures
            r == self.spec_geometry().relative_course,
    {
        self.geometry.relative_course
    }

    /// Relative speed of the target.
    pub fn relative_speed(&self) -> (r: Speed)
        ensures
            r == self.spec_geometry().relative_speed,
    {
        self.geometry.relative_speed
    }

    /// Bearing rate, positive drawing right.
    pub fn bearing_drift(&self) -> (r: RateOfTurn)
        ensures
            r == self.spec_geometry().bearing_drift,
    {
        self.geometry.bearing_drift
    }

    /// Closest point of approach, if the range is closing.
    pub fn cpa(&self) -> (r: Option<Cpa>)
        ensures
            r == self.spec_geometry().cpa,
    {
        self.geometry.cpa
    }

    /// CPA distance, if ahead.
    pub fn cpa_distance(&self) -> (r: Option<Distance>)
        ensures
            r == match self.spec_geometry().cpa {
                Some(c) => Some(c.distance),
                None => None,
            },
    {
        match self.geometry.cpa {
            Some(c) => Some(c.distance),
            None => None,
        }
    }

    /// TCPA, if ahead.
    pub fn tcpa(&self) -> (r: Option<Duration>)
        ensures
            r == tcpa_of(*self),
    {
        match self.geometry.cpa {
            Some(c) => Some(c.time_to_go),
            None => None,
        }
    }

    /// Bearing at CPA, if ahead.
    pub fn bearing_at_cpa(&self) -> (r: Option<TrueBearing>)
        ensures
            r == match self.spec_geometry().cpa {
                Some(c) => Some(c.bearing),
                None => None,
            },
    {
        match self.geometry.cpa {
            Some(c) => Some(c.bearing),
            None => None,
        }
    }

    /// Bow crossing range; `None` if the target will not cross ahead.
    pub fn bow_crossing(&self) -> (r: Option<Distance>)
        ensures
            r == self.spec_geometry().bow_crossing,
    {
        self.geometry.bow_crossing
    }

    /// Risk against the policy.
    pub fn risk(&self) -> (r: CollisionRisk)
        ensures
            r == self.spec_risk(),
    {
        self.risk
    }
}

/// TCPA of an assessment, if ahead.
pub open spec fn tcpa_of(a: CollisionAssessment) -> Option<Duration> {
    match a.spec_geometry().cpa {
        Some(c) => Some(c.time_to_go),
        None => None,
    }
}

/// TCPA for ordering: none sorts as the longest.
pub open spec fn tcpa_key(a: CollisionAssessment) -> int {
    match tcpa_of(a) {
        Some(t) => t@,
        None => u64::MAX as int,
    }
}

/// Whether `a` is strictly more dangerous than `b`: higher risk, or equal
/// risk and an earlier CPA.
pub open spec fn more_dangerous(a: CollisionAssessment, b: CollisionAssessment) -> bool {
    rank(a.spec_risk()) > rank(b.spec_risk()) || (rank(a.spec_risk()) == rank(b.spec_risk())
        && tcpa_key(a) < tcpa_key(b))
}

/// One target's assessment.
#[derive(Clone, Copy, Debug, PartialEq, Eq)]
pub struct TargetAssessment {
    /// Target.
    pub target: TargetId,
    /// Encounter with own ship.
    pub assessment: CollisionAssessment,
}

/// Assessments of the first `n` tracks that had one, in order.
pub open spec fn assessed(
    targets: Seq<TargetId>,
    assessments: Seq<Result<Option<CollisionAssessment>, NavigationError>>,
    n: int,
) -> Seq<TargetAssessment>
    decreases n,
{
    if n <= 0 {
        Seq::empty()
    } else {
        let before = assessed(targets, assessments, n - 1);
        match assessments[n - 1] {
            Ok(Some(a)) => before.push(TargetAssessment { target: targets[n - 1], assessment: a }),
            _ => before,
        }
    }
}

/// Alarms for the first `n` tracks: one for each dangerous encounter, in
/// order.
pub open spec fn alarms(
    targets: Seq<TargetId>,
    assessments: Seq<Result<Option<CollisionAssessment>, NavigationError>>,
    at: Instant,
    n: int,
) -> Seq<TrafficEvent>
    decreases n,
{
    if n <= 0 {
        Seq::empty()
    } else {
        let before = alarms(targets, assessments, at, n - 1);
        match assessments[n - 1] {
            Ok(Some(a)) => if a.spec_risk() == CollisionRisk::Dangerous && a.spec_geometry().cpa is Some {
                before.push(
                    TrafficEvent::CpaAlarm {
                        target: targets[n - 1],
                        cpa: a.spec_geometry().cpa.unwrap().distance,
                        tcpa: a.spec_geometry().cpa.unwrap().time_to_go,
                        at,
                    },
                )
            } else {
                before
            },
            _ => before,
        }
    }
}

/// The first failure among the first `n` assessments, in track order.
pub open spec fn first_failure(
    assessments: Seq<Result<Option<CollisionAssessment>, NavigationError>>,
    n: int,
) -> Option<NavigationError>
    decreases n,
{
    if n <= 0 {
        None
    } else {
        match first_failure(assessments, n - 1) {
            Some(e) => Some(e),
            None => match assessments[n - 1] {
                Err(e) => Some(e),
                Ok(_) => None,
            },
        }
    }
}

/// A failure found among the first `k` assessments stays the first among
/// more of them.
proof fn lemma_first_failure_stays(
    assessments: Seq<Result<Option<CollisionAssessment>, NavigationError>>,
    k: int,
    m: int,
)
    requires
        0 <= k <= m,
        first_failure(assessments, k) is Some,
    ensures
        first_failure(assessments, m) == first_failure(assessments, k),
    decreases m - k,
{
    if m > k {
        lemma_first_failure_stays(assessments, k, m - 1);
    }
}

/// Assessments whose risk is at least `least`, in order.
pub open spec fn at_least_spec(targets: Seq<TargetAssessment>, least: CollisionRisk, n: int) -> Seq<
    TargetAssessment,
>
    decreases n,
{
    if n <= 0 {
        Seq::empty()
    } else {
        let before = at_least_spec(targets, least, n - 1);
        if rank(targets[n - 1].assessment.spec_risk()) >= rank(least) {
            before.push(targets[n - 1])
        } else {
            before
        }
    }
}

/// All tracked targets assessed against own ship at one instant.
#[derive(Clone, Debug)]
pub struct CollisionPicture {
    at: Instant,
    targets: Vec<TargetAssessment>,
}

impl CollisionPicture {
    /// Time of the picture.
    pub closed spec fn spec_at(&self) -> Instant {
        self.at
    }

    /// Assessments, in order of first detection.
    pub closed spec fn spec_targets(&self) -> Seq<TargetAssessment> {
        self.targets@
    }

    /// Time of the picture.
    pub fn at(&self) -> (r: Instant)
        ensures
            r == self.spec_at(),
    {
        self.at
    }

    /// Assessments, in order of first detection.
    pub fn targets(&self) -> (r: &Vec<TargetAssessment>)
        ensures
            r@ == self.spec_targets(),
    {
        &self.targets
    }

    /// Number of assessed targets.
    pub fn len(&self) -> (r: usize)
        ensures
            r == self.spec_targets().len(),
    {
        self.targets.len()
    }

    /// Whether no target was assessed.
    pub fn is_empty(&self) -> (r: bool)
        ensures
            r == (self.spec_targets().len() == 0),
    {
        self.targets.len() == 0
    }

    /// Assessment for one target, if present: the first for it.
    pub fn target(&self, target: TargetId) -> (r: Option<TargetAssessment>)
        ensures
            match r {
                Some(t) => exists|i: int|
                    0 <= i < self.spec_targets().len() && self.spec_targets()[i] == t && t.target
                        == target && forall|j: int|
                        0 <= j < i ==> #[trigger] self.spec_targets()[j].target != target,
                None => forall|i: int|
                    0 <= i < self.spec_targets().len() ==> #[trigger] self.spec_targets()[i].target
                        != target,
            },
    {
        let mut i: usize = 0;
        while i < self.targets.len()
            invariant
                i <= self.targets@.len(),
                forall|j: int| 0 <= j < i ==> #[trigger] self.targets@[j].target != target,
            decreases self.targets@.len() - i,
        {
            if self.targets[i].target == target {
                return Some(self.targets[i]);
            }
            i = i + 1;
        }
        None
    }

    /// Most dangerous target: highest risk, then earliest CPA; of equals, the
    /// last. `None` if empty.
    pub fn most_dangerous(&self) -> (r: Option<TargetAssessment>)
        ensures
            match r {
                Some(t) => exists|i: int|
                    {
                        &&& 0 <= i < self.spec_targets().len()
                        &&& self.spec_targets()[i] == t
                        &&& forall|j: int|
                            0 <= j < self.spec_targets().len() ==> !more_dangerous(
                                #[trigger] self.spec_targets()[j].assessment,
                                t.assessment,
                            )
                        &&& forall|j: int|
                            i < j < self.spec_targets().len() ==> more_dangerous(
                                t.assessment,
                                #[trigger] self.spec_targets()[j].assessment,
                            )
                    },
                None => self.spec_targets().len() == 0,
            },
    {
        if self.targets.len() == 0 {
            return None;
        }
        let mut best: usize = 0;
        let mut i: usize = 1;
        while i < self.targets.len()
            invariant
                1 <= i <= self.targets@.len(),
                best < i,
                forall|j: int|
                    0 <= j < i ==> !more_dangerous(
                        #[trigger] self.targets@[j].assessment,
                        self.targets@[best as int].assessment,
                    ),
                forall|j: int|
                    best < j < i ==> more_dangerous(
                        self.targets@[best as int].assessment,
                        #[trigger] self.targets@[j].assessment,
                    ),
            decreases self.targets@.len() - i,
        {
            let current = self.targets[best].assessment;
            let candidate = self.targets[i].assessment;
            let current_level = current.risk().level();
            let candidate_level = candidate.risk().level();
            let current_key = match current.tcpa() {
                Some(t) => t.nanos,
                None => u64::MAX,
            };
            let candidate_key = match candidate.tcpa() {
                Some(t) => t.nanos,
                None => u64::MAX,
            };
            let above = current_level > candidate_level || (current_level == candidate_level
                && current_key < candidate_key);
            if !above {
                best = i;
            }
            i = i + 1;
        }
        let t = self.targets[best];
        proof {
            assert(self.spec_targets()[best as int] == t);
        }
        Some(t)
    }

    /// Targets whose risk is at least `least`, in order of first detection.
    pub fn at_least(&self, least: CollisionRisk) -> (r: Vec<TargetAssessment>)
        ensures
            r@ == at_least_spec(self.spec_targets(), least, self.spec_targets().len() as int),
    {
        let mut out: Vec<TargetAssessment> = Vec::new();
        let mut i: usize = 0;
        while i < self.targets.len()
            invariant
                i <= self.targets@.len(),
                out@ == at_least_spec(self.targets@, least, i as int),
            decreases self.targets@.len() - i,
        {
            if self.targets[i].assessment.risk().is_at_least(least) {
                out.push(self.targets[i]);
            }
            i = i + 1;
        }
        out
    }
}

/// Assesses every tracked target against own ship from the snapshot,
/// reporting [`TrafficEvent::CpaAlarm`] for each dangerous one.
///
/// `assessments` holds, for each track of `traffic` in order, the outcome of
/// assessing it against own ship at the snapshot time: its encounter, `None`
/// for a track without motion yet (left out of the picture), or the failure
/// to assess it. Pure: alarms are repeated on every call while the condition
/// holds.
///
/// # Errors
///
/// [`KernelError::Missing`] if the snapshot has no position or no ground
/// track; else the first failure among the tracks, in their order.
pub fn assess_traffic(
    state: &NavigationSnapshot,
    traffic: &Traffic,
    assessments: &Vec<Result<Option<CollisionAssessment>, NavigationError>>,
) -> (r: Result<(CollisionPicture, EventList<TrafficEvent>), NavigationError>)
    requires
        assessments@.len() == traffic@.tracks.len(),
    ensures
        ({
            let targets = traffic@.tracks.map_values(|t: super::track::TrackState| t.target);
            let n = assessments@.len() as int;
            match r {
                Ok((picture, events)) => {
                    &&& state.position matches Some((_, now))
                    &&& state.ground_track is Some
                    &&& first_failure(assessments@, n) is None
                    &&& picture.spec_at() == now
                    &&& picture.spec_targets() == assessed(targets, assessments@, n)
                    &&& events@ == alarms(targets, assessments@, now, n)
                },
                Err(e) => if state.position is None {
                    e == NavigationError::Kernel(KernelError::Missing { what: "the vessel's position" })
                } else if state.ground_track is None {
                    e == NavigationError::Kernel(
                        KernelError::Missing { what: "the vessel's course and speed over the ground" },
                    )
                } else {
                    first_failure(assessments@, n) == Some(e)
                },
            }
        }),
{
    let now = match state.position {
        Some((_, at)) => at,
        None => {
            return Err(NavigationError::Kernel(KernelError::Missing { what: "the vessel's position" }));
        },
    };
    if state.ground_track.is_none() {
        return Err(
            NavigationError::Kernel(
                KernelError::Missing { what: "the vessel's course and speed over the ground" },
            ),
        );
    }
    let tracks = traffic.tracks();
    let ghost targets = traffic@.tracks.map_values(|t: super::track::TrackState| t.target);
    let mut picked: Vec<TargetAssessment> = Vec::new();
    let mut events: Vec<TrafficEvent> = Vec::new();
    let mut i: usize = 0;
    while i < assessments.len()
        invariant
            i <= assessments@.len(),
            assessments@.len() == tracks@.len(),
            super::views(tracks@) == traffic@.tracks,
            targets == traffic@.tracks.map_values(|t: super::track::TrackState| t.target),
            picked@ == assessed(targets, assessments@, i as int),
            events@ == alarms(targets, assessments@, now, i as int),
            first_failure(assessments@, i as int) is None,
            state.position is Some,
            state.ground_track is Some,
        decreases assessments@.len() - i,
    {
        let target = tracks[i].target();
        proof {
            assert(super::views(tracks@)[i as int] == tracks@[i as int]@);
            assert(targets[i as int] == target);
        }
        match assessments[i] {
            Err(e) => {
                proof {
                    assert(first_failure(assessments@, i + 1) == Some(e));
                    lemma_first_failure_stays(assessments@, i + 1, assessments@.len() as int);
                }
                return Err(e);
            },
            Ok(None) => {},
            Ok(Some(a)) => {
                if a.risk() == CollisionRisk::Dangerous {
                    match a.cpa() {
                        Some(c) => {
                            events.push(
                                TrafficEvent::CpaAlarm {
                                    target,
                                    cpa: c.distance,
                                    tcpa: c.time_to_go,
                                    at: now,
                                },
                            );
                        },
                        None => {},
                    }
                }
                picked.push(TargetAssessment { target, assessment: a });
            },
        }
        i = i + 1;
    }
    Ok((CollisionPicture { at: now, targets: picked }, events))
}

} // verus!
