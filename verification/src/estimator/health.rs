//! Source health and overall integrity verdicts.
use vstd::prelude::*;

use crate::error::{KernelError, NavigationError};
use crate::event::{NavigationEvent, NavigationIntegrity, SensorHealth, SensorId};
use crate::time::{Duration, Instant};
use crate::units::Distance;

verus! {

/// Maximum number of distinct sources tracked; beyond it a new source is
/// refused rather than dropping an existing one.
pub const MAX_SENSORS: usize = 8;

/// Verdict on one source and the run that may change it.
#[derive(Clone, Copy, Debug, PartialEq, Eq, Structural)]
pub struct Record {
    /// Source.
    pub sensor: SensorId,
    /// Verdict.
    pub health: SensorHealth,
    /// Consecutive rejections while healthy, or consecutive acceptances while
    /// suspect: the run that changes the verdict.
    pub run: u8,
}

/// Record after one gate decision, and whether the verdict changed.
///
/// Against the verdict (a rejection while healthy, an acceptance while
/// suspect) the run grows, saturating; otherwise it restarts. When it reaches
/// `suspect_after` (zero disables) the verdict flips and the run restarts.
pub open spec fn noted(r: Record, accepted: bool, suspect_after: u8) -> (Record, bool) {
    let (against, towards) = match r.health {
        SensorHealth::Healthy => (!accepted, SensorHealth::Suspect),
        SensorHealth::Suspect => (accepted, SensorHealth::Healthy),
    };
    let run: int = if against {
        if r.run == 255 {
            255
        } else {
            r.run + 1
        }
    } else {
        0
    };
    if suspect_after > 0 && run >= suspect_after {
        (Record { health: towards, run: 0, ..r }, true)
    } else {
        (Record { run: run as u8, ..r }, false)
    }
}

/// A source rejected every other time does not flap: from a healthy record
/// with no run, a rejection then an acceptance leaves it healthy with no run,
/// whenever two or more rejections are needed.
pub proof fn law_alternation_does_not_flap(r: Record, suspect_after: u8)
    requires
        r.health == SensorHealth::Healthy,
        r.run == 0,
        suspect_after >= 2,
    ensures
        noted(noted(r, false, suspect_after).0, true, suspect_after) == (r, false),
        !noted(r, false, suspect_after).1,
{
}

/// `suspect_after` consecutive rejections make a healthy source suspect, and
/// the verdict changes only on the last of them.
pub proof fn law_consecutive_rejections_make_suspect(r: Record, suspect_after: u8, k: nat)
    requires
        r.health == SensorHealth::Healthy,
        r.run == 0,
        1 <= k <= suspect_after,
    ensures
        rejected_times(r, suspect_after, k).health == if k == suspect_after {
            SensorHealth::Suspect
        } else {
            SensorHealth::Healthy
        },
        k < suspect_after ==> rejected_times(r, suspect_after, k).run == k,
    decreases k,
{
    let before = rejected_times(r, suspect_after, (k - 1) as nat);
    assert(rejected_times(r, suspect_after, k) == noted(before, false, suspect_after).0);
    if k > 1 {
        law_consecutive_rejections_make_suspect(r, suspect_after, (k - 1) as nat);
        assert(before.health == SensorHealth::Healthy && before.run == k - 1);
    } else {
        assert(before == r);
    }
}

/// Record after `k` consecutive rejections.
pub open spec fn rejected_times(r: Record, suspect_after: u8, k: nat) -> Record
    decreases k,
{
    if k == 0 {
        r
    } else {
        noted(rejected_times(r, suspect_after, (k - 1) as nat), false, suspect_after).0
    }
}

/// Record after `k` consecutive acceptances.
pub open spec fn accepted_times(r: Record, suspect_after: u8, k: nat) -> Record
    decreases k,
{
    if k == 0 {
        r
    } else {
        noted(accepted_times(r, suspect_after, (k - 1) as nat), true, suspect_after).0
    }
}

/// As many consecutive acceptances as make a source suspect clear it again,
/// and the verdict changes only on the last of them.
pub proof fn law_consecutive_acceptances_clear_suspicion(r: Record, suspect_after: u8, k: nat)
    requires
        r.health == SensorHealth::Suspect,
        r.run == 0,
        1 <= k <= suspect_after,
    ensures
        accepted_times(r, suspect_after, k).health == if k == suspect_after {
            SensorHealth::Healthy
        } else {
            SensorHealth::Suspect
        },
        k < suspect_after ==> accepted_times(r, suspect_after, k).run == k,
    decreases k,
{
    let before = accepted_times(r, suspect_after, (k - 1) as nat);
    assert(accepted_times(r, suspect_after, k) == noted(before, true, suspect_after).0);
    if k > 1 {
        law_consecutive_acceptances_clear_suspicion(r, suspect_after, (k - 1) as nat);
        assert(before.health == SensorHealth::Suspect && before.run == k - 1);
    } else {
        assert(before == r);
    }
}

/// A decision that agrees with the verdict (an acceptance while healthy, a
/// rejection while suspect) keeps the verdict and restarts the run: a source
/// is judged only on an unbroken run against it.
pub proof fn law_agreement_restarts_the_run(r: Record, accepted: bool, suspect_after: u8)
    requires
        accepted == (r.health == SensorHealth::Healthy),
    ensures
        noted(r, accepted, suspect_after) == (Record { run: 0, ..r }, false),
{
}

/// Event for a verdict that changed.
pub open spec fn change_event(before: Record, after: Record, at: Instant) -> NavigationEvent {
    NavigationEvent::SensorHealthChanged {
        sensor: before.sensor,
        from: before.health,
        to: after.health,
        at,
    }
}

/// No two records for one source, and at most [`MAX_SENSORS`] of them.
pub open spec fn records_wf(records: Seq<Record>) -> bool {
    &&& records.len() <= MAX_SENSORS
    &&& forall|i: int, j: int|
        0 <= i < j < records.len() ==> records[i].sensor != records[j].sensor
}

/// Whether a source has a record.
pub open spec fn heard(records: Seq<Record>, sensor: SensorId) -> bool {
    exists|i: int| 0 <= i < records.len() && records[i].sensor == sensor
}

/// Position of a source's record.
pub open spec fn record_of(records: Seq<Record>, sensor: SensorId) -> int {
    choose|i: int| 0 <= i < records.len() && records[i].sensor == sensor
}

/// Record a decision is judged against: the source's own, or a fresh healthy
/// one for a source not yet heard.
pub open spec fn judged(records: Seq<Record>, sensor: SensorId) -> Record {
    if heard(records, sensor) {
        records[record_of(records, sensor)]
    } else {
        Record { sensor, health: SensorHealth::Healthy, run: 0 }
    }
}

/// Records after one gate decision from `sensor`: its record updated in
/// place, or a new one appended.
pub open spec fn noted_records(records: Seq<Record>, sensor: SensorId, accepted: bool, suspect_after: u8) -> Seq<
    Record,
> {
    let after = noted(judged(records, sensor), accepted, suspect_after).0;
    if heard(records, sensor) {
        records.update(record_of(records, sensor), after)
    } else {
        records.push(after)
    }
}

/// Events of one gate decision from `sensor`: the verdict change, if any.
pub open spec fn noted_events(
    records: Seq<Record>,
    sensor: SensorId,
    accepted: bool,
    suspect_after: u8,
    at: Instant,
) -> Seq<NavigationEvent> {
    let before = judged(records, sensor);
    let (after, changed) = noted(before, accepted, suspect_after);
    if changed {
        seq![change_event(before, after, at)]
    } else {
        seq![]
    }
}

/// One verdict per source.
#[derive(Debug)]
pub struct Sensors {
    records: Vec<Record>,
}

impl View for Sensors {
    type V = Seq<Record>;

    closed spec fn view(&self) -> Seq<Record> {
        self.records@
    }
}

impl Sensors {
    #[verifier::type_invariant]
    closed spec fn wf(&self) -> bool {
        records_wf(self.records@)
    }

    /// No source heard from.
    pub fn new() -> (s: Sensors)
        ensures
            s@ == Seq::<Record>::empty(),
    {
        Sensors { records: Vec::new() }
    }

    /// Verdict on a source, if heard from.
    pub fn health(&self, sensor: SensorId) -> (r: Option<SensorHealth>)
        ensures
            match r {
                Some(h) => exists|i: int|
                    0 <= i < self@.len() && self@[i].sensor == sensor && self@[i].health == h,
                None => forall|i: int| 0 <= i < self@.len() ==> self@[i].sensor != sensor,
            },
    {
        let mut i: usize = 0;
        while i < self.records.len()
            invariant
                i <= self.records@.len(),
                forall|k: int| 0 <= k < i ==> self.records@[k].sensor != sensor,
            decreases self.records@.len() - i,
        {
            if self.records[i].sensor == sensor {
                return Some(self.records[i].health);
            }
            i = i + 1;
        }
        None
    }

    /// Whether a decision from `sensor` can be recorded: it is heard already
    /// or there is room for one more source.
    pub fn has_room_for(&self, sensor: SensorId) -> (r: bool)
        ensures
            r == (heard(self@, sensor) || self@.len() < MAX_SENSORS),
    {
        self.health(sensor).is_some() || self.records.len() < MAX_SENSORS
    }

    /// Records a gate acceptance or rejection for a source and reports any
    /// verdict change.
    ///
    /// `suspect_after` consecutive rejections make a source suspect; the same
    /// number of consecutive acceptances clear it, so a source rejected half
    /// the time does not flap. Zero disables the assessment.
    ///
    /// # Errors
    ///
    /// [`KernelError::CapacityExceeded`] for a source beyond [`MAX_SENSORS`];
    /// nothing changes.
    pub fn note(
        &mut self,
        sensor: SensorId,
        accepted: bool,
        suspect_after: u8,
        at: Instant,
        events: &mut Vec<NavigationEvent>,
    ) -> (r: Result<(), NavigationError>)
        ensures
            ({
                let old_records = old(self)@;
                let fresh = Record { sensor, health: SensorHealth::Healthy, run: 0 };
                if exists|i: int| 0 <= i < old_records.len() && old_records[i].sensor == sensor {
                    &&& r is Ok
                    &&& forall|i: int|
                        0 <= i < old_records.len() && old_records[i].sensor == sensor ==> {
                            let (after, changed) = noted(old_records[i], accepted, suspect_after);
                            &&& final(self)@ == old_records.update(i, after)
                            &&& final(events)@ == if changed {
                                old(events)@.push(change_event(old_records[i], after, at))
                            } else {
                                old(events)@
                            }
                        }
                } else if old_records.len() < MAX_SENSORS {
                    let (after, changed) = noted(fresh, accepted, suspect_after);
                    &&& r is Ok
                    &&& final(self)@ == old_records.push(after)
                    &&& final(events)@ == if changed {
                        old(events)@.push(change_event(fresh, after, at))
                    } else {
                        old(events)@
                    }
                } else {
                    &&& r == Err::<(), NavigationError>(
                        NavigationError::Kernel(
                            KernelError::CapacityExceeded {
                                context: "the estimator's sources",
                                needed: (MAX_SENSORS + 1) as usize,
                                capacity: MAX_SENSORS,
                            },
                        ),
                    )
                    &&& final(self)@ == old_records
                    &&& final(events)@ == old(events)@
                }
            }),
            r is Ok <==> (heard(old(self)@, sensor) || old(self)@.len() < MAX_SENSORS),
            r is Ok ==> final(self)@ == noted_records(old(self)@, sensor, accepted, suspect_after),
            r is Ok ==> final(events)@ == old(events)@ + noted_events(
                old(self)@,
                sensor,
                accepted,
                suspect_after,
                at,
            ),
    {
        proof {
            use_type_invariant(&*self);
        }
        let mut index: usize = 0;
        while index < self.records.len() && self.records[index].sensor != sensor
            invariant
                index <= self.records@.len(),
                forall|k: int| 0 <= k < index ==> self.records@[k].sensor != sensor,
            decreases self.records@.len() - index,
        {
            index = index + 1;
        }
        let mut records: Vec<Record> = Vec::new();
        std::mem::swap(&mut records, &mut self.records);
        if index == records.len() {
            if records.len() >= MAX_SENSORS {
                self.records = records;
                return Err(
                    NavigationError::Kernel(
                        KernelError::CapacityExceeded {
                            context: "the estimator's sources",
                            needed: MAX_SENSORS + 1,
                            capacity: MAX_SENSORS,
                        },
                    ),
                );
            }
            let record = Record { sensor, health: SensorHealth::Healthy, run: 0 };
            let (after, changed) = Self::judge_record(record, accepted, suspect_after);
            if changed {
                events.push(
                    NavigationEvent::SensorHealthChanged {
                        sensor,
                        from: record.health,
                        to: after.health,
                        at,
                    },
                );
            }
            records.push(after);
            assert(records_wf(records@));
            self.records = records;
            return Ok(());
        }
        let record = records[index];
        let (after, changed) = Self::judge_record(record, accepted, suspect_after);
        if changed {
            events.push(
                NavigationEvent::SensorHealthChanged {
                    sensor: record.sensor,
                    from: record.health,
                    to: after.health,
                    at,
                },
            );
        }
        let ghost before = records@;
        records.set(index, after);
        proof {
            assert(records@ == before.update(index as int, after));
            assert forall|i: int|
                0 <= i < before.len() && before[i].sensor == sensor implies i == index by {
                if i != index {
                    assert(before[i].sensor != before[index as int].sensor);
                }
            }
            assert(records_wf(records@));
        }
        self.records = records;
        Ok(())
    }

    fn judge_record(r: Record, accepted: bool, suspect_after: u8) -> (out: (Record, bool))
        ensures
            out == noted(r, accepted, suspect_after),
    {
        let (against, towards) = match r.health {
            SensorHealth::Healthy => (!accepted, SensorHealth::Suspect),
            SensorHealth::Suspect => (accepted, SensorHealth::Healthy),
        };
        let run: u8 = if against {
            if r.run == 255 {
                255
            } else {
                r.run + 1
            }
        } else {
            0
        };
        if suspect_after > 0 && run >= suspect_after {
            (Record { health: towards, run: 0, ..r }, true)
        } else {
            (Record { run, ..r }, false)
        }
    }
}

/// Vessel limits on overall integrity.
#[derive(Clone, Copy, Debug, PartialEq, Eq)]
pub struct IntegrityLimits {
    /// Largest one-sigma semi-major axis of the horizontal error.
    pub alert_limit: Distance,
    /// Longest time without a position fix.
    pub max_unaided: Duration,
}

/// Overall integrity: exceeded beyond the alert limit, nominal if fixed
/// within the unaided limit, else dead reckoning.
pub open spec fn assess_spec(
    semi_major: Distance,
    last_fix: Option<Instant>,
    now: Instant,
    limits: IntegrityLimits,
) -> NavigationIntegrity {
    if semi_major@ > limits.alert_limit@ {
        NavigationIntegrity::Exceeded
    } else if last_fix matches Some(fix) && fix@ <= now@ && now@ - fix@ <= limits.max_unaided@ {
        NavigationIntegrity::Nominal
    } else {
        NavigationIntegrity::DeadReckoning
    }
}

/// Integrity verdict for a belief with one-sigma semi-major axis
/// `semi_major`, given the time the position was last fixed by an absolute
/// observation.
pub fn assess(
    semi_major: Distance,
    last_fix: Option<Instant>,
    now: Instant,
    limits: &IntegrityLimits,
) -> (r: NavigationIntegrity)
    ensures
        r == assess_spec(semi_major, last_fix, now, *limits),
{
    if semi_major.millimetres > limits.alert_limit.millimetres {
        return NavigationIntegrity::Exceeded;
    }
    let aided = match last_fix {
        Some(fix) => match now.checked_duration_since(fix) {
            Some(since) => since.nanos <= limits.max_unaided.nanos,
            None => false,
        },
        None => false,
    };
    if aided {
        NavigationIntegrity::Nominal
    } else {
        NavigationIntegrity::DeadReckoning
    }
}

} // verus!
