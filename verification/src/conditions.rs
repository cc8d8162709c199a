//! Current, wind, tide and leeway models.
//!
//! - [`Constant`]: one value everywhere and always (the current from the last
//!   fix, the observed wind).
//! - [`Timetable`]: values at instants, in order; between two entries the
//!   value is interpolated by its north and east components, a trigonometric
//!   computation made by the caller from the bracketing pair.
//! - [`FixedLeeway`]: observed leeway, applied on the side the wind dictates.
use vstd::prelude::*;

use crate::environment::{Current, VesselMotion, Wind};
use crate::error::KernelError;
use crate::position::Position;
use crate::time::{Duration, Instant};
use crate::units::{wrap180_spec, Angle, Distance, HALF_CIRCLE};

verus! {

/// Model returning the same value at every place and time.
#[derive(Clone, Copy, Debug, PartialEq, Eq)]
pub struct Constant<T>(pub T);

impl Constant<Current> {
    /// The current, wherever and whenever.
    pub fn current_at(&self, position: Position, when: Instant) -> (r: Result<Current, KernelError>)
        ensures
            r == Ok::<Current, KernelError>(self.0),
    {
        Ok(self.0)
    }
}

impl Constant<Wind> {
    /// The wind, wherever and whenever.
    pub fn wind_at(&self, position: Position, when: Instant) -> (r: Result<Wind, KernelError>)
        ensures
            r == Ok::<Wind, KernelError>(self.0),
    {
        Ok(self.0)
    }
}

impl Constant<Distance> {
    /// The height of tide, wherever and whenever.
    pub fn height_of_tide(&self, position: Position, when: Instant) -> (r: Result<
        Distance,
        KernelError,
    >)
        ensures
            r == Ok::<Distance, KernelError>(self.0),
    {
        Ok(self.0)
    }
}

/// One timetable entry.
#[derive(Clone, Copy, Debug, PartialEq, Eq)]
pub struct Entry<T> {
    /// Time of the value.
    pub at: Instant,
    /// Value.
    pub value: T,
}

/// What a timetable holds at an instant within its span.
#[derive(Clone, Copy, Debug, PartialEq, Eq)]
pub enum TimetableSample<T> {
    /// An entry's value: at its instant, or at the last entry.
    Exact(T),
    /// Strictly between two consecutive entries.
    Between { before: Entry<T>, after: Entry<T>, elapsed: Duration, gap: Duration },
}

/// Whether entries are in strictly increasing time.
pub open spec fn increasing<T>(entries: Seq<Entry<T>>) -> bool {
    forall|i: int, j: int| 0 <= i < j < entries.len() ==> entries[i].at@ < entries[j].at@
}

/// Values at instants, in order of time.
#[derive(Debug)]
pub struct Timetable<T> {
    capacity: usize,
    entries: Vec<Entry<T>>,
}

/// Timetable as the contracts see it.
pub struct TimetableState<T> {
    /// Most entries it holds.
    pub capacity: usize,
    /// Entries, in order of time.
    pub entries: Seq<Entry<T>>,
}

impl<T> View for Timetable<T> {
    type V = TimetableState<T>;

    closed spec fn view(&self) -> TimetableState<T> {
        TimetableState { capacity: self.capacity, entries: self.entries@ }
    }
}

impl<T> Timetable<T> {
    #[verifier::type_invariant]
    closed spec fn ordered(&self) -> bool {
        &&& self.entries@.len() <= self.capacity
        &&& increasing(self.entries@)
    }
}

impl<T: Copy> Timetable<T> {
    /// Empty timetable for at most `capacity` entries.
    pub fn new(capacity: usize) -> (t: Timetable<T>)
        ensures
            t@.capacity == capacity,
            t@.entries.len() == 0,
    {
        Timetable { capacity, entries: Vec::new() }
    }

    /// Appends a value at `at`.
    ///
    /// # Errors
    ///
    /// - [`KernelError::TimeReversed`] if `at` is not after the last entry,
    ///   by how much it is not.
    /// - [`KernelError::CapacityExceeded`] if full.
    pub fn push(&mut self, at: Instant, value: T) -> (r: Result<(), KernelError>)
        ensures
            final(self)@.capacity == old(self)@.capacity,
            ({
                let es = old(self)@.entries;
                let reversed = es.len() > 0 && at@ <= es.last().at@;
                let full = es.len() >= old(self)@.capacity;
                match r {
                    Ok(()) => !reversed && !full && final(self)@.entries == es.push(
                        Entry { at, value },
                    ),
                    Err(e) => final(self)@.entries == es && if reversed {
                        e matches KernelError::TimeReversed { by } && by@ == es.last().at@ - at@
                    } else {
                        full && e is CapacityExceeded
                    },
                }
            }),
    {
        proof {
            use_type_invariant(&*self);
        }
        let n = self.entries.len();
        if n > 0 {
            let last = self.entries[n - 1].at;
            if at.nanos <= last.nanos {
                let by = Duration { nanos: ((last.nanos as i128) - (at.nanos as i128)) as u64 };
                return Err(KernelError::TimeReversed { by });
            }
        }
        if n >= self.capacity {
            return Err(
                KernelError::CapacityExceeded {
                    context: "a timetable",
                    needed: if self.capacity < usize::MAX {
                        self.capacity + 1
                    } else {
                        usize::MAX
                    },
                    capacity: self.capacity,
                },
            );
        }
        let ghost es = self.entries@;
        let mut entries: Vec<Entry<T>> = Vec::new();
        std::mem::swap(&mut entries, &mut self.entries);
        entries.push(Entry { at, value });
        proof {
            assert forall|i: int, j: int|
                0 <= i < j < entries@.len() implies entries@[i].at@ < entries@[j].at@ by {
                if j == es.len() && i < es.len() - 1 {
                    assert(es[i].at@ < es[es.len() - 1].at@);
                }
            }
        }
        self.entries = entries;
        Ok(())
    }

    /// Number of entries.
    pub fn len(&self) -> (r: usize)
        ensures
            r == self@.entries.len(),
    {
        self.entries.len()
    }

    /// Whether empty.
    pub fn is_empty(&self) -> (r: bool)
        ensures
            r == (self@.entries.len() == 0),
    {
        self.entries.len() == 0
    }

    /// Instants of the first and last entries; `None` if empty.
    pub fn span(&self) -> (r: Option<(Instant, Instant)>)
        ensures
            match r {
                Some((first, last)) => self@.entries.len() > 0 && first == self@.entries[0].at
                    && last == self@.entries.last().at,
                None => self@.entries.len() == 0,
            },
    {
        let n = self.entries.len();
        if n == 0 {
            None
        } else {
            Some((self.entries[0].at, self.entries[n - 1].at))
        }
    }

    /// The value at `when`: an entry's own value at its instant or at the
    /// last entry, else the two entries that bracket it and where it falls
    /// between them.
    ///
    /// # Errors
    ///
    /// [`KernelError::OutsideValidity`] if empty or `when` is outside the
    /// span: the timetable does not extend itself.
    pub fn at(&self, when: Instant) -> (r: Result<TimetableSample<T>, KernelError>)
        ensures
            ({
                let es = self@.entries;
                let inside = es.len() > 0 && es[0].at@ <= when@ <= es.last().at@;
                match r {
                    Ok(TimetableSample::Exact(v)) => inside && exists|k: int|
                        0 <= k < es.len() && es[k].at@ <= when@ && es[k].value == v && (k == es.len()
                            - 1 || es[k].at@ == when@),
                    Ok(TimetableSample::Between { before, after, elapsed, gap }) => inside && exists|
                        k: int,
                    |
                        0 <= k < es.len() - 1 && #[trigger] es[k] == before && es[k + 1] == after
                            && before.at@ < when@ < after.at@ && elapsed@ == when@ - before.at@
                            && gap@ == after.at@ - before.at@,
                    Err(e) => !inside && e is OutsideValidity,
                }
            }),
    {
        proof {
            use_type_invariant(self);
        }
        let n = self.entries.len();
        if n == 0 || when.nanos < self.entries[0].at.nanos || when.nanos > self.entries[n
            - 1].at.nanos {
            return Err(KernelError::OutsideValidity { data: "timetable" });
        }
        let mut k: usize = 0;
        while k + 1 < n && self.entries[k + 1].at.nanos <= when.nanos
            invariant
                n == self.entries@.len(),
                k < n,
                self.entries@[k as int].at@ <= when@,
            decreases n - k,
        {
            k = k + 1;
        }
        let before = self.entries[k];
        if k + 1 == n || before.at.nanos == when.nanos {
            return Ok(TimetableSample::Exact(before.value));
        }
        let after = self.entries[k + 1];
        proof {
            assert(self.entries@[k as int] == before);
            assert(self.entries@[k + 1] == after);
        }
        let elapsed = Duration { nanos: ((when.nanos as i128) - (before.at.nanos as i128)) as u64 };
        let gap = Duration { nanos: ((after.at.nanos as i128) - (before.at.nanos as i128)) as u64 };
        Ok(TimetableSample::Between { before, after, elapsed, gap })
    }
}

/// Leeway a fixed leeway model gives: its magnitude, to starboard (positive)
/// with the wind on the port side (coming from an angle to port of the
/// heading), to port with it to starboard; zero with the wind dead ahead or
/// astern, or calm.
pub open spec fn fixed_leeway_spec(magnitude: int, heading: int, wind_from: int, calm: bool) -> int {
    let relative = wrap180_spec(wind_from - heading);
    if calm || relative == 0 || relative == -HALF_CIRCLE {
        0
    } else if relative < 0 {
        magnitude
    } else {
        -magnitude
    }
}

/// Observed leeway angle, applied downwind.
#[derive(Clone, Copy, Debug, PartialEq, Eq)]
pub struct FixedLeeway(pub Angle);

impl FixedLeeway {
    /// Leeway for `motion` in `wind`.
    ///
    /// The magnitude is the model's, whatever its sign; the sign comes from the
    /// wind side: wind from port sets to starboard (positive). Wind dead ahead
    /// or astern, or calm, gives zero.
    ///
    /// # Errors
    ///
    /// [`KernelError::OutOfRange`] for a model angle whose magnitude is not
    /// representable (`i64::MIN` microdegrees).
    pub fn leeway(&self, motion: VesselMotion, wind: Wind) -> (r: Result<Angle, KernelError>)
        ensures
            match r {
                Ok(a) => self.0@ != i64::MIN && a@ == fixed_leeway_spec(
                    if self.0@ < 0 {
                        -self.0@
                    } else {
                        self.0@ as int
                    },
                    motion.heading@,
                    wind.spec_from()@,
                    wind.spec_speed()@ == 0,
                ),
                Err(e) => self.0@ == i64::MIN && e is OutOfRange,
            },
    {
        let angle = self.0.microdegrees;
        if angle == i64::MIN {
            return Err(
                KernelError::OutOfRange {
                    parameter: "leeway",
                    value: angle,
                    min: -i64::MAX,
                    max: i64::MAX,
                },
            );
        }
        let magnitude = if angle < 0 {
            -angle
        } else {
            angle
        };
        if wind.speed().millimetres_per_hour == 0 {
            return Ok(Angle { microdegrees: 0 });
        }
        let relative = motion.heading.signed_difference(wind.from());
        if relative == 0 || relative == -HALF_CIRCLE {
            Ok(Angle { microdegrees: 0 })
        } else if relative < 0 {
            Ok(Angle { microdegrees: magnitude })
        } else {
            Ok(Angle { microdegrees: -magnitude })
        }
    }
}

} // verus!
