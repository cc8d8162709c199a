//! Recent beliefs, kept for late observations.
use vstd::prelude::*;

use crate::time::Instant;

verus! {

/// Number of distinct instants kept.
///
/// A late observation can be folded in only if the history reaches its time.
/// Beliefs at one instant share an entry: at 10 Hz the history covers 1.6 s, at
/// 1 Hz 16 s.
pub const MAX_HISTORY: usize = 16;

/// Whether the beliefs are in strictly increasing time order.
pub open spec fn in_time_order<T>(entries: Seq<(Instant, T)>) -> bool {
    forall|i: int, j: int| 0 <= i < j < entries.len() ==> entries[i].0@ < entries[j].0@
}

/// The history after making a belief current: it replaces the current one if
/// not later, else it is appended, the oldest evicted when full.
pub open spec fn recorded<T>(entries: Seq<(Instant, T)>, at: Instant, state: T) -> Seq<(Instant, T)> {
    if at@ <= entries.last().0@ {
        entries.update(entries.len() - 1, (at, state))
    } else if entries.len() == MAX_HISTORY {
        entries.subrange(1, entries.len() as int).push((at, state))
    } else {
        entries.push((at, state))
    }
}

/// Beliefs at the last [`MAX_HISTORY`] distinct instants, oldest first, last
/// is current. Never empty.
#[derive(Debug)]
pub struct History<T: Copy> {
    entries: Vec<(Instant, T)>,
}

impl<T: Copy> View for History<T> {
    type V = Seq<(Instant, T)>;

    closed spec fn view(&self) -> Seq<(Instant, T)> {
        self.entries@
    }
}

impl<T: Copy> History<T> {
    #[verifier::type_invariant]
    closed spec fn bounded(&self) -> bool {
        1 <= self.entries@.len() <= MAX_HISTORY
    }

    /// Number of beliefs held, between 1 and [`MAX_HISTORY`].
    pub fn len(&self) -> (r: usize)
        ensures
            r == self@.len(),
            1 <= r <= MAX_HISTORY,
    {
        proof {
            use_type_invariant(self);
        }
        self.entries.len()
    }

    /// History with one belief.
    pub fn starting_with(at: Instant, state: T) -> (h: History<T>)
        ensures
            h@ == seq![(at, state)],
    {
        let mut entries: Vec<(Instant, T)> = Vec::new();
        entries.push((at, state));
        History { entries }
    }

    /// Current belief and its time.
    pub fn current(&self) -> (r: (Instant, T))
        ensures
            r == self@.last(),
            self@.len() >= 1,
    {
        proof {
            use_type_invariant(self);
        }
        self.entries[self.entries.len() - 1]
    }

    /// All beliefs, oldest first.
    pub fn entries(&self) -> (r: &Vec<(Instant, T)>)
        ensures
            r@ == self@,
    {
        &self.entries
    }

    /// Makes a belief current: replaces the current one at the same instant,
    /// otherwise appends, evicting the oldest when full.
    ///
    /// An earlier belief is a caller error and still replaces the current one,
    /// since the history must end with the current belief.
    pub fn record(&mut self, at: Instant, state: T)
        ensures
            final(self)@ == recorded(old(self)@, at, state),
            final(self)@.last() == (at, state),
            in_time_order(old(self)@) && old(self)@.last().0@ <= at@ ==> in_time_order(final(self)@),
    {
        proof {
            use_type_invariant(&*self);
        }
        let ghost before = self.entries@;
        let mut entries: Vec<(Instant, T)> = Vec::new();
        entries.push((at, state));
        std::mem::swap(&mut entries, &mut self.entries);
        let len = entries.len();
        let current_at = entries[len - 1].0;
        if at.nanos <= current_at.nanos {
            entries.set(len - 1, (at, state));
        } else {
            if len == MAX_HISTORY {
                entries.remove(0);
                assert(entries@ == before.subrange(1, before.len() as int));
            }
            entries.push((at, state));
        }
        self.entries = entries;
    }

    /// Clears all but this belief.
    pub fn restart_with(&mut self, at: Instant, state: T)
        ensures
            final(self)@ == seq![(at, state)],
    {
        let mut entries: Vec<(Instant, T)> = Vec::new();
        entries.push((at, state));
        self.entries = entries;
    }

    /// Index of the last belief at or before `moment`, from which the beliefs
    /// run to the current one; `None` if the history does not reach that far.
    pub fn reaching(&self, moment: Instant) -> (r: Option<usize>)
        ensures
            match r {
                Some(start) => {
                    &&& start < self@.len()
                    &&& self@[start as int].0@ <= moment@
                    &&& forall|j: int| start < j < self@.len() ==> self@[j].0@ > moment@
                },
                None => forall|j: int| 0 <= j < self@.len() ==> self@[j].0@ > moment@,
            },
    {
        let mut i: usize = self.entries.len();
        while i > 0
            invariant
                i <= self.entries@.len(),
                forall|j: int| i <= j < self.entries@.len() ==> self.entries@[j].0@ > moment@,
            decreases i,
        {
            if self.entries[i - 1].0.nanos <= moment.nanos {
                return Some(i - 1);
            }
            i = i - 1;
        }
        None
    }
}

} // verus!
