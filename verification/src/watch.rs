//! Collision watch levels: how a target's approach is reported, as a Signal K
//! notification state.
use vstd::prelude::*;

use vstd::string::StringSliceAdditionalSpecFns;

use crate::keyed::{
    bytes, entry, key, lemma_entry_at, lemma_entry_insert, lemma_entry_remove, search,
    sorted_contexts,
};
use crate::picture::{
    category_of, law_the_navigation_state_names_the_category, Category, VesselCategory, VesselState,
};
use crate::text::same_bytes;
use crate::time::{Duration, Instant};
use crate::traffic::assessment::{tcpa_of, CollisionAssessment, CollisionRisk};
use crate::units::{Distance, Speed, TrueCourse};

verus! {

/// Severity of a target's approach, in order of increasing concern.
#[derive(Clone, Copy, Debug, PartialEq, Eq, Hash, Structural)]
pub enum Level {
    /// Nothing to report.
    Normal,
    /// Dangerous CPA, but beyond the TCPA limit: developing.
    Warn,
    /// Dangerous CPA within the TCPA limit.
    Alarm,
}

/// Level of an assessed approach: an alarm for a dangerous one, a warning for
/// a developing one whose CPA is within `horizon`, else nothing.
pub open spec fn level_of(a: CollisionAssessment, horizon: Duration) -> Level {
    match a.spec_risk() {
        CollisionRisk::Dangerous => Level::Alarm,
        CollisionRisk::Developing => match tcpa_of(a) {
            Some(t) => if t@ <= horizon@ {
                Level::Warn
            } else {
                Level::Normal
            },
            None => Level::Normal,
        },
        _ => Level::Normal,
    }
}

/// A dangerous encounter is an alarm whatever the horizon, and only a
/// dangerous one is; a warning needs a developing encounter due within the
/// horizon; and a longer horizon never lowers a target's level.
pub proof fn law_levels_follow_the_risk(a: CollisionAssessment, short: Duration, long: Duration)
    requires
        short@ <= long@,
    ensures
        (level_of(a, short) == Level::Alarm) <==> (a.spec_risk() == CollisionRisk::Dangerous),
        level_of(a, short) == Level::Warn ==> a.spec_risk() == CollisionRisk::Developing,
        level_of(a, short) == Level::Warn ==> (tcpa_of(a) matches Some(t) && t@ <= short@),
        level_of(a, short) == Level::Warn ==> level_of(a, long) == Level::Warn,
        level_of(a, long) == Level::Normal ==> level_of(a, short) == Level::Normal,
{
}

impl Level {
    /// Signal K notification state.
    pub fn state(self) -> (r: &'static str)
        ensures
            self == Level::Normal ==> r@ == "normal"@,
            self == Level::Warn ==> r@ == "warn"@,
            self == Level::Alarm ==> r@ == "alarm"@,
    {
        match self {
            Level::Normal => "normal",
            Level::Warn => "warn",
            Level::Alarm => "alarm",
        }
    }

    /// Level of an assessed approach, warning of a developing one only within
    /// `horizon`.
    pub fn of(assessment: &CollisionAssessment, horizon: Duration) -> (r: Level)
        ensures
            r == level_of(*assessment, horizon),
    {
        match assessment.risk() {
            CollisionRisk::Dangerous => Level::Alarm,
            CollisionRisk::Developing => match assessment.tcpa() {
                Some(t) => {
                    if t.nanos <= horizon.nanos {
                        Level::Warn
                    } else {
                        Level::Normal
                    }
                },
                None => Level::Normal,
            },
            _ => Level::Normal,
        }
    }
}

/// Whether a report last seen at `last_seen` is current at `now`: no older
/// than `stale`; one stamped ahead of `now` counts as current.
pub open spec fn fresh(last_seen: Option<Instant>, now: Instant, stale: Duration) -> bool {
    match last_seen {
        Some(seen) => now@ < seen@ || now@ - seen@ <= stale@,
        None => false,
    }
}

/// Whether a vessel last seen at `last_seen` is current at `now`.
pub fn is_fresh(last_seen: Option<Instant>, now: Instant, stale: Duration) -> (r: bool)
    ensures
        r == fresh(last_seen, now, stale),
{
    match last_seen {
        Some(seen) => match now.checked_duration_since(seen) {
            Some(age) => age.nanos <= stale.nanos,
            None => true,
        },
        None => false,
    }
}

/// Speed below which a vessel is taken as at rest, millimetres per hour
/// (half a knot): a receiver at rest reports a few centimetres a second of
/// noise, and a course that is noise too, or none.
pub const AT_REST: i64 = 926_000;

/// Course and speed of a vessel: at rest (north, no speed) below
/// [`AT_REST`], whatever its course; else its course and speed, if it has
/// both.
pub fn motion(vessel: &VesselState) -> (r: Option<(TrueCourse, Speed)>)
    ensures
        match vessel.speed {
            None => r is None,
            Some(speed) => if speed@ < AT_REST {
                r matches Some((course, still)) && course@ == 0 && still@ == 0
            } else {
                match vessel.course {
                    Some(course) => r == Some((course, speed)),
                    None => r is None,
                }
            },
        },
{
    match vessel.speed {
        None => None,
        Some(speed) => {
            if speed.millimetres_per_hour() < AT_REST {
                Some((TrueCourse::north(), Speed::zero()))
            } else {
                match vessel.course {
                    Some(course) => Some((course, speed)),
                    None => None,
                }
            }
        },
    }
}

/// Category under way: the vessel's own, power-driven if it says nothing,
/// `None` if it is not under way.
pub open spec fn under_way_spec(v: VesselState) -> Option<VesselCategory> {
    match category_of(v) {
        Some(Category::UnderWay(c)) => Some(c),
        Some(Category::NotUnderWay) => None,
        None => Some(VesselCategory::PowerDriven),
    }
}

/// A vessel that says nothing of herself is taken as power-driven under
/// way; one at anchor, moored or aground is not under way; a sailing or
/// fishing vessel keeps her category.
pub proof fn law_who_is_under_way(v: VesselState, state: String)
    ensures
        v.state is None && v.ship_type is None ==> under_way_spec(v) == Some(VesselCategory::PowerDriven),
        v.state == Some(state) && (key(state) == "anchored".spec_bytes() || key(state)
            == "moored".spec_bytes() || key(state) == "aground".spec_bytes()) ==> under_way_spec(v)
            is None,
        v.state == Some(state) && key(state) == "sailing".spec_bytes() ==> under_way_spec(v) == Some(
            VesselCategory::Sailing,
        ),
        v.state == Some(state) && key(state) == "fishing".spec_bytes() ==> under_way_spec(v) == Some(
            VesselCategory::Fishing,
        ),
{
    law_the_navigation_state_names_the_category(v, state);
}

/// Category under way: the vessel's own, power-driven if it says nothing,
/// `None` if it is not under way.
pub fn under_way(vessel: &VesselState) -> (r: Option<VesselCategory>)
    ensures
        r == under_way_spec(*vessel),
{
    match vessel.category() {
        Some(Category::UnderWay(c)) => Some(c),
        Some(Category::NotUnderWay) => None,
        None => Some(VesselCategory::PowerDriven),
    }
}

/// Level a target's notification stands at: the one held, else normal.
pub open spec fn standing_level(s: Seq<(String, Level)>, k: Seq<u8>) -> Level {
    match entry(s, k) {
        Some(level) => level,
        None => Level::Normal,
    }
}

/// Level of the last report for context `k` among the first `n`.
pub open spec fn last_report(round: Seq<(String, Level)>, k: Seq<u8>, n: int) -> Option<Level>
    decreases n,
{
    if n <= 0 {
        None
    } else if key(round[n - 1].0) == k {
        Some(round[n - 1].1)
    } else {
        last_report(round, k, n - 1)
    }
}

/// What stands for context `k` after a round: its last level, unless normal.
pub open spec fn stands_after(round: Seq<(String, Level)>, k: Seq<u8>) -> Option<Level> {
    match last_report(round, k, round.len() as int) {
        Some(level) => if level != Level::Normal {
            Some(level)
        } else {
            None
        },
        None => None,
    }
}

/// Contexts among the first `n` held that the round does not assess, in
/// order.
pub open spec fn unassessed(s: Seq<(String, Level)>, round: Seq<(String, Level)>, n: int) -> Seq<
    Seq<u8>,
>
    decreases n,
{
    if n <= 0 {
        seq![]
    } else if last_report(round, key(s[n - 1].0), round.len() as int) is Some {
        unassessed(s, round, n - 1)
    } else {
        unassessed(s, round, n - 1).push(key(s[n - 1].0))
    }
}

/// What an assessment round changes: for each report in turn whether its
/// level differs from the one standing, and the targets that stood above
/// normal and are no longer assessed (stale, gone or opening), by context.
#[derive(Debug)]
pub struct Notices {
    /// Per report, whether a notification of its level is due.
    pub changed: Vec<bool>,
    /// Targets whose notification returns to normal, no longer assessed.
    pub cleared: Vec<String>,
}

/// The level each target's notification stands at: only the targets above
/// normal are held, by context.
#[derive(Debug)]
pub struct Standing {
    levels: Vec<(String, Level)>,
}

impl Standing {
    #[verifier::type_invariant]
    closed spec fn well_formed(&self) -> bool {
        &&& sorted_contexts(self.levels@)
        &&& forall|i: int| 0 <= i < self.levels@.len() ==> #[trigger] self.levels@[i].1 != Level::Normal
    }

    /// The targets above normal and their levels, by increasing context.
    pub closed spec fn entries(&self) -> Seq<(String, Level)> {
        self.levels@
    }

    /// Nothing standing.
    pub fn new() -> (s: Standing)
        ensures
            s.entries().len() == 0,
    {
        Standing { levels: Vec::new() }
    }

    /// Level the notification for `context` stands at.
    pub fn level(&self, context: &str) -> (r: Level)
        ensures
            r == standing_level(self.entries(), context.spec_bytes()),
    {
        proof {
            use_type_invariant(self);
        }
        match search(&self.levels, context.as_bytes()) {
            Ok(i) => {
                proof {
                    lemma_entry_at(self.levels@, i as int);
                }
                self.levels[i].1
            },
            Err(_) => Level::Normal,
        }
    }

    /// Takes the levels of one assessment round, `(context, level)` per report
    /// in the order reported, and says which notifications are due.
    ///
    /// A report whose level differs from the one standing is due a
    /// notification; a target that stood above normal and has no report is
    /// due a return to normal. Afterwards each reported target stands at its
    /// last level if above normal, and nothing else stands.
    pub fn advance(&mut self, round: &Vec<(String, Level)>) -> (r: Notices)
        ensures
            r.changed@.len() == round@.len(),
            forall|i: int|
                0 <= i < round@.len() ==> #[trigger] r.changed@[i] == (standing_level(
                    old(self).entries(),
                    key(round@[i].0),
                ) != round@[i].1),
            r.cleared@.len() == unassessed(
                old(self).entries(),
                round@,
                old(self).entries().len() as int,
            ).len(),
            forall|j: int|
                0 <= j < r.cleared@.len() ==> key(#[trigger] r.cleared@[j]) == unassessed(
                    old(self).entries(),
                    round@,
                    old(self).entries().len() as int,
                )[j],
            forall|k: Seq<u8>| #[trigger] entry(final(self).entries(), k) == stands_after(round@, k),
    {
        proof {
            use_type_invariant(&*self);
        }
        let ghost old_levels = self.levels@;
        let mut changed: Vec<bool> = Vec::new();
        let mut i: usize = 0;
        while i < round.len()
            invariant
                sorted_contexts(self.levels@),
                self.levels@ == old_levels,
                i <= round@.len(),
                changed@.len() == i,
                forall|m: int|
                    0 <= m < i ==> #[trigger] changed@[m] == (standing_level(
                        old_levels,
                        key(round@[m].0),
                    ) != round@[m].1),
            decreases round@.len() - i,
        {
            let level = self.level(round[i].0.as_str());
            changed.push(level != round[i].1);
            i = i + 1;
        }
        let mut cleared: Vec<String> = Vec::new();
        let mut j: usize = 0;
        while j < self.levels.len()
            invariant
                self.levels@ == old_levels,
                j <= old_levels.len(),
                cleared@.len() == unassessed(old_levels, round@, j as int).len(),
                forall|m: int|
                    0 <= m < cleared@.len() ==> key(#[trigger] cleared@[m]) == unassessed(
                        old_levels,
                        round@,
                        j as int,
                    )[m],
            decreases old_levels.len() - j,
        {
            if !reported(round, bytes(&self.levels[j].0)) {
                cleared.push(self.levels[j].0.clone());
            }
            j = j + 1;
        }
        let mut levels: Vec<(String, Level)> = Vec::new();
        let mut n: usize = 0;
        while n < round.len()
            invariant
                n <= round@.len(),
                sorted_contexts(levels@),
                forall|m: int| 0 <= m < levels@.len() ==> #[trigger] levels@[m].1 != Level::Normal,
                forall|k: Seq<u8>| #[trigger]
                    entry(levels@, k) == match last_report(round@, k, n as int) {
                        Some(level) => if level != Level::Normal {
                            Some(level)
                        } else {
                            None
                        },
                        None => None,
                    },
            decreases round@.len() - n,
        {
            let context = &round[n].0;
            let level = round[n].1;
            let ghost s = levels@;
            let ghost c = key(*context);
            let at = match search(&levels, bytes(context)) {
                Ok(p) => {
                    proof {
                        lemma_entry_at(s, p as int);
                        assert forall|k: Seq<u8>| #[trigger]
                            entry(s.remove(p as int), k) == (if k == c {
                                None
                            } else {
                                entry(s, k)
                            }) by {
                            lemma_entry_remove(s, p as int, k);
                        }
                        lemma_entry_remove(s, p as int, c);
                    }
                    levels.remove(p);
                    p
                },
                Err(p) => p,
            };
            let ghost t = levels@;
            if level != Level::Normal {
                let held = context.clone();
                proof {
                    assert forall|k: Seq<u8>| #[trigger]
                        entry(t.insert(at as int, (held, level)), k) == (if k == c {
                            Some(level)
                        } else {
                            entry(t, k)
                        }) by {
                        lemma_entry_insert(t, at as int, (held, level), k);
                    }
                    lemma_entry_insert(t, at as int, (held, level), c);
                }
                levels.insert(at, (held, level));
            }
            n = n + 1;
        }
        self.levels = levels;
        Notices { changed, cleared }
    }
}

/// Whether any report of the round is for context `k`.
fn reported(round: &Vec<(String, Level)>, k: &[u8]) -> (r: bool)
    ensures
        r == (last_report(round@, k@, round@.len() as int) is Some),
{
    let mut n: usize = round.len();
    while n > 0
        invariant
            n <= round@.len(),
            last_report(round@, k@, round@.len() as int) == last_report(round@, k@, n as int),
        decreases n,
    {
        if same_bytes(bytes(&round[n - 1].0), k) {
            return true;
        }
        n = n - 1;
    }
    false
}

/// Whether report `i`, with CPA distance `a`, comes before report `j`, with
/// `b`: the closer CPA first, every opening target (no CPA) after the closing
/// ones, and reports as close in the order they came.
pub open spec fn closer(a: Option<Distance>, i: int, b: Option<Distance>, j: int) -> bool {
    match a {
        Some(x) => match b {
            Some(y) => x@ < y@ || (x@ == y@ && i < j),
            None => true,
        },
        None => match b {
            Some(_) => false,
            None => i < j,
        },
    }
}

proof fn lemma_closer_order(a: Option<Distance>, i: int, b: Option<Distance>, j: int, c: Option<Distance>, k: int)
    ensures
        i != j ==> (closer(a, i, b, j) || closer(b, j, a, i)),
        !(closer(a, i, b, j) && closer(b, j, a, i)),
        closer(a, i, b, j) && closer(b, j, c, k) ==> closer(a, i, c, k),
{
}

/// Order of reports, closest CPA first and opening targets last, as the
/// indices of `cpas` (each report's CPA distance, `None` when opening);
/// equally close reports keep their order.
pub fn closest_first(cpas: &[Option<Distance>]) -> (r: Vec<usize>)
    ensures
        r@.len() == cpas@.len(),
        forall|i: int| 0 <= i < r@.len() ==> #[trigger] r@[i] < cpas@.len(),
        forall|j: usize| j < cpas@.len() ==> #[trigger] r@.contains(j),
        forall|i: int, j: int|
            0 <= i < j < r@.len() ==> closer(
                cpas@[r@[i] as int],
                r@[i] as int,
                cpas@[r@[j] as int],
                r@[j] as int,
            ),
{
    let mut r: Vec<usize> = Vec::new();
    let mut k: usize = 0;
    while k < cpas.len()
        invariant
            k <= cpas@.len(),
            r@.len() == k,
            forall|i: int| 0 <= i < r@.len() ==> #[trigger] r@[i] < k,
            forall|j: usize| j < k ==> #[trigger] r@.contains(j),
            forall|i: int, j: int|
                0 <= i < j < r@.len() ==> closer(
                    cpas@[r@[i] as int],
                    r@[i] as int,
                    cpas@[r@[j] as int],
                    r@[j] as int,
                ),
        decreases cpas@.len() - k,
    {
        let mut p: usize = 0;
        while p < r.len() && before(cpas[r[p]], r[p], cpas[k], k)
            invariant
                k < cpas@.len(),
                p <= r@.len(),
                forall|i: int| 0 <= i < r@.len() ==> #[trigger] r@[i] < k,
                forall|i: int|
                    0 <= i < p ==> closer(
                        cpas@[#[trigger] r@[i] as int],
                        r@[i] as int,
                        cpas@[k as int],
                        k as int,
                    ),
            decreases r@.len() - p,
        {
            p = p + 1;
        }
        let ghost old_r = r@;
        proof {
            assert forall|j: int| p <= j < old_r.len() implies closer(
                cpas@[k as int],
                k as int,
                cpas@[#[trigger] old_r[j] as int],
                old_r[j] as int,
            ) by {
                let q = p as int;
                lemma_closer_order(
                    cpas@[k as int],
                    k as int,
                    cpas@[old_r[q] as int],
                    old_r[q] as int,
                    cpas@[old_r[j] as int],
                    old_r[j] as int,
                );
                lemma_closer_order(
                    cpas@[old_r[q] as int],
                    old_r[q] as int,
                    cpas@[k as int],
                    k as int,
                    cpas@[old_r[j] as int],
                    old_r[j] as int,
                );
            }
        }
        r.insert(p, k);
        proof {
            assert(r@[p as int] == k);
            assert forall|j: usize| j < k + 1 implies #[trigger] r@.contains(j) by {
                if j < k {
                    assert(old_r.contains(j));
                    let m = choose|m: int| 0 <= m < old_r.len() && #[trigger] old_r[m] == j;
                    if m < p {
                        assert(r@[m] == old_r[m]);
                    } else {
                        assert(r@[m + 1] == old_r[m]);
                    }
                }
            }
            assert forall|i: int, j: int| 0 <= i < j < r@.len() implies closer(
                cpas@[r@[i] as int],
                r@[i] as int,
                cpas@[r@[j] as int],
                r@[j] as int,
            ) by {
                if i < p && j < p {
                } else if i < p && j == p {
                } else if i < p && j > p {
                    assert(r@[j] == old_r[j - 1]);
                    lemma_closer_order(
                        cpas@[old_r[i] as int],
                        old_r[i] as int,
                        cpas@[k as int],
                        k as int,
                        cpas@[old_r[j - 1] as int],
                        old_r[j - 1] as int,
                    );
                } else if i == p {
                    assert(r@[j] == old_r[j - 1]);
                } else {
                    assert(r@[i] == old_r[i - 1]);
                    assert(r@[j] == old_r[j - 1]);
                }
            }
        }
        k = k + 1;
    }
    r
}

/// Whether report `i` (CPA `a`) comes before report `j` (CPA `b`).
fn before(a: Option<Distance>, i: usize, b: Option<Distance>, j: usize) -> (r: bool)
    ensures
        r == closer(a, i as int, b, j as int),
{
    match a {
        Some(x) => match b {
            Some(y) => x.millimetres < y.millimetres || (x.millimetres == y.millimetres && i < j),
            None => true,
        },
        None => match b {
            Some(_) => false,
            None => i < j,
        },
    }
}

} // verus!
