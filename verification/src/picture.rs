//! The vessels a Signal K server knows, as the last value of each path the
//! watch uses.
//!
//! A delta arrives as JSON in SI units; reading it into [`Reading`]s of
//! library types (radians to a [`TrueCourse`], metres per second to a
//! [`Speed`]) happens at the boundary. Here is what the picture does with
//! them: which vessel a delta is about, which one is own vessel, and the last
//! value and time of each.
use vstd::prelude::*;

use vstd::string::{is_ascii, StringSliceAdditionalSpecFns};
use vstd::utf8::encode_utf8;

use crate::position::Position;
use crate::signalk::{lemma_parsed_instant, parse_timestamp, timestamp_instant};
use crate::keyed::{
    bytes, entry, holds, key, lemma_entry_at, lemma_entry_insert, lemma_entry_remove, search,
    sorted_contexts,
};
use crate::text::{begins_with, same_bytes};
use crate::time::Instant;
use crate::units::{Speed, TrueCourse};

verus! {

/// Context of own vessel in Signal K.
pub const SELF_CONTEXT: &'static str = "vessels.self";

/// Prefix of every vessel's context.
pub const VESSELS: &'static str = "vessels.";

/// Category of a vessel under the steering rules.
#[derive(Clone, Copy, Debug, PartialEq, Eq, Hash, Structural)]
pub enum VesselCategory {
    /// Power-driven.
    PowerDriven,
    /// Under sail alone.
    Sailing,
    /// Engaged in fishing.
    Fishing,
    /// Constrained by her draught.
    ConstrainedByDraught,
    /// Not under command.
    NotUnderCommand,
    /// Restricted in her ability to manoeuvre.
    RestrictedInAbilityToManoeuvre,
}

/// What a vessel is, for the steering rules.
#[derive(Clone, Copy, Debug, PartialEq, Eq, Hash, Structural)]
pub enum Category {
    /// Under way, of this category.
    UnderWay(VesselCategory),
    /// At anchor, moored, aground or otherwise not under way.
    NotUnderWay,
}

/// One value of a delta, read for the path it was sent at. A value the path
/// does not allow (text where a number belongs, a course that is not
/// finite) is read as `None`, which clears what was held.
#[derive(Debug)]
pub enum Reading {
    /// The vessel's root (the empty path): its `name` and `mmsi` where the
    /// value holds them as text; an absent one leaves what was held.
    Root { name: Option<String>, mmsi: Option<String> },
    /// `name`, trimmed.
    Name(Option<String>),
    /// `mmsi`.
    Mmsi(Option<String>),
    /// `navigation.position`.
    Position(Option<Position>),
    /// `navigation.courseOverGroundTrue`.
    Course(Option<TrueCourse>),
    /// `navigation.headingTrue`.
    Heading(Option<TrueCourse>),
    /// `navigation.speedOverGround`; a negative speed is read as `None`.
    Speed(Option<Speed>),
    /// `navigation.state`, as sent.
    State(Option<String>),
    /// `design.aisShipType`, its `id`.
    ShipType(Option<u32>),
    /// Any path the watch does not use.
    Other,
}

/// Where an update's values came from, as far as the watch reads it.
#[derive(Debug)]
pub struct Source {
    /// NMEA 0183 sentence, for a device speaking NMEA 0183.
    pub sentence: Option<String>,
    /// NMEA 2000 parameter group number, for a device on NMEA 2000.
    pub pgn: Option<u64>,
}

/// Values from one source at one time.
#[derive(Debug)]
pub struct Update {
    /// RFC 3339 time of the values.
    pub timestamp: Option<String>,
    /// Where the values came from.
    pub source: Option<Source>,
    /// The values, in the order sent.
    pub values: Vec<Reading>,
}

/// One delta message: a context, and updates of paths within it.
#[derive(Debug)]
pub struct Delta {
    /// Vessel the updates are about, `vessels.<id>`; absent means own vessel.
    pub context: Option<String>,
    /// Updates, each from one source at one time.
    pub updates: Vec<Update>,
}

/// Last known state of one vessel.
#[derive(Debug)]
pub struct VesselState {
    /// Name, from the vessel's root `name`.
    pub name: Option<String>,
    /// MMSI, from the vessel's root `mmsi`.
    pub mmsi: Option<String>,
    /// `navigation.position`.
    pub position: Option<Position>,
    /// `navigation.courseOverGroundTrue`.
    pub course: Option<TrueCourse>,
    /// `navigation.speedOverGround`.
    pub speed: Option<Speed>,
    /// `navigation.headingTrue`.
    pub heading: Option<TrueCourse>,
    /// `navigation.state`, as sent.
    pub state: Option<String>,
    /// `design.aisShipType.id`.
    pub ship_type: Option<u32>,
    /// Latest timestamp of any update.
    pub last_seen: Option<Instant>,
}

/// A vessel nothing is known of.
pub open spec fn blank() -> VesselState {
    VesselState {
        name: None,
        mmsi: None,
        position: None,
        course: None,
        speed: None,
        heading: None,
        state: None,
        ship_type: None,
        last_seen: None,
    }
}

impl Default for VesselState {
    /// A vessel nothing is known of.
    fn default() -> (v: VesselState)
        ensures
            v == blank(),
    {
        VesselState {
            name: None,
            mmsi: None,
            position: None,
            course: None,
            speed: None,
            heading: None,
            state: None,
            ship_type: None,
            last_seen: None,
        }
    }
}

/// A vessel after one reading.
pub open spec fn read(v: VesselState, r: Reading) -> VesselState {
    match r {
        Reading::Root { name, mmsi } => VesselState {
            name: if name is Some {
                name
            } else {
                v.name
            },
            mmsi: if mmsi is Some {
                mmsi
            } else {
                v.mmsi
            },
            ..v
        },
        Reading::Name(name) => VesselState { name, ..v },
        Reading::Mmsi(mmsi) => VesselState { mmsi, ..v },
        Reading::Position(position) => VesselState { position, ..v },
        Reading::Course(course) => VesselState { course, ..v },
        Reading::Heading(heading) => VesselState { heading, ..v },
        Reading::Speed(speed) => VesselState { speed, ..v },
        Reading::State(state) => VesselState { state, ..v },
        Reading::ShipType(ship_type) => VesselState { ship_type, ..v },
        Reading::Other => v,
    }
}

/// A vessel after readings in turn.
pub open spec fn read_all(v: VesselState, values: Seq<Reading>) -> VesselState
    decreases values.len(),
{
    if values.len() == 0 {
        v
    } else {
        read(read_all(v, values.drop_last()), values.last())
    }
}

/// Time an update is stamped with, if the stamp is a timestamp.
pub open spec fn stamp(u: Update) -> Option<Instant> {
    match u.timestamp {
        Some(t) => timestamp_instant(encode_utf8(t@)),
        None => None,
    }
}

/// Latest of a last-seen time and a new stamp.
pub open spec fn latest(last: Option<Instant>, at: Option<Instant>) -> Option<Instant> {
    match at {
        None => last,
        Some(a) => match last {
            None => Some(a),
            Some(s) => if s.nanos >= a.nanos {
                Some(s)
            } else {
                Some(a)
            },
        },
    }
}

/// A vessel after one update: the time it was seen, then its values in turn.
pub open spec fn absorb_update(v: VesselState, u: Update) -> VesselState {
    read_all(VesselState { last_seen: latest(v.last_seen, stamp(u)), ..v }, u.values@)
}

/// A vessel after updates in turn.
pub open spec fn absorb(v: VesselState, updates: Seq<Update>) -> VesselState
    decreases updates.len(),
{
    if updates.len() == 0 {
        v
    } else {
        absorb_update(absorb(v, updates.drop_last()), updates.last())
    }
}

/// Parameter groups of NMEA 2000 that carry other vessels: the AIS messages.
pub open spec fn ais_pgn(pgn: u64) -> bool {
    pgn == 129_038 || pgn == 129_039 || pgn == 129_040 || pgn == 129_041 || pgn == 129_793 || pgn
        == 129_794 || pgn == 129_798 || pgn == 129_801 || pgn == 129_802 || pgn == 129_809 || pgn
        == 129_810
}

/// Whether an update comes from own vessel's own sensors: an NMEA 0183
/// sentence other than AIS `VDM`, or an NMEA 2000 parameter group other than
/// AIS; not when the source does not say.
pub open spec fn from_own_sensor(u: Update) -> bool {
    match u.source {
        None => false,
        Some(source) => match source.sentence {
            Some(sentence) => encode_utf8(sentence@) != "VDM".spec_bytes(),
            None => match source.pgn {
                Some(pgn) => !ais_pgn(pgn),
                None => false,
            },
        },
    }
}

/// A copy of a text.
fn copy_text(s: &Option<String>) -> (r: Option<String>)
    ensures
        r == *s,
{
    match s {
        Some(text) => Some(text.clone()),
        None => None,
    }
}

impl VesselState {
    /// Takes one reading.
    pub fn read(&mut self, reading: &Reading)
        ensures
            *final(self) == read(*old(self), *reading),
    {
        match reading {
            Reading::Root { name, mmsi } => {
                if name.is_some() {
                    self.name = copy_text(name);
                }
                if mmsi.is_some() {
                    self.mmsi = copy_text(mmsi);
                }
            },
            Reading::Name(name) => self.name = copy_text(name),
            Reading::Mmsi(mmsi) => self.mmsi = copy_text(mmsi),
            Reading::Position(position) => self.position = *position,
            Reading::Course(course) => self.course = *course,
            Reading::Heading(heading) => self.heading = *heading,
            Reading::Speed(speed) => self.speed = *speed,
            Reading::State(state) => self.state = copy_text(state),
            Reading::ShipType(ship_type) => self.ship_type = *ship_type,
            Reading::Other => {},
        }
    }

    /// Takes the updates of a delta in turn: the latest timestamp of each,
    /// then its values.
    pub fn absorb(&mut self, updates: &Vec<Update>)
        ensures
            *final(self) == absorb(*old(self), updates@),
    {
        let mut k: usize = 0;
        while k < updates.len()
            invariant
                k <= updates@.len(),
                *self == absorb(*old(self), updates@.take(k as int)),
            decreases updates@.len() - k,
        {
            proof {
                assert(updates@.take(k + 1).drop_last() =~= updates@.take(k as int));
            }
            let update = &updates[k];
            let at = match &update.timestamp {
                Some(t) => {
                    let parsed = parse_timestamp(t.as_str());
                    proof {
                        lemma_parsed_instant(encode_utf8(t@), parsed);
                    }
                    parsed
                },
                None => None,
            };
            if let Some(a) = at {
                self.last_seen = match self.last_seen {
                    Some(s) => if s.nanos >= a.nanos {
                        Some(s)
                    } else {
                        Some(a)
                    },
                    None => Some(a),
                };
            }
            let ghost start = *self;
            let mut j: usize = 0;
            while j < update.values.len()
                invariant
                    j <= update.values@.len(),
                    *self == read_all(start, update.values@.take(j as int)),
                decreases update.values@.len() - j,
            {
                proof {
                    assert(update.values@.take(j + 1).drop_last() =~= update.values@.take(j as int));
                }
                self.read(&update.values[j]);
                j = j + 1;
            }
            proof {
                assert(update.values@.take(j as int) =~= update.values@);
            }
            k = k + 1;
        }
        proof {
            assert(updates@.take(k as int) =~= updates@);
        }
    }
}

impl Update {
    /// Whether the values come from own vessel's own sensors: an NMEA 0183
    /// sentence other than AIS `VDM`, or an NMEA 2000 parameter group other
    /// than AIS. Signal K puts such values in own vessel's context; only AIS
    /// describes other vessels. `false` when the source does not say.
    pub fn is_own_sensor(&self) -> (r: bool)
        ensures
            r == from_own_sensor(*self),
    {
        match &self.source {
            None => false,
            Some(source) => match &source.sentence {
                Some(sentence) => !same_bytes(bytes(sentence), "VDM".as_bytes()),
                None => match source.pgn {
                    Some(pgn) => !(pgn == 129_038 || pgn == 129_039 || pgn == 129_040 || pgn
                        == 129_041 || pgn == 129_793 || pgn == 129_794 || pgn == 129_798 || pgn
                        == 129_801 || pgn == 129_802 || pgn == 129_809 || pgn == 129_810),
                    None => false,
                },
            },
        }
    }
}

/// Bytes of own vessel's default context.
pub open spec fn self_key() -> Seq<u8> {
    SELF_CONTEXT.spec_bytes()
}

/// Bytes of the context own vessel is held under.
pub open spec fn own_key(own: Option<String>) -> Seq<u8> {
    match own {
        Some(o) => key(o),
        None => self_key(),
    }
}

/// Whether context `k` is own vessel.
pub open spec fn is_own_key(own: Option<String>, k: Seq<u8>) -> bool {
    k == self_key() || k == own_key(own)
}

/// Every vessel seen, by context.
#[derive(Debug)]
pub struct Picture {
    vessels: Vec<(String, VesselState)>,
    own: Option<String>,
}

/// The vessels after own vessel is named `context`: what was held as
/// [`SELF_CONTEXT`] moves there, unless something is held there already.
pub open spec fn renamed(s: Seq<(String, VesselState)>, context: Seq<u8>, k: Seq<u8>) -> Option<
    VesselState,
> {
    if k == context {
        if entry(s, context) is Some {
            entry(s, context)
        } else {
            entry(s, self_key())
        }
    } else if k == self_key() {
        None
    } else {
        entry(s, k)
    }
}

impl Picture {
    #[verifier::type_invariant]
    closed spec fn well_formed(&self) -> bool {
        sorted_contexts(self.vessels@)
    }

    /// The vessels, by increasing context.
    pub closed spec fn entries(&self) -> Seq<(String, VesselState)> {
        self.vessels@
    }

    /// Own vessel's full context, if named.
    pub closed spec fn own_name(&self) -> Option<String> {
        self.own
    }

    /// Empty picture; own vessel is known as [`SELF_CONTEXT`] until
    /// [`Picture::set_own_context`] names it.
    pub fn new() -> (p: Picture)
        ensures
            p.entries().len() == 0,
            p.own_name() is None,
    {
        Picture { vessels: Vec::new(), own: None }
    }

    /// Number of vessels, own included.
    pub fn len(&self) -> (r: usize)
        ensures
            r == self.entries().len(),
    {
        self.vessels.len()
    }

    /// Whether no vessel has been seen.
    pub fn is_empty(&self) -> (r: bool)
        ensures
            r == (self.entries().len() == 0),
    {
        self.vessels.len() == 0
    }

    /// Whether own vessel's full context is known, named or learnt.
    pub fn own_is_named(&self) -> (r: bool)
        ensures
            r == self.own_name() is Some,
    {
        self.own.is_some()
    }

    /// Context own vessel is held under.
    pub fn own_context(&self) -> (r: &str)
        ensures
            r.spec_bytes() == own_key(self.own_name()),
    {
        match &self.own {
            Some(own) => own.as_str(),
            None => SELF_CONTEXT,
        }
    }

    /// Whether a context is own vessel.
    pub fn is_own(&self, context: &str) -> (r: bool)
        ensures
            r == is_own_key(self.own_name(), context.spec_bytes()),
    {
        same_bytes(context.as_bytes(), SELF_CONTEXT.as_bytes()) || same_bytes(
            context.as_bytes(),
            self.own_context().as_bytes(),
        )
    }

    /// Own vessel, if seen.
    pub fn own(&self) -> (r: Option<&VesselState>)
        ensures
            match r {
                Some(v) => entry(self.entries(), own_key(self.own_name())) == Some(*v),
                None => entry(self.entries(), own_key(self.own_name())) is None,
            },
    {
        proof {
            use_type_invariant(self);
        }
        match search(&self.vessels, self.own_context().as_bytes()) {
            Ok(i) => {
                proof {
                    lemma_entry_at(self.vessels@, i as int);
                }
                Some(&self.vessels[i].1)
            },
            Err(_) => None,
        }
    }

    /// Names own vessel's full context, `vessels.urn:mrn:imo:mmsi:…`, as the
    /// server writes it in deltas. What is held as [`SELF_CONTEXT`] moves to
    /// that context, unless something is held there already.
    pub fn set_own_context(&mut self, context: &str)
        ensures
            final(self).own_name() matches Some(o) && key(o) == context.spec_bytes(),
            forall|k: Seq<u8>|
                entry(final(self).entries(), k) == renamed(old(self).entries(), context.spec_bytes(), k),
    {
        proof {
            use_type_invariant(&*self);
        }
        let ghost s = self.vessels@;
        self.own = Some(context.to_owned());
        let mut vessels: Vec<(String, VesselState)> = Vec::new();
        std::mem::swap(&mut vessels, &mut self.vessels);
        match search(&vessels, SELF_CONTEXT.as_bytes()) {
            Ok(i) => {
                proof {
                    lemma_entry_at(s, i as int);
                    assert forall|k: Seq<u8>| #[trigger]
                        entry(s.remove(i as int), k) == (if k == self_key() {
                            None
                        } else {
                            entry(s, k)
                        }) by {
                        lemma_entry_remove(s, i as int, k);
                    }
                    lemma_entry_remove(s, i as int, self_key());
                }
                let (_, held) = vessels.remove(i);
                let ghost t = vessels@;
                match search(&vessels, context.as_bytes()) {
                    Ok(_) => {},
                    Err(p) => {
                        let named = context.to_owned();
                        proof {
                            assert forall|k: Seq<u8>| #[trigger]
                                entry(t.insert(p as int, (named, held)), k) == (if k
                                    == context.spec_bytes() {
                                    Some(held)
                                } else {
                                    entry(t, k)
                                }) by {
                                lemma_entry_insert(t, p as int, (named, held), k);
                            }
                            lemma_entry_insert(t, p as int, (named, held), self_key());
                        }
                        vessels.insert(p, (named, held));
                    },
                }
            },
            Err(_) => {},
        }
        self.vessels = vessels;
    }

    /// Other vessels, by increasing context.
    pub fn targets(&self) -> (r: Vec<(&str, &VesselState)>)
        ensures
            r@.len() == others(self.entries(), self.own_name(), self.entries().len() as int).len(),
            forall|j: int|
                0 <= j < r@.len() ==> (#[trigger] r@[j]).0.spec_bytes() == others(
                    self.entries(),
                    self.own_name(),
                    self.entries().len() as int,
                )[j].0 && *r@[j].1 == others(
                    self.entries(),
                    self.own_name(),
                    self.entries().len() as int,
                )[j].1,
    {
        let ghost s = self.vessels@;
        let mut r: Vec<(&str, &VesselState)> = Vec::new();
        let mut i: usize = 0;
        while i < self.vessels.len()
            invariant
                s == self.vessels@,
                i <= s.len(),
                r@.len() == others(s, self.own, i as int).len(),
                forall|j: int|
                    0 <= j < r@.len() ==> (#[trigger] r@[j]).0.spec_bytes() == others(
                        s,
                        self.own,
                        i as int,
                    )[j].0 && *r@[j].1 == others(s, self.own, i as int)[j].1,
            decreases s.len() - i,
        {
            let context = self.vessels[i].0.as_str();
            if !self.is_own(context) {
                r.push((context, &self.vessels[i].1));
            }
            i = i + 1;
        }
        r
    }

    /// Applies a delta. Paths the watch does not use, and values it cannot
    /// read, have been read as [`Reading::Other`] or `None`.
    ///
    /// Until [`Picture::set_own_context`] names own vessel, the first vessel
    /// context with a position from own sensors (see
    /// [`Update::is_own_sensor`]) is taken as own vessel. A delta with no
    /// context, or own vessel's, is about own vessel; one whose context is
    /// not a vessel's is ignored.
    pub fn apply(&mut self, delta: &Delta)
        ensures
            own_bytes(final(self).own_name()) == named_key(old(self).own_name(), *delta),
            forall|k: Seq<u8>|
                entry(final(self).entries(), k) == applied(
                    old(self).entries(),
                    old(self).own_name(),
                    *delta,
                    k,
                ),
    {
        proof {
            use_type_invariant(&*self);
        }
        let ghost s0 = self.vessels@;
        let ghost own0 = self.own;
        if self.own.is_none() {
            match &delta.context {
                Some(context) => {
                    if reports_own_position(delta) && begins_with(bytes(context), VESSELS.as_bytes())
                        && !same_bytes(bytes(context), SELF_CONTEXT.as_bytes()) {
                        self.set_own_context(context.as_str());
                    }
                },
                None => {},
            }
        }
        proof {
            use_type_invariant(&*self);
        }
        let ghost s1 = self.vessels@;
        let ghost own1 = self.own;
        assert(own_bytes(own1) == named_key(own0, *delta));
        assert(forall|k: Seq<u8>| #[trigger] entry(s1, k) == named_entry(s0, own0, *delta, k));
        let own_here = self.own_context().to_owned();
        let target: String = match &delta.context {
            None => own_here,
            Some(context) => if self.is_own(context.as_str()) {
                own_here
            } else {
                context.clone()
            },
        };
        assert(key(target) == target_key(own0, *delta));
        if !begins_with(bytes(&target), VESSELS.as_bytes()) {
            return;
        }
        let mut vessels: Vec<(String, VesselState)> = Vec::new();
        std::mem::swap(&mut vessels, &mut self.vessels);
        let found = search(&vessels, bytes(&target));
        let (index, mut state) = match found {
            Ok(i) => {
                proof {
                    lemma_entry_at(s1, i as int);
                    assert forall|k: Seq<u8>| #[trigger]
                        entry(s1.remove(i as int), k) == (if k == key(target) {
                            None
                        } else {
                            entry(s1, k)
                        }) by {
                        lemma_entry_remove(s1, i as int, k);
                    }
                    lemma_entry_remove(s1, i as int, key(target));
                }
                let (_, held) = vessels.remove(i);
                (i, held)
            },
            Err(p) => (p, VesselState::default()),
        };
        let ghost t = vessels@;
        let ghost before = state;
        assert(before == match entry(s1, key(target)) {
            Some(v) => v,
            None => blank(),
        });
        state.absorb(&delta.updates);
        proof {
            assert forall|k: Seq<u8>| #[trigger]
                entry(t.insert(index as int, (target, state)), k) == (if k == key(target) {
                    Some(state)
                } else {
                    entry(t, k)
                }) by {
                lemma_entry_insert(t, index as int, (target, state), k);
            }
            lemma_entry_insert(t, index as int, (target, state), key(target));
        }
        vessels.insert(index, (target, state));
        self.vessels = vessels;
    }
}

/// Context bytes of a named own vessel.
pub open spec fn own_bytes(own: Option<String>) -> Option<Seq<u8>> {
    match own {
        Some(o) => Some(key(o)),
        None => None,
    }
}

/// Whether any value of an update is a position.
pub open spec fn has_position(values: Seq<Reading>) -> bool {
    exists|i: int| 0 <= i < values.len() && #[trigger] values[i] is Position
}

/// Whether a delta carries a position from own sensors.
pub open spec fn own_position_in(d: Delta) -> bool {
    exists|j: int|
        0 <= j < d.updates@.len() && from_own_sensor(#[trigger] d.updates@[j]) && has_position(
            d.updates@[j].values@,
        )
}

/// Whether a delta names own vessel: own vessel is not named yet, and the
/// delta is about a vessel other than [`SELF_CONTEXT`] and carries a
/// position from own sensors.
pub open spec fn learns_own(own: Option<String>, d: Delta) -> bool {
    &&& own is None
    &&& d.context matches Some(c)
    &&& own_position_in(d)
    &&& VESSELS.spec_bytes().is_prefix_of(key(c))
    &&& key(c) != self_key()
}

/// Own vessel's context bytes after a delta: as named before, else as the
/// delta names it, else unnamed.
pub open spec fn named_key(own: Option<String>, d: Delta) -> Option<Seq<u8>> {
    if learns_own(own, d) {
        Some(key(d.context.unwrap()))
    } else {
        own_bytes(own)
    }
}

/// The vessels once a delta has named own vessel, before its values are read.
pub open spec fn named_entry(
    s: Seq<(String, VesselState)>,
    own: Option<String>,
    d: Delta,
    k: Seq<u8>,
) -> Option<VesselState> {
    if learns_own(own, d) {
        renamed(s, key(d.context.unwrap()), k)
    } else {
        entry(s, k)
    }
}

/// Bytes of own vessel's context after a delta.
pub open spec fn own_key_after(own: Option<String>, d: Delta) -> Seq<u8> {
    match named_key(own, d) {
        Some(k) => k,
        None => self_key(),
    }
}

/// Context a delta's values go to: own vessel's for no context or an own
/// one, else the delta's.
pub open spec fn target_key(own: Option<String>, d: Delta) -> Seq<u8> {
    match d.context {
        None => own_key_after(own, d),
        Some(c) => if key(c) == self_key() || key(c) == own_key_after(own, d) {
            own_key_after(own, d)
        } else {
            key(c)
        },
    }
}

/// The vessel under context `k` after a delta: the delta's vessel takes its
/// updates, starting from nothing known if it was not held; a context that
/// is not a vessel's takes none.
pub open spec fn applied(
    s: Seq<(String, VesselState)>,
    own: Option<String>,
    d: Delta,
    k: Seq<u8>,
) -> Option<VesselState> {
    let target = target_key(own, d);
    if VESSELS.spec_bytes().is_prefix_of(target) && k == target {
        Some(
            absorb(
                match named_entry(s, own, d, k) {
                    Some(v) => v,
                    None => blank(),
                },
                d.updates@,
            ),
        )
    } else {
        named_entry(s, own, d, k)
    }
}

/// Whether a delta carries a position from own sensors.
fn reports_own_position(delta: &Delta) -> (r: bool)
    ensures
        r == own_position_in(*delta),
{
    let mut j: usize = 0;
    while j < delta.updates.len()
        invariant
            j <= delta.updates@.len(),
            forall|m: int|
                0 <= m < j ==> !(from_own_sensor(#[trigger] delta.updates@[m]) && has_position(
                    delta.updates@[m].values@,
                )),
        decreases delta.updates@.len() - j,
    {
        let update = &delta.updates[j];
        if update.is_own_sensor() {
            let mut i: usize = 0;
            while i < update.values.len()
                invariant
                    j < delta.updates@.len(),
                    *update == delta.updates@[j as int],
                    from_own_sensor(*update),
                    i <= update.values@.len(),
                    forall|m: int| 0 <= m < i ==> !(#[trigger] update.values@[m] is Position),
                decreases update.values@.len() - i,
            {
                if let Reading::Position(_) = &update.values[i] {
                    proof {
                        assert(has_position(update.values@));
                        assert(from_own_sensor(delta.updates@[j as int]));
                    }
                    return true;
                }
                i = i + 1;
            }
        }
        j = j + 1;
    }
    false
}

/// The entries among the first `n` that are not own vessel, in order, by
/// context bytes.
pub open spec fn others(s: Seq<(String, VesselState)>, own: Option<String>, n: int) -> Seq<
    (Seq<u8>, VesselState),
>
    decreases n,
{
    if n <= 0 {
        seq![]
    } else if is_own_key(own, key(s[n - 1].0)) {
        others(s, own, n - 1)
    } else {
        others(s, own, n - 1).push((key(s[n - 1].0), s[n - 1].1))
    }
}

/// The targets are exactly the vessels that are not own vessel: none of them
/// is own vessel, and every other vessel is among them.
pub proof fn law_targets_are_the_others(s: Seq<(String, VesselState)>, own: Option<String>, n: int)
    requires
        0 <= n <= s.len(),
    ensures
        forall|j: int|
            0 <= j < others(s, own, n).len() ==> !is_own_key(own, (#[trigger] others(s, own, n)[j]).0),
        forall|i: int|
            0 <= i < n && !is_own_key(own, key(#[trigger] s[i].0)) ==> others(s, own, n).contains(
                (key(s[i].0), s[i].1),
            ),
    decreases n,
{
    if n > 0 {
        law_targets_are_the_others(s, own, n - 1);
        let prev = others(s, own, n - 1);
        if !is_own_key(own, key(s[n - 1].0)) {
            let now = prev.push((key(s[n - 1].0), s[n - 1].1));
            assert forall|i: int|
                0 <= i < n && !is_own_key(own, key(#[trigger] s[i].0)) implies now.contains(
                (key(s[i].0), s[i].1),
            ) by {
                if i < n - 1 {
                    let w = choose|w: int| 0 <= w < prev.len() && prev[w] == (key(s[i].0), s[i].1);
                    assert(now[w] == prev[w]);
                } else {
                    assert(now[prev.len() as int] == (key(s[i].0), s[i].1));
                }
            }
        }
    }
}

/// The time a vessel was last seen never goes back as it takes updates.
pub proof fn law_last_seen_never_goes_back(v: VesselState, updates: Seq<Update>)
    ensures
        v.last_seen matches Some(seen) ==> absorb(v, updates).last_seen matches Some(after)
            && after.nanos >= seen.nanos,
    decreases updates.len(),
{
    if updates.len() > 0 {
        law_last_seen_never_goes_back(v, updates.drop_last());
        let w = absorb(v, updates.drop_last());
        let u = updates.last();
        lemma_readings_keep_last_seen(
            VesselState { last_seen: latest(w.last_seen, stamp(u)), ..w },
            u.values@,
        );
    }
}

/// Readings never touch the time a vessel was last seen.
proof fn lemma_readings_keep_last_seen(v: VesselState, values: Seq<Reading>)
    ensures
        read_all(v, values).last_seen == v.last_seen,
    decreases values.len(),
{
    if values.len() > 0 {
        lemma_readings_keep_last_seen(v, values.drop_last());
    }
}

/// Category of a Signal K `navigation.state`; `None` for states that do not
/// say. Motoring, towing, pushing and pilotage count as power-driven; a state
/// that begins with `restricted manouverability` (the Signal K spelling) as
/// restricted.
pub open spec fn state_category(b: Seq<u8>) -> Option<Category> {
    if b == "motoring".spec_bytes() || b == "towing < 200m".spec_bytes() || b
        == "towing > 200m".spec_bytes() || b == "pushing".spec_bytes() || b
        == "pilotage".spec_bytes() {
        Some(Category::UnderWay(VesselCategory::PowerDriven))
    } else if b == "sailing".spec_bytes() {
        Some(Category::UnderWay(VesselCategory::Sailing))
    } else if b == "fishing".spec_bytes() || b == "fishing-hampered".spec_bytes() || b
        == "trawling".spec_bytes() || b == "trawling-shooting".spec_bytes() || b
        == "trawling-hauling".spec_bytes() {
        Some(Category::UnderWay(VesselCategory::Fishing))
    } else if b == "constrained by draft".spec_bytes() {
        Some(Category::UnderWay(VesselCategory::ConstrainedByDraught))
    } else if b == "not under command".spec_bytes() {
        Some(Category::UnderWay(VesselCategory::NotUnderCommand))
    } else if b == "anchored".spec_bytes() || b == "moored".spec_bytes() || b
        == "aground".spec_bytes() || b == "not-under-way".spec_bytes() {
        Some(Category::NotUnderWay)
    } else if "restricted manouverability".spec_bytes().is_prefix_of(b) || b
        == "mine clearance".spec_bytes() {
        Some(Category::UnderWay(VesselCategory::RestrictedInAbilityToManoeuvre))
    } else {
        None
    }
}

/// Category of an AIS ship type: 30 fishing, 36 sailing; `None` otherwise.
pub open spec fn ship_type_category(ship_type: Option<u32>) -> Option<Category> {
    match ship_type {
        Some(30) => Some(Category::UnderWay(VesselCategory::Fishing)),
        Some(36) => Some(Category::UnderWay(VesselCategory::Sailing)),
        _ => None,
    }
}

/// Category of a vessel: from its navigation state, else its AIS ship type.
pub open spec fn category_of(v: VesselState) -> Option<Category> {
    match v.state {
        Some(s) => match state_category(key(s)) {
            Some(c) => Some(c),
            None => ship_type_category(v.ship_type),
        },
        None => ship_type_category(v.ship_type),
    }
}

/// Whether a text is `word`.
fn is_word(b: &[u8], word: &str) -> (r: bool)
    ensures
        r == (b@ == word.spec_bytes()),
{
    same_bytes(b, word.as_bytes())
}

/// Category of a Signal K `navigation.state`.
fn category_of_state(state: &String) -> (r: Option<Category>)
    ensures
        r == state_category(key(*state)),
{
    let b = bytes(state);
    if is_word(b, "motoring") || is_word(b, "towing < 200m") || is_word(b, "towing > 200m")
        || is_word(b, "pushing") || is_word(b, "pilotage") {
        Some(Category::UnderWay(VesselCategory::PowerDriven))
    } else if is_word(b, "sailing") {
        Some(Category::UnderWay(VesselCategory::Sailing))
    } else if is_word(b, "fishing") || is_word(b, "fishing-hampered") || is_word(b, "trawling")
        || is_word(b, "trawling-shooting") || is_word(b, "trawling-hauling") {
        Some(Category::UnderWay(VesselCategory::Fishing))
    } else if is_word(b, "constrained by draft") {
        Some(Category::UnderWay(VesselCategory::ConstrainedByDraught))
    } else if is_word(b, "not under command") {
        Some(Category::UnderWay(VesselCategory::NotUnderCommand))
    } else if is_word(b, "anchored") || is_word(b, "moored") || is_word(b, "aground") || is_word(
        b,
        "not-under-way",
    ) {
        Some(Category::NotUnderWay)
    } else if begins_with(b, "restricted manouverability".as_bytes()) || is_word(
        b,
        "mine clearance",
    ) {
        Some(Category::UnderWay(VesselCategory::RestrictedInAbilityToManoeuvre))
    } else {
        None
    }
}

impl VesselState {
    /// Name, else MMSI, else the context it is known by.
    pub fn label<'a>(&'a self, context: &'a str) -> (r: &'a str)
        ensures
            r@ == match self.name {
                Some(name) => name@,
                None => match self.mmsi {
                    Some(mmsi) => mmsi@,
                    None => context@,
                },
            },
    {
        match &self.name {
            Some(name) => name.as_str(),
            None => match &self.mmsi {
                Some(mmsi) => mmsi.as_str(),
                None => context,
            },
        }
    }

    /// Category under the steering rules from `navigation.state`, else from
    /// the AIS ship type; `None` if neither says. A vessel at anchor, moored
    /// or aground is not under way.
    pub fn category(&self) -> (r: Option<Category>)
        ensures
            r == category_of(*self),
    {
        if let Some(state) = &self.state {
            if let Some(category) = category_of_state(state) {
                return Some(category);
            }
        }
        match self.ship_type {
            Some(30) => Some(Category::UnderWay(VesselCategory::Fishing)),
            Some(36) => Some(Category::UnderWay(VesselCategory::Sailing)),
            _ => None,
        }
    }
}

/// Two texts of different lengths have different bytes.
proof fn lemma_differ_in_length(a: &str, b: &str)
    requires
        is_ascii(a),
        is_ascii(b),
        a@.len() != b@.len(),
    ensures
        a.spec_bytes() != b.spec_bytes(),
{
    broadcast use vstd::string::is_ascii_spec_bytes;
}

/// Two texts that differ at byte `k` have different bytes.
proof fn lemma_differ_at(a: &str, b: &str, k: int)
    requires
        is_ascii(a),
        is_ascii(b),
        0 <= k < a@.len(),
        0 <= k < b@.len(),
        a@[k] != b@[k],
    ensures
        a.spec_bytes() != b.spec_bytes(),
{
    broadcast use vstd::string::is_ascii_spec_bytes;
    assert(a.spec_bytes()[k] == a@[k] as u8);
    assert(b.spec_bytes()[k] == b@[k] as u8);
}

/// The navigation state names the category, whatever the AIS ship type
/// says: power-driven for motoring, towing, pushing and pilotage; sailing;
/// fishing and trawling; constrained by her draught; not under command; not
/// under way at anchor, moored or aground; restricted in her ability to
/// manoeuvre for mine clearance. A vessel whose state says nothing falls
/// back on her ship type: 30 fishing, 36 sailing.
pub proof fn law_the_navigation_state_names_the_category(v: VesselState, state: String)
    ensures
        v.state == Some(state) && key(state) == "motoring".spec_bytes() ==> category_of(v) == Some(Category::UnderWay(VesselCategory::PowerDriven)),
        v.state == Some(state) && key(state) == "towing < 200m".spec_bytes() ==> category_of(v) == Some(Category::UnderWay(VesselCategory::PowerDriven)),
        v.state == Some(state) && key(state) == "towing > 200m".spec_bytes() ==> category_of(v) == Some(Category::UnderWay(VesselCategory::PowerDriven)),
        v.state == Some(state) && key(state) == "pushing".spec_bytes() ==> category_of(v) == Some(Category::UnderWay(VesselCategory::PowerDriven)),
        v.state == Some(state) && key(state) == "pilotage".spec_bytes() ==> category_of(v) == Some(Category::UnderWay(VesselCategory::PowerDriven)),
        v.state == Some(state) && key(state) == "sailing".spec_bytes() ==> category_of(v) == Some(Category::UnderWay(VesselCategory::Sailing)),
        v.state == Some(state) && key(state) == "fishing".spec_bytes() ==> category_of(v) == Some(Category::UnderWay(VesselCategory::Fishing)),
        v.state == Some(state) && key(state) == "fishing-hampered".spec_bytes() ==> category_of(v) == Some(Category::UnderWay(VesselCategory::Fishing)),
        v.state == Some(state) && key(state) == "trawling".spec_bytes() ==> category_of(v) == Some(Category::UnderWay(VesselCategory::Fishing)),
        v.state == Some(state) && key(state) == "trawling-shooting".spec_bytes() ==> category_of(v) == Some(Category::UnderWay(VesselCategory::Fishing)),
        v.state == Some(state) && key(state) == "trawling-hauling".spec_bytes() ==> category_of(v) == Some(Category::UnderWay(VesselCategory::Fishing)),
        v.state == Some(state) && key(state) == "constrained by draft".spec_bytes() ==> category_of(v) == Some(Category::UnderWay(VesselCategory::ConstrainedByDraught)),
        v.state == Some(state) && key(state) == "not under command".spec_bytes() ==> category_of(v) == Some(Category::UnderWay(VesselCategory::NotUnderCommand)),
        v.state == Some(state) && key(state) == "anchored".spec_bytes() ==> category_of(v) == Some(Category::NotUnderWay),
        v.state == Some(state) && key(state) == "moored".spec_bytes() ==> category_of(v) == Some(Category::NotUnderWay),
        v.state == Some(state) && key(state) == "aground".spec_bytes() ==> category_of(v) == Some(Category::NotUnderWay),
        v.state == Some(state) && key(state) == "not-under-way".spec_bytes() ==> category_of(v) == Some(Category::NotUnderWay),
        v.state == Some(state) && key(state) == "mine clearance".spec_bytes() ==> category_of(v) == Some(Category::UnderWay(VesselCategory::RestrictedInAbilityToManoeuvre)),
        v.state is None && v.ship_type == Some(30u32) ==> category_of(v) == Some(
            Category::UnderWay(VesselCategory::Fishing),
        ),
        v.state is None && v.ship_type == Some(36u32) ==> category_of(v) == Some(
            Category::UnderWay(VesselCategory::Sailing),
        ),
{
    reveal_strlit("motoring");
    reveal_strlit("towing < 200m");
    reveal_strlit("towing > 200m");
    reveal_strlit("pushing");
    reveal_strlit("pilotage");
    reveal_strlit("sailing");
    reveal_strlit("fishing");
    reveal_strlit("fishing-hampered");
    reveal_strlit("trawling");
    reveal_strlit("trawling-shooting");
    reveal_strlit("trawling-hauling");
    reveal_strlit("constrained by draft");
    reveal_strlit("not under command");
    reveal_strlit("anchored");
    reveal_strlit("moored");
    reveal_strlit("aground");
    reveal_strlit("not-under-way");
    reveal_strlit("mine clearance");
    assert(is_ascii("motoring"));
    assert(is_ascii("towing < 200m"));
    assert(is_ascii("towing > 200m"));
    assert(is_ascii("pushing"));
    assert(is_ascii("pilotage"));
    assert(is_ascii("sailing"));
    assert(is_ascii("fishing"));
    assert(is_ascii("fishing-hampered"));
    assert(is_ascii("trawling"));
    assert(is_ascii("trawling-shooting"));
    assert(is_ascii("trawling-hauling"));
    assert(is_ascii("constrained by draft"));
    assert(is_ascii("not under command"));
    assert(is_ascii("anchored"));
    assert(is_ascii("moored"));
    assert(is_ascii("aground"));
    assert(is_ascii("not-under-way"));
    assert(is_ascii("mine clearance"));
    lemma_differ_in_length("towing < 200m", "motoring");
    lemma_differ_in_length("towing > 200m", "motoring");
    lemma_differ_at("towing > 200m", "towing < 200m", 7);
    lemma_differ_in_length("pushing", "motoring");
    lemma_differ_in_length("pushing", "towing < 200m");
    lemma_differ_in_length("pushing", "towing > 200m");
    lemma_differ_at("pilotage", "motoring", 0);
    lemma_differ_in_length("pilotage", "towing < 200m");
    lemma_differ_in_length("pilotage", "towing > 200m");
    lemma_differ_in_length("pilotage", "pushing");
    lemma_differ_in_length("sailing", "motoring");
    lemma_differ_in_length("sailing", "towing < 200m");
    lemma_differ_in_length("sailing", "towing > 200m");
    lemma_differ_at("sailing", "pushing", 0);
    lemma_differ_in_length("sailing", "pilotage");
    lemma_differ_in_length("fishing", "motoring");
    lemma_differ_in_length("fishing", "towing < 200m");
    lemma_differ_in_length("fishing", "towing > 200m");
    lemma_differ_at("fishing", "pushing", 0);
    lemma_differ_in_length("fishing", "pilotage");
    lemma_differ_at("fishing", "sailing", 0);
    lemma_differ_in_length("fishing-hampered", "motoring");
    lemma_differ_in_length("fishing-hampered", "towing < 200m");
    lemma_differ_in_length("fishing-hampered", "towing > 200m");
    lemma_differ_in_length("fishing-hampered", "pushing");
    lemma_differ_in_length("fishing-hampered", "pilotage");
    lemma_differ_in_length("fishing-hampered", "sailing");
    lemma_differ_in_length("fishing-hampered", "fishing");
    lemma_differ_at("trawling", "motoring", 0);
    lemma_differ_in_length("trawling", "towing < 200m");
    lemma_differ_in_length("trawling", "towing > 200m");
    lemma_differ_in_length("trawling", "pushing");
    lemma_differ_at("trawling", "pilotage", 0);
    lemma_differ_in_length("trawling", "sailing");
    lemma_differ_in_length("trawling", "fishing");
    lemma_differ_in_length("trawling", "fishing-hampered");
    lemma_differ_in_length("trawling-shooting", "motoring");
    lemma_differ_in_length("trawling-shooting", "towing < 200m");
    lemma_differ_in_length("trawling-shooting", "towing > 200m");
    lemma_differ_in_length("trawling-shooting", "pushing");
    lemma_differ_in_length("trawling-shooting", "pilotage");
    lemma_differ_in_length("trawling-shooting", "sailing");
    lemma_differ_in_length("trawling-shooting", "fishing");
    lemma_differ_in_length("trawling-shooting", "fishing-hampered");
    lemma_differ_in_length("trawling-shooting", "trawling");
    lemma_differ_in_length("trawling-hauling", "motoring");
    lemma_differ_in_length("trawling-hauling", "towing < 200m");
    lemma_differ_in_length("trawling-hauling", "towing > 200m");
    lemma_differ_in_length("trawling-hauling", "pushing");
    lemma_differ_in_length("trawling-hauling", "pilotage");
    lemma_differ_in_length("trawling-hauling", "sailing");
    lemma_differ_in_length("trawling-hauling", "fishing");
    lemma_differ_at("trawling-hauling", "fishing-hampered", 0);
    lemma_differ_in_length("trawling-hauling", "trawling");
    lemma_differ_in_length("trawling-hauling", "trawling-shooting");
    lemma_differ_in_length("constrained by draft", "motoring");
    lemma_differ_in_length("constrained by draft", "towing < 200m");
    lemma_differ_in_length("constrained by draft", "towing > 200m");
    lemma_differ_in_length("constrained by draft", "pushing");
    lemma_differ_in_length("constrained by draft", "pilotage");
    lemma_differ_in_length("constrained by draft", "sailing");
    lemma_differ_in_length("constrained by draft", "fishing");
    lemma_differ_in_length("constrained by draft", "fishing-hampered");
    lemma_differ_in_length("constrained by draft", "trawling");
    lemma_differ_in_length("constrained by draft", "trawling-shooting");
    lemma_differ_in_length("constrained by draft", "trawling-hauling");
    lemma_differ_in_length("not under command", "motoring");
    lemma_differ_in_length("not under command", "towing < 200m");
    lemma_differ_in_length("not under command", "towing > 200m");
    lemma_differ_in_length("not under command", "pushing");
    lemma_differ_in_length("not under command", "pilotage");
    lemma_differ_in_length("not under command", "sailing");
    lemma_differ_in_length("not under command", "fishing");
    lemma_differ_in_length("not under command", "fishing-hampered");
    lemma_differ_in_length("not under command", "trawling");
    lemma_differ_at("not under command", "trawling-shooting", 0);
    lemma_differ_in_length("not under command", "trawling-hauling");
    lemma_differ_in_length("not under command", "constrained by draft");
    lemma_differ_at("anchored", "motoring", 0);
    lemma_differ_in_length("anchored", "towing < 200m");
    lemma_differ_in_length("anchored", "towing > 200m");
    lemma_differ_in_length("anchored", "pushing");
    lemma_differ_at("anchored", "pilotage", 0);
    lemma_differ_in_length("anchored", "sailing");
    lemma_differ_in_length("anchored", "fishing");
    lemma_differ_in_length("anchored", "fishing-hampered");
    lemma_differ_at("anchored", "trawling", 0);
    lemma_differ_in_length("anchored", "trawling-shooting");
    lemma_differ_in_length("anchored", "trawling-hauling");
    lemma_differ_in_length("anchored", "constrained by draft");
    lemma_differ_in_length("anchored", "not under command");
    lemma_differ_in_length("moored", "motoring");
    lemma_differ_in_length("moored", "towing < 200m");
    lemma_differ_in_length("moored", "towing > 200m");
    lemma_differ_in_length("moored", "pushing");
    lemma_differ_in_length("moored", "pilotage");
    lemma_differ_in_length("moored", "sailing");
    lemma_differ_in_length("moored", "fishing");
    lemma_differ_in_length("moored", "fishing-hampered");
    lemma_differ_in_length("moored", "trawling");
    lemma_differ_in_length("moored", "trawling-shooting");
    lemma_differ_in_length("moored", "trawling-hauling");
    lemma_differ_in_length("moored", "constrained by draft");
    lemma_differ_in_length("moored", "not under command");
    lemma_differ_in_length("moored", "anchored");
    lemma_differ_in_length("aground", "motoring");
    lemma_differ_in_length("aground", "towing < 200m");
    lemma_differ_in_length("aground", "towing > 200m");
    lemma_differ_at("aground", "pushing", 0);
    lemma_differ_in_length("aground", "pilotage");
    lemma_differ_at("aground", "sailing", 0);
    lemma_differ_at("aground", "fishing", 0);
    lemma_differ_in_length("aground", "fishing-hampered");
    lemma_differ_in_length("aground", "trawling");
    lemma_differ_in_length("aground", "trawling-shooting");
    lemma_differ_in_length("aground", "trawling-hauling");
    lemma_differ_in_length("aground", "constrained by draft");
    lemma_differ_in_length("aground", "not under command");
    lemma_differ_in_length("aground", "anchored");
    lemma_differ_in_length("aground", "moored");
    lemma_differ_in_length("not-under-way", "motoring");
    lemma_differ_at("not-under-way", "towing < 200m", 0);
    lemma_differ_at("not-under-way", "towing > 200m", 0);
    lemma_differ_in_length("not-under-way", "pushing");
    lemma_differ_in_length("not-under-way", "pilotage");
    lemma_differ_in_length("not-under-way", "sailing");
    lemma_differ_in_length("not-under-way", "fishing");
    lemma_differ_in_length("not-under-way", "fishing-hampered");
    lemma_differ_in_length("not-under-way", "trawling");
    lemma_differ_in_length("not-under-way", "trawling-shooting");
    lemma_differ_in_length("not-under-way", "trawling-hauling");
    lemma_differ_in_length("not-under-way", "constrained by draft");
    lemma_differ_in_length("not-under-way", "not under command");
    lemma_differ_in_length("not-under-way", "anchored");
    lemma_differ_in_length("not-under-way", "moored");
    lemma_differ_in_length("not-under-way", "aground");
    lemma_differ_in_length("mine clearance", "motoring");
    lemma_differ_in_length("mine clearance", "towing < 200m");
    lemma_differ_in_length("mine clearance", "towing > 200m");
    lemma_differ_in_length("mine clearance", "pushing");
    lemma_differ_in_length("mine clearance", "pilotage");
    lemma_differ_in_length("mine clearance", "sailing");
    lemma_differ_in_length("mine clearance", "fishing");
    lemma_differ_in_length("mine clearance", "fishing-hampered");
    lemma_differ_in_length("mine clearance", "trawling");
    lemma_differ_in_length("mine clearance", "trawling-shooting");
    lemma_differ_in_length("mine clearance", "trawling-hauling");
    lemma_differ_in_length("mine clearance", "constrained by draft");
    lemma_differ_in_length("mine clearance", "not under command");
    lemma_differ_in_length("mine clearance", "anchored");
    lemma_differ_in_length("mine clearance", "moored");
    lemma_differ_in_length("mine clearance", "aground");
    lemma_differ_in_length("mine clearance", "not-under-way");
}

} // verus!
