//! Collision-avoidance manoeuvre within COLREGs and ship constraints.
//!
//! A manoeuvre must be to a permitted side, large enough to be readily
//! apparent (Rule 8 (b)) and no larger than the ship accepts, and must not
//! close one target while opening another. The plot of each target after an
//! alteration is computed outside the library; here are the alterations to
//! try, in order, whether a plotted alteration clears every target, and the
//! choice among the ones that do: the smallest, starboard on a tie.
use vstd::prelude::*;

use crate::error::{ensure_range, KernelError, NavigationError};
use crate::event::TargetId;
use crate::time::Duration;
use crate::turning::RateOfTurn;
use crate::units::{wrap180, wrap180_spec, wrap360_spec, Angle, Distance, TrueCourse};

verus! {

/// Largest alteration of course considered: a reversal, microdegrees.
pub const MAX_ALTERATION: i64 = 180_000_000;

/// Permitted alteration side.
#[derive(Clone, Copy, Debug, PartialEq, Eq, Hash, Structural)]
pub enum PermittedSides {
    /// Either side; the smaller alteration is chosen.
    Either,
    /// Starboard only.
    Starboard,
    /// Port only.
    Port,
}

impl PermittedSides {
    /// Starboard alteration permitted.
    pub fn starboard(self) -> (r: bool)
        ensures
            r == (self is Either || self is Starboard),
    {
        match self {
            PermittedSides::Either | PermittedSides::Starboard => true,
            PermittedSides::Port => false,
        }
    }

    /// Port alteration permitted.
    pub fn port(self) -> (r: bool)
        ensures
            r == (self is Either || self is Port),
    {
        match self {
            PermittedSides::Either | PermittedSides::Port => true,
            PermittedSides::Starboard => false,
        }
    }
}

/// Manoeuvre constraints, as the contracts see them.
#[derive(Clone, Copy, Debug, PartialEq, Eq)]
pub struct ManoeuvreSettings {
    /// Permitted side.
    pub sides: PermittedSides,
    /// Least alteration: smaller answers are raised to it.
    pub least_alteration: Angle,
    /// Most alteration: the ship's limit.
    pub most_alteration: Angle,
    /// Rate of turn, always positive, if known.
    pub rate_of_turn: Option<RateOfTurn>,
}

/// Manoeuvre constraints, validated once by [`ManoeuvreConstraints::new`].
#[derive(Clone, Copy, Debug, PartialEq, Eq)]
pub struct ManoeuvreConstraints {
    sides: PermittedSides,
    least_alteration: Angle,
    most_alteration: Angle,
    rate_of_turn: Option<RateOfTurn>,
}

impl View for ManoeuvreConstraints {
    type V = ManoeuvreSettings;

    closed spec fn view(&self) -> ManoeuvreSettings {
        ManoeuvreSettings {
            sides: self.sides,
            least_alteration: self.least_alteration,
            most_alteration: self.most_alteration,
            rate_of_turn: self.rate_of_turn,
        }
    }
}

impl ManoeuvreConstraints {
    #[verifier::type_invariant]
    closed spec fn ordered(&self) -> bool {
        &&& 0 <= self.least_alteration@ <= self.most_alteration@ <= MAX_ALTERATION
        &&& (self.rate_of_turn matches Some(r) ==> r.microdegrees_per_minute > 0)
    }

    /// Alterations to the permitted `sides`, between `least_alteration` and
    /// `most_alteration`.
    ///
    /// # Errors
    ///
    /// [`KernelError::OutOfRange`] unless `0° ≤ least ≤ most ≤ 180°`.
    pub fn new(sides: PermittedSides, least_alteration: Angle, most_alteration: Angle) -> (r:
        Result<ManoeuvreConstraints, NavigationError>)
        ensures
            match r {
                Ok(c) => 0 <= least_alteration@ <= most_alteration@ <= MAX_ALTERATION && c@ == (
                ManoeuvreSettings { sides, least_alteration, most_alteration, rate_of_turn: None }),
                Err(e) => !(0 <= least_alteration@ <= most_alteration@ <= MAX_ALTERATION)
                    && e matches NavigationError::Kernel(KernelError::OutOfRange { .. }),
            },
    {
        ensure_range("least alteration", least_alteration.microdegrees, 0, MAX_ALTERATION)?;
        ensure_range(
            "most alteration",
            most_alteration.microdegrees,
            least_alteration.microdegrees,
            MAX_ALTERATION,
        )?;
        Ok(ManoeuvreConstraints { sides, least_alteration, most_alteration, rate_of_turn: None })
    }

    /// Adds the ship's rate of turn; the sign is ignored.
    ///
    /// # Errors
    ///
    /// [`KernelError::OutOfRange`] for a zero rate (or `i64::MIN`, whose
    /// magnitude is not representable).
    pub fn with_rate_of_turn(self, rate: RateOfTurn) -> (r: Result<
        ManoeuvreConstraints,
        NavigationError,
    >)
        ensures
            match r {
                Ok(c) => rate.microdegrees_per_minute != 0 && rate.microdegrees_per_minute
                    != i64::MIN && c@ == (ManoeuvreSettings {
                    rate_of_turn: Some(
                        RateOfTurn {
                            microdegrees_per_minute: if rate.microdegrees_per_minute > 0 {
                                rate.microdegrees_per_minute
                            } else {
                                (-rate.microdegrees_per_minute) as i64
                            },
                        },
                    ),
                    ..self@
                }),
                Err(e) => (rate.microdegrees_per_minute == 0 || rate.microdegrees_per_minute
                    == i64::MIN) && e matches NavigationError::Kernel(KernelError::OutOfRange { .. }),
            },
    {
        proof {
            use_type_invariant(&self);
        }
        if rate.microdegrees_per_minute == 0 || rate.microdegrees_per_minute == i64::MIN {
            return Err(
                NavigationError::Kernel(
                    KernelError::OutOfRange {
                        parameter: "rate of turn",
                        value: rate.microdegrees_per_minute,
                        min: 1,
                        max: i64::MAX,
                    },
                ),
            );
        }
        let magnitude = if rate.microdegrees_per_minute > 0 {
            rate.microdegrees_per_minute
        } else {
            -rate.microdegrees_per_minute
        };
        Ok(
            ManoeuvreConstraints {
                rate_of_turn: Some(RateOfTurn { microdegrees_per_minute: magnitude }),
                ..self
            },
        )
    }

    /// Permitted side.
    pub fn sides(&self) -> (r: PermittedSides)
        ensures
            r == self@.sides,
    {
        self.sides
    }

    /// Minimum alteration.
    pub fn least_alteration(&self) -> (r: Angle)
        ensures
            r == self@.least_alteration,
    {
        self.least_alteration
    }

    /// Maximum alteration.
    pub fn most_alteration(&self) -> (r: Angle)
        ensures
            r == self@.most_alteration,
    {
        self.most_alteration
    }

    /// Rate of turn, if known; always positive.
    pub fn rate_of_turn(&self) -> (r: Option<RateOfTurn>)
        ensures
            r == self@.rate_of_turn,
    {
        self.rate_of_turn
    }
}

/// Step between the alterations tried: one degree, microdegrees.
pub const ALTERATION_STEP: i64 = 1_000_000;

/// How a target approaches after an alteration, as its plot gives it.
#[derive(Clone, Copy, Debug, PartialEq, Eq, Structural)]
pub enum Approach {
    /// Closing to a closest point of approach at this distance.
    Closing { distance: Distance },
    /// Opening: the current range is the least it will be.
    Opening { current_range: Distance },
    /// Range constant.
    Stationary { range: Distance },
}

/// Distance a target passes at: the CPA of a closing one, else its range now,
/// its least from here on.
pub open spec fn passing(a: Approach) -> int {
    match a {
        Approach::Closing { distance } => distance@,
        Approach::Opening { current_range } => current_range@,
        Approach::Stationary { range } => range@,
    }
}

/// Whether a target's plot fails an alteration: no plot, or a CPA closer
/// than `desired`.
pub open spec fn fails(plot: Option<Approach>, desired: int) -> bool {
    match plot {
        None => true,
        Some(Approach::Closing { distance }) => distance@ < desired,
        Some(_) => false,
    }
}

/// Whether `i` is the first target passing closest.
pub open spec fn first_closest(plots: Seq<(Option<TargetId>, Option<Approach>)>, i: int) -> bool {
    &&& 0 <= i < plots.len()
    &&& plots[i].1 is Some
    &&& forall|j: int| 0 <= j < i ==> passing(plots[j].1.unwrap()) > passing(plots[i].1.unwrap())
    &&& forall|j: int| 0 <= j < plots.len() ==> passing(plots[j].1.unwrap()) >= passing(plots[i].1.unwrap())
}

/// Whether an alteration clears every target, from each target's plot after
/// it: `None` if a target has no plot or closes inside `desired`; else the
/// least passing distance and the first target passing at it, or, with no
/// target at all, the greatest distance and none.
///
/// Distances are compared in whole millimetres: a CPA at the desired
/// distance clears.
pub fn clears(plots: &[(Option<TargetId>, Option<Approach>)], desired: Distance) -> (r: Option<(Distance, Option<TargetId>)>)
    ensures
        match r {
            None => exists|i: int| 0 <= i < plots@.len() && #[trigger] fails(plots@[i].1, desired@),
            Some((least, target)) => (forall|i: int|
                0 <= i < plots@.len() ==> !#[trigger] fails(plots@[i].1, desired@)) && if plots@.len()
                == 0 {
                least@ == i64::MAX && target is None
            } else {
                exists|i: int|
                    #[trigger] first_closest(plots@, i) && least@ == passing(plots@[i].1.unwrap())
                        && target == plots@[i].0
            },
        },
{
    let mut least: Option<(Distance, Option<TargetId>)> = None;
    let ghost mut at: int = 0;
    let mut i: usize = 0;
    while i < plots.len()
        invariant
            i <= plots@.len(),
            forall|j: int| 0 <= j < i ==> !#[trigger] fails(plots@[j].1, desired@),
            i == 0 <==> least is None,
            least matches Some((d, t)) ==> 0 <= at < i && plots@[at].1 is Some && d@ == passing(
                plots@[at].1.unwrap(),
            ) && t == plots@[at].0 && (forall|j: int|
                0 <= j < at ==> passing(plots@[j].1.unwrap()) > d@) && (forall|j: int|
                0 <= j < i ==> passing(plots@[j].1.unwrap()) >= d@),
        decreases plots@.len() - i,
    {
        let (target, plot) = plots[i];
        let distance = match plot {
            None => {
                proof {
                    assert(fails(plots@[i as int].1, desired@));
                }
                return None;
            },
            Some(Approach::Closing { distance }) => {
                if distance.millimetres < desired.millimetres {
                    proof {
                        assert(fails(plots@[i as int].1, desired@));
                    }
                    return None;
                }
                distance
            },
            Some(Approach::Opening { current_range }) => current_range,
            Some(Approach::Stationary { range }) => range,
        };
        let replace = match least {
            None => true,
            Some((current, _)) => distance.millimetres < current.millimetres,
        };
        if replace {
            least = Some((distance, target));
            proof {
                at = i as int;
            }
        }
        i = i + 1;
    }
    match least {
        Some(found) => {
            proof {
                assert(first_closest(plots@, at));
            }
            Some(found)
        },
        None => Some((Distance::from_millimetres(i64::MAX), None)),
    }
}

/// Exact alteration on one side (`sign` 1 starboard, −1 port) from a seed
/// course, raised to the least alteration; `None` without a seed or with one
/// on the other side.
pub open spec fn seeded(own: int, seed: Option<TrueCourse>, sign: int, least: int) -> Option<int> {
    match seed {
        None => None,
        Some(course) => {
            let alteration = wrap180_spec(course@ - own);
            if alteration * sign > 0 {
                let magnitude = if alteration >= 0 {
                    alteration
                } else {
                    -alteration
                };
                Some(
                    if magnitude >= least {
                        magnitude
                    } else {
                        least
                    },
                )
            } else {
                None
            }
        },
    }
}

/// Whole-degree steps from the least alteration up to the most.
pub open spec fn grid(least: int, most: int) -> Seq<int> {
    Seq::new((((most - least) / (ALTERATION_STEP as int)) + 1) as nat, |k: int| least + k * ALTERATION_STEP)
}

/// Alterations to try on one side, magnitudes in microdegrees, in order: the
/// exact one first if within the most, then each whole degree from the least
/// up; none on a side not permitted.
pub open spec fn side_tries(
    permitted: bool,
    own: int,
    seed: Option<TrueCourse>,
    sign: int,
    least: int,
    most: int,
) -> Seq<int> {
    if !permitted {
        seq![]
    } else {
        let first = match seeded(own, seed, sign, least) {
            Some(a) => if a <= most {
                seq![a]
            } else {
                seq![]
            },
            None => seq![],
        };
        first + grid(least, most)
    }
}

/// Alterations to plot, magnitudes in microdegrees, in the order tried.
#[derive(Debug)]
pub struct Alterations {
    starboard: Vec<i64>,
    port: Vec<i64>,
}

/// Whether every magnitude is an alteration the search may make.
pub open spec fn within_reversal(s: Seq<i64>) -> bool {
    forall|i: int| 0 <= i < s.len() ==> 0 <= #[trigger] s[i] <= MAX_ALTERATION
}

impl Alterations {
    #[verifier::type_invariant]
    closed spec fn in_range(&self) -> bool {
        within_reversal(self.starboard@) && within_reversal(self.port@)
    }

    /// Magnitudes to try to starboard, in order.
    pub closed spec fn starboard_tries(&self) -> Seq<i64> {
        self.starboard@
    }

    /// Magnitudes to try to port, in order.
    pub closed spec fn port_tries(&self) -> Seq<i64> {
        self.port@
    }

    /// Magnitudes to try to starboard, microdegrees, in order.
    pub fn starboard(&self) -> (r: &[i64])
        ensures
            r@ == self.starboard_tries(),
            within_reversal(r@),
    {
        proof {
            use_type_invariant(self);
        }
        self.starboard.as_slice()
    }

    /// Magnitudes to try to port, microdegrees, in order.
    pub fn port(&self) -> (r: &[i64])
        ensures
            r@ == self.port_tries(),
            within_reversal(r@),
    {
        proof {
            use_type_invariant(self);
        }
        self.port.as_slice()
    }
}

/// Appends the alterations to try on one side.
fn push_side(out: &mut Vec<i64>, seed: Option<i64>, least: i64, most: i64)
    requires
        old(out)@.len() == 0,
        0 <= least <= most <= MAX_ALTERATION,
    ensures
        final(out)@.len() == (match seed {
            Some(a) => if a <= most {
                seq![a as int]
            } else {
                seq![]
            },
            None => seq![],
        } + grid(least as int, most as int)).len(),
        forall|i: int|
            0 <= i < final(out)@.len() ==> #[trigger] final(out)@[i] == (match seed {
                Some(a) => if a <= most {
                    seq![a as int]
                } else {
                    seq![]
                },
                None => seq![],
            } + grid(least as int, most as int))[i],
        (seed matches Some(a) ==> 0 <= a) ==> within_reversal(final(out)@),
{
    let ghost first: Seq<int> = match seed {
        Some(a) => if a <= most {
            seq![a as int]
        } else {
            seq![]
        },
        None => seq![],
    };
    match seed {
        Some(a) => if a <= most {
            out.push(a);
        },
        None => {},
    }
    let steps = (most - least) / ALTERATION_STEP;
    let ghost g = grid(least as int, most as int);
    assert(g.len() == steps + 1);
    let mut k: i64 = 0;
    while k <= steps
        invariant
            0 <= k <= steps + 1,
            steps == (most - least) / (ALTERATION_STEP as int),
            0 <= least <= most <= MAX_ALTERATION,
            g == grid(least as int, most as int),
            out@.len() == first.len() + k,
            forall|i: int| 0 <= i < out@.len() ==> #[trigger] out@[i] == (first + g)[i],
            (seed matches Some(a) ==> 0 <= a) ==> within_reversal(out@),
        decreases steps + 1 - k,
    {
        proof {
            assert(k * ALTERATION_STEP <= most - least) by (nonlinear_arith)
                requires
                    k <= steps,
                    steps == (most - least) / (ALTERATION_STEP as int),
                    most - least >= 0,
            ;
            assert(g[k as int] == least + k * ALTERATION_STEP);
        }
        out.push(least + k * ALTERATION_STEP);
        k = k + 1;
    }
}

/// Alterations to plot for a manoeuvre from `own_course`, on each permitted
/// side: the exact alteration from the plot (`starboard_seed`,
/// `port_seed`: courses that give the desired CPA, if the plot has them)
/// first, then every whole degree from the least alteration to the most.
pub fn alterations(
    own_course: TrueCourse,
    constraints: &ManoeuvreConstraints,
    starboard_seed: Option<TrueCourse>,
    port_seed: Option<TrueCourse>,
) -> (r: Alterations)
    ensures
        r.starboard_tries().len() == side_tries(
            constraints@.sides is Either || constraints@.sides is Starboard,
            own_course@,
            starboard_seed,
            1,
            constraints@.least_alteration@,
            constraints@.most_alteration@,
        ).len(),
        forall|i: int|
            0 <= i < r.starboard_tries().len() ==> #[trigger] r.starboard_tries()[i] == side_tries(
                constraints@.sides is Either || constraints@.sides is Starboard,
                own_course@,
                starboard_seed,
                1,
                constraints@.least_alteration@,
                constraints@.most_alteration@,
            )[i],
        r.port_tries().len() == side_tries(
            constraints@.sides is Either || constraints@.sides is Port,
            own_course@,
            port_seed,
            -1,
            constraints@.least_alteration@,
            constraints@.most_alteration@,
        ).len(),
        forall|i: int|
            0 <= i < r.port_tries().len() ==> #[trigger] r.port_tries()[i] == side_tries(
                constraints@.sides is Either || constraints@.sides is Port,
                own_course@,
                port_seed,
                -1,
                constraints@.least_alteration@,
                constraints@.most_alteration@,
            )[i],
{
    proof {
        use_type_invariant(constraints);
    }
    let least = constraints.least_alteration.microdegrees;
    let most = constraints.most_alteration.microdegrees;
    let mut starboard: Vec<i64> = Vec::new();
    if constraints.sides.starboard() {
        push_side(&mut starboard, seed_alteration(own_course, starboard_seed, true, least), least, most);
    }
    let mut port: Vec<i64> = Vec::new();
    if constraints.sides.port() {
        push_side(&mut port, seed_alteration(own_course, port_seed, false, least), least, most);
    }
    Alterations { starboard, port }
}

/// Exact alteration on one side from a seed course, raised to the least.
fn seed_alteration(own_course: TrueCourse, seed: Option<TrueCourse>, starboard: bool, least: i64) -> (r: Option<i64>)
    requires
        0 <= least <= MAX_ALTERATION,
    ensures
        r matches Some(a) ==> 0 <= a <= MAX_ALTERATION,
        match seeded(own_course@, seed, if starboard { 1 } else { -1 }, least as int) {
            Some(a) => r == Some(a as i64),
            None => r is None,
        },
{
    match seed {
        None => None,
        Some(course) => {
            let alteration = own_course.signed_difference(course);
            proof {
                assert(wrap180_spec(course@ - own_course@) == alteration);
            }
            let on_side = if starboard {
                alteration > 0
            } else {
                alteration < 0
            };
            if !on_side {
                return None;
            }
            let magnitude = if alteration >= 0 {
                alteration
            } else {
                -alteration
            };
            Some(
                if magnitude >= least {
                    magnitude
                } else {
                    least
                },
            )
        },
    }
}

/// Side of an alteration of course.
#[derive(Clone, Copy, Debug, PartialEq, Eq, Hash, Structural)]
pub enum Side {
    /// To port.
    Port,
    /// To starboard.
    Starboard,
}

/// A manoeuvre, as the contracts see it.
#[derive(Clone, Copy, Debug, PartialEq, Eq)]
pub struct ManoeuvreState {
    /// Course to steer.
    pub course: TrueCourse,
    /// Alteration from the current course, positive to starboard.
    pub alteration: Angle,
    /// Time to complete the alteration, if the rate of turn is known.
    pub turn_time: Option<Duration>,
    /// Least passing distance after the alteration.
    pub least_passing: Distance,
    /// Target passing closest.
    pub limiting_target: Option<TargetId>,
}

/// Collision-avoidance manoeuvre: the course to steer and what it gives.
#[derive(Clone, Copy, Debug, PartialEq, Eq)]
pub struct AvoidanceManoeuvre {
    course: TrueCourse,
    alteration: Angle,
    turn_time: Option<Duration>,
    least_passing: Distance,
    limiting_target: Option<TargetId>,
}

impl View for AvoidanceManoeuvre {
    type V = ManoeuvreState;

    closed spec fn view(&self) -> ManoeuvreState {
        ManoeuvreState {
            course: self.course,
            alteration: self.alteration,
            turn_time: self.turn_time,
            least_passing: self.least_passing,
            limiting_target: self.limiting_target,
        }
    }
}

impl AvoidanceManoeuvre {
    /// Course to steer.
    pub fn course(&self) -> (r: TrueCourse)
        ensures
            r == self@.course,
    {
        self.course
    }

    /// Alteration from the current course, positive to starboard.
    pub fn alteration(&self) -> (r: Angle)
        ensures
            r == self@.alteration,
    {
        self.alteration
    }

    /// Side of the alteration: port for a negative one, else starboard.
    pub fn side(&self) -> (r: Side)
        ensures
            r == if self@.alteration@ < 0 {
                Side::Port
            } else {
                Side::Starboard
            },
    {
        if self.alteration.microdegrees < 0 {
            Side::Port
        } else {
            Side::Starboard
        }
    }

    /// Time to complete the alteration at the given rate of turn; `None` if no
    /// rate was given.
    pub fn turn_time(&self) -> (r: Option<Duration>)
        ensures
            r == self@.turn_time,
    {
        self.turn_time
    }

    /// Least passing distance after the alteration: at least the desired
    /// distance, except for a target already opening from inside it (its
    /// current range).
    pub fn least_passing(&self) -> (r: Distance)
        ensures
            r == self@.least_passing,
    {
        self.least_passing
    }

    /// Target passing closest, where targets are named.
    pub fn limiting_target(&self) -> (r: Option<TargetId>)
        ensures
            r == self@.limiting_target,
    {
        self.limiting_target
    }
}

/// What plotting an alteration gave: the least passing distance and its
/// target if it clears every target, else `None`.
pub type Outcome = Option<(Distance, Option<TargetId>)>;

/// Index of the first alteration among the first `n` that clears.
pub open spec fn first_clear(outcomes: Seq<Option<(Distance, Option<TargetId>)>>, n: int) -> Option<
    int,
>
    decreases n,
{
    if n <= 0 {
        None
    } else {
        match first_clear(outcomes, n - 1) {
            Some(i) => Some(i),
            None => if outcomes[n - 1] is Some {
                Some(n - 1)
            } else {
                None
            },
        }
    }
}

/// Lesser of two counts.
pub open spec fn least_of(a: int, b: int) -> int {
    if a <= b {
        a
    } else {
        b
    }
}

/// The alteration chosen, signed, with what it gives: the first that clears
/// on each side, the smaller of the two, starboard on a tie.
pub open spec fn chosen(
    starboard: Seq<i64>,
    starboard_outcomes: Seq<Option<(Distance, Option<TargetId>)>>,
    port: Seq<i64>,
    port_outcomes: Seq<Option<(Distance, Option<TargetId>)>>,
) -> Option<(int, Distance, Option<TargetId>)> {
    let s = first_clear(starboard_outcomes, least_of(starboard.len() as int, starboard_outcomes.len() as int));
    let p = first_clear(port_outcomes, least_of(port.len() as int, port_outcomes.len() as int));
    match s {
        Some(i) => match p {
            Some(j) => if port[j] < starboard[i] {
                Some((-port[j], port_outcomes[j].unwrap().0, port_outcomes[j].unwrap().1))
            } else {
                Some((starboard[i] as int, starboard_outcomes[i].unwrap().0, starboard_outcomes[i].unwrap().1))
            },
            None => Some((starboard[i] as int, starboard_outcomes[i].unwrap().0, starboard_outcomes[i].unwrap().1)),
        },
        None => match p {
            Some(j) => Some((-port[j], port_outcomes[j].unwrap().0, port_outcomes[j].unwrap().1)),
            None => None,
        },
    }
}

/// Time to turn through `alteration` microdegrees at `rate` microdegrees a
/// minute, nanoseconds, truncated.
pub open spec fn turn_nanos(alteration: int, rate: int) -> int {
    let magnitude = if alteration >= 0 {
        alteration
    } else {
        -alteration
    };
    (magnitude * 60_000_000_000) / rate
}

/// First alteration in `tries` that `outcomes` says clears, among those with
/// an outcome.
fn first_clearing(tries: &[i64], outcomes: &[Option<(Distance, Option<TargetId>)>]) -> (r: Option<usize>)
    ensures
        match r {
            Some(i) => first_clear(outcomes@, least_of(tries@.len() as int, outcomes@.len() as int))
                == Some(i as int),
            None => first_clear(outcomes@, least_of(tries@.len() as int, outcomes@.len() as int)) is None,
        },
        r matches Some(i) ==> i < tries@.len() && i < outcomes@.len() && outcomes@[i as int] is Some,
{
    let n = if tries.len() <= outcomes.len() {
        tries.len()
    } else {
        outcomes.len()
    };
    let mut i: usize = 0;
    while i < n
        invariant
            n == least_of(tries@.len() as int, outcomes@.len() as int),
            i <= n,
            first_clear(outcomes@, i as int) is None,
        decreases n - i,
    {
        if outcomes[i].is_some() {
            proof {
                assert(first_clear(outcomes@, i + 1) == Some(i as int));
                lemma_first_clear_stays(outcomes@, i + 1, n as int);
            }
            return Some(i);
        }
        i = i + 1;
    }
    None
}

/// Once found, the first clearing alteration stays the first.
proof fn lemma_first_clear_stays(outcomes: Seq<Option<(Distance, Option<TargetId>)>>, m: int, n: int)
    requires
        0 <= m <= n,
        first_clear(outcomes, m) is Some,
    ensures
        first_clear(outcomes, n) == first_clear(outcomes, m),
    decreases n - m,
{
    if m < n {
        lemma_first_clear_stays(outcomes, m, n - 1);
    }
}

/// The manoeuvre from the plots of the alterations tried: on each side the
/// first alteration that clears every target, the smaller of the two,
/// starboard on a tie; its course, turn time and passing.
///
/// `starboard_outcomes` and `port_outcomes` hold what plotting each of the
/// [`Alterations`] gave, in order; an alteration with no outcome is taken as
/// not clearing.
///
/// # Errors
///
/// [`NavigationError::NoSolution`] if no alteration tried clears.
pub fn choose_alteration(
    own_course: TrueCourse,
    constraints: &ManoeuvreConstraints,
    tries: &Alterations,
    starboard_outcomes: &[Option<(Distance, Option<TargetId>)>],
    port_outcomes: &[Option<(Distance, Option<TargetId>)>],
) -> (r: Result<AvoidanceManoeuvre, NavigationError>)
    ensures
        match chosen(tries.starboard_tries(), starboard_outcomes@, tries.port_tries(), port_outcomes@) {
            Some((alteration, passing, target)) => r matches Ok(m) && m@.alteration@ == alteration
                && m@.course@ == wrap360_spec(own_course@ + alteration) && m@.least_passing == passing
                && m@.limiting_target == target && m@.turn_time == match constraints@.rate_of_turn {
                Some(rate) => Some(
                    Duration { nanos: turn_nanos(alteration, rate.microdegrees_per_minute as int) as u64 },
                ),
                None => None,
            },
            None => r == Err::<AvoidanceManoeuvre, NavigationError>(
                NavigationError::NoSolution {
                    context: "an alteration within the constraints that opens every target that far",
                },
            ),
        },
{
    proof {
        use_type_invariant(constraints);
    }
    let starboard = tries.starboard();
    let port = tries.port();
    let s = first_clearing(starboard, starboard_outcomes);
    let p = first_clearing(port, port_outcomes);
    let picked: Option<(i64, Distance, Option<TargetId>)> = match s {
        Some(i) => {
            let (passing, target) = starboard_outcomes[i].unwrap();
            match p {
                Some(j) => {
                    if port[j] < starboard[i] {
                        let (port_passing, port_target) = port_outcomes[j].unwrap();
                        Some((-port[j], port_passing, port_target))
                    } else {
                        Some((starboard[i], passing, target))
                    }
                },
                None => Some((starboard[i], passing, target)),
            }
        },
        None => match p {
            Some(j) => {
                let (port_passing, port_target) = port_outcomes[j].unwrap();
                Some((-port[j], port_passing, port_target))
            },
            None => None,
        },
    };
    let (alteration, least_passing, limiting_target) = match picked {
        Some(found) => found,
        None => {
            return Err(
                NavigationError::NoSolution {
                    context: "an alteration within the constraints that opens every target that far",
                },
            );
        },
    };
    let turn_time = match constraints.rate_of_turn {
        Some(rate) => {
            let magnitude: u128 = if alteration >= 0 {
                alteration as u128
            } else {
                (-alteration) as u128
            };
            proof {
                assert(magnitude * 60_000_000_000 <= 180_000_000 * 60_000_000_000) by (nonlinear_arith)
                    requires
                        magnitude <= 180_000_000,
                ;
                assert((magnitude * 60_000_000_000) / (rate.microdegrees_per_minute as int)
                    <= magnitude * 60_000_000_000) by (nonlinear_arith)
                    requires
                        rate.microdegrees_per_minute >= 1,
                ;
            }
            let nanos = (magnitude * 60_000_000_000) / (rate.microdegrees_per_minute as u128);
            Some(Duration { nanos: nanos as u64 })
        },
        None => None,
    };
    let course = TrueCourse::from_wrapped(own_course.microdegrees() + alteration);
    Ok(
        AvoidanceManoeuvre {
            course,
            alteration: Angle::from_microdegrees(alteration),
            turn_time,
            least_passing,
            limiting_target,
        },
    )
}

/// Every alteration tried on a permitted side is between the least and the
/// most alteration.
proof fn lemma_tries_within(permitted: bool, own: int, seed: Option<TrueCourse>, sign: int, least: int, most: int, i: int)
    requires
        0 <= least <= most,
        0 <= i < side_tries(permitted, own, seed, sign, least, most).len(),
    ensures
        permitted,
        least <= side_tries(permitted, own, seed, sign, least, most)[i] <= most,
{
    let first = match seeded(own, seed, sign, least) {
        Some(a) => if a <= most {
            seq![a]
        } else {
            seq![]
        },
        None => seq![],
    };
    let g = grid(least, most);
    if i >= first.len() {
        let k = i - first.len();
        assert(g[k] == least + k * ALTERATION_STEP);
        assert(k * ALTERATION_STEP <= most - least) by (nonlinear_arith)
            requires
                0 <= k < (most - least) / (ALTERATION_STEP as int) + 1,
                most - least >= 0,
        ;
        assert(k * ALTERATION_STEP >= 0) by (nonlinear_arith)
            requires
                k >= 0,
        ;
    }
}

/// The first alteration that clears, if any, is among those tried and did
/// clear.
proof fn lemma_first_clear_found(outcomes: Seq<Option<(Distance, Option<TargetId>)>>, n: int)
    requires
        first_clear(outcomes, n) is Some,
    ensures
        0 <= first_clear(outcomes, n).unwrap() < n,
        outcomes[first_clear(outcomes, n).unwrap()] is Some,
        forall|j: int| 0 <= j < first_clear(outcomes, n).unwrap() ==> outcomes[j] is None,
    decreases n,
{
    if n > 0 && first_clear(outcomes, n - 1) is Some {
        lemma_first_clear_found(outcomes, n - 1);
    } else if n > 0 {
        lemma_first_clear_none(outcomes, n - 1);
    }
}

/// With no clearing alteration among the first `n`, none of them cleared.
proof fn lemma_first_clear_none(outcomes: Seq<Option<(Distance, Option<TargetId>)>>, n: int)
    requires
        first_clear(outcomes, n) is None,
    ensures
        forall|j: int| 0 <= j < n ==> outcomes[j] is None,
    decreases n,
{
    if n > 0 {
        lemma_first_clear_none(outcomes, n - 1);
    }
}

/// The alteration chosen from the alterations tried keeps to the
/// constraints: to a permitted side, no less than the least alteration and
/// no more than the most.
pub proof fn law_chosen_within_constraints(
    own: TrueCourse,
    settings: ManoeuvreSettings,
    starboard_seed: Option<TrueCourse>,
    port_seed: Option<TrueCourse>,
    starboard_outcomes: Seq<Option<(Distance, Option<TargetId>)>>,
    port_outcomes: Seq<Option<(Distance, Option<TargetId>)>>,
    starboard: Seq<i64>,
    port: Seq<i64>,
)
    requires
        0 <= settings.least_alteration@ <= settings.most_alteration@ <= MAX_ALTERATION,
        starboard.len() == side_tries(
            settings.sides is Either || settings.sides is Starboard,
            own@,
            starboard_seed,
            1,
            settings.least_alteration@,
            settings.most_alteration@,
        ).len(),
        forall|i: int|
            0 <= i < starboard.len() ==> #[trigger] starboard[i] == side_tries(
                settings.sides is Either || settings.sides is Starboard,
                own@,
                starboard_seed,
                1,
                settings.least_alteration@,
                settings.most_alteration@,
            )[i],
        port.len() == side_tries(
            settings.sides is Either || settings.sides is Port,
            own@,
            port_seed,
            -1,
            settings.least_alteration@,
            settings.most_alteration@,
        ).len(),
        forall|i: int|
            0 <= i < port.len() ==> #[trigger] port[i] == side_tries(
                settings.sides is Either || settings.sides is Port,
                own@,
                port_seed,
                -1,
                settings.least_alteration@,
                settings.most_alteration@,
            )[i],
    ensures
        chosen(starboard, starboard_outcomes, port, port_outcomes) matches Some((a, _, _)) ==> {
            &&& (a > 0 ==> settings.sides !is Port)
            &&& (a < 0 ==> settings.sides !is Starboard)
            &&& settings.least_alteration@ <= if a >= 0 {
                a
            } else {
                -a
            } <= settings.most_alteration@
        },
{
    let least = settings.least_alteration@;
    let most = settings.most_alteration@;
    let ns = least_of(starboard.len() as int, starboard_outcomes.len() as int);
    let np = least_of(port.len() as int, port_outcomes.len() as int);
    if first_clear(starboard_outcomes, ns) is Some {
        lemma_first_clear_found(starboard_outcomes, ns);
        let i = first_clear(starboard_outcomes, ns).unwrap();
        lemma_tries_within(
            settings.sides is Either || settings.sides is Starboard,
            own@,
            starboard_seed,
            1,
            least,
            most,
            i,
        );
        assert(starboard[i] == side_tries(
            settings.sides is Either || settings.sides is Starboard,
            own@,
            starboard_seed,
            1,
            least,
            most,
        )[i]);
    }
    if first_clear(port_outcomes, np) is Some {
        lemma_first_clear_found(port_outcomes, np);
        let j = first_clear(port_outcomes, np).unwrap();
        lemma_tries_within(
            settings.sides is Either || settings.sides is Port,
            own@,
            port_seed,
            -1,
            least,
            most,
            j,
        );
        assert(port[j] == side_tries(
            settings.sides is Either || settings.sides is Port,
            own@,
            port_seed,
            -1,
            least,
            most,
        )[j]);
    }
}

} // verus!
