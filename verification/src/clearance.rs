//! Squat and under-keel clearance.
//!
//! Depth of water = charted depth + height of tide. Subtract the static draught
//! and the squat — the bodily sinkage of a hull moving in shallow water,
//! growing with the square of speed — to get the under-keel clearance (UKC),
//! which the vessel's policy bounds from below.
//!
//! Barrass squat, speed through the water `V` in kn, block coefficient `Cb`,
//! result in m: open water `Cb · V² / 100`; confined channel `Cb · V² / 50`.
//! Squat and the fraction of draught a policy requires are rounded to the
//! nearest whole millimetre; the sums and differences are exact.
use vstd::prelude::*;

use crate::environment::EnvironmentSample;
use crate::error::{ensure_range, KernelError, NavigationError};
use crate::event::{ClearanceEvent, EventList};
use crate::time::Instant;
use crate::units::{Distance, Speed, MAX_LENGTH_MM, MAX_SPEED_MM_PER_HOUR,
    MILLIMETRES_PER_NAUTICAL_MILE};

verus! {

/// Parts per million in a whole.
pub const PARTS_PER_MILLION: i64 = 1_000_000;

/// Largest fraction of draught a policy may require: ten draughts.
pub const MAX_FRACTION_PPM: i64 = 10_000_000;

/// Hull draught and fullness.
#[derive(Clone, Copy, Debug, PartialEq, Eq)]
pub struct Hull {
    draught: Distance,
    block_coefficient_ppm: i64,
}

impl Hull {
    #[verifier::type_invariant]
    closed spec fn valid(&self) -> bool {
        &&& 0 < self.draught@ <= MAX_LENGTH_MM
        &&& 0 < self.block_coefficient_ppm <= PARTS_PER_MILLION
    }

    /// Static draught.
    pub closed spec fn spec_draught(self) -> Distance {
        self.draught
    }

    /// Block coefficient, parts per million.
    pub closed spec fn spec_block_coefficient(self) -> int {
        self.block_coefficient_ppm as int
    }

    /// Hull with static draught (deepest, at rest) and block coefficient in
    /// parts per million (≈ 400 000 fine yacht to ≥ 850 000 laden tanker).
    ///
    /// # Errors
    ///
    /// [`KernelError::OutOfRange`] if the draught is not positive (or beyond
    /// [`MAX_LENGTH_MM`]) or the block coefficient is not in `(0, 1]`.
    pub fn new(draught: Distance, block_coefficient_ppm: i64) -> (r: Result<Hull, NavigationError>)
        ensures
            match r {
                Ok(h) => {
                    &&& 0 < draught@ <= MAX_LENGTH_MM
                    &&& 0 < block_coefficient_ppm <= PARTS_PER_MILLION
                    &&& h.spec_draught() == draught
                    &&& h.spec_block_coefficient() == block_coefficient_ppm
                },
                Err(e) => !(0 < draught@ <= MAX_LENGTH_MM && 0 < block_coefficient_ppm
                    <= PARTS_PER_MILLION) && e matches NavigationError::Kernel(
                    KernelError::OutOfRange { .. },
                ),
            },
    {
        ensure_range("draught", draught.millimetres, 1, MAX_LENGTH_MM)?;
        ensure_range("block coefficient", block_coefficient_ppm, 1, PARTS_PER_MILLION)?;
        Ok(Hull { draught, block_coefficient_ppm })
    }

    /// Static draught.
    pub fn draught(&self) -> (r: Distance)
        ensures
            r == self.spec_draught(),
            0 < r@ <= MAX_LENGTH_MM,
    {
        proof {
            use_type_invariant(self);
        }
        self.draught
    }

    /// Block coefficient, parts per million.
    pub fn block_coefficient(&self) -> (r: i64)
        ensures
            r == self.spec_block_coefficient(),
            0 < r <= PARTS_PER_MILLION,
    {
        proof {
            use_type_invariant(self);
        }
        self.block_coefficient_ppm
    }
}

/// Waterway confinement for the two Barrass rules.
#[derive(Clone, Copy, Debug, PartialEq, Eq, Hash, Structural)]
pub enum Waterway {
    /// Shallow open water: only the bottom restricts the flow.
    OpenWater,
    /// Confined channel: dredged channel, canal, river.
    ConfinedChannel,
}

/// Minimum UKC policy: the greater of a fixed margin and a fraction of
/// draught.
#[derive(Clone, Copy, Debug, PartialEq, Eq)]
pub struct ClearancePolicy {
    /// Fixed minimum.
    pub minimum: Distance,
    /// Minimum as a fraction of static draught, parts per million (commonly
    /// 100 000).
    pub fraction_of_draught_ppm: i64,
}

/// Required UKC for a draught: max(minimum, fraction × draught), the
/// fraction of draught rounded to the nearest millimetre.
pub open spec fn required_spec(minimum: int, fraction_ppm: int, draught: int) -> int {
    let by_draught = (2 * (draught * fraction_ppm) + PARTS_PER_MILLION) / (2 * PARTS_PER_MILLION as int);
    if minimum >= by_draught {
        minimum
    } else {
        by_draught
    }
}

impl ClearancePolicy {
    /// Required UKC for a hull: max(fixed margin, fraction × draught).
    ///
    /// # Errors
    ///
    /// [`KernelError::OutOfRange`] if either margin is negative, the minimum
    /// is beyond [`MAX_LENGTH_MM`] or the fraction beyond
    /// [`MAX_FRACTION_PPM`].
    pub fn required(&self, hull: &Hull) -> (r: Result<Distance, NavigationError>)
        ensures
            match r {
                Ok(d) => {
                    &&& 0 <= self.minimum@ <= MAX_LENGTH_MM
                    &&& 0 <= self.fraction_of_draught_ppm <= MAX_FRACTION_PPM
                    &&& d@ == required_spec(
                        self.minimum@,
                        self.fraction_of_draught_ppm as int,
                        hull.spec_draught()@,
                    )
                },
                Err(e) => !(0 <= self.minimum@ <= MAX_LENGTH_MM && 0 <= self.fraction_of_draught_ppm
                    <= MAX_FRACTION_PPM) && e matches NavigationError::Kernel(
                    KernelError::OutOfRange { .. },
                ),
            },
    {
        ensure_range("minimum clearance", self.minimum.millimetres, 0, MAX_LENGTH_MM)?;
        ensure_range("fraction of draught", self.fraction_of_draught_ppm, 0, MAX_FRACTION_PPM)?;
        let draught = hull.draught();
        proof {
            assert(0 <= draught@ * self.fraction_of_draught_ppm <= 1_000_000_000_000_000
                * 10_000_000) by (nonlinear_arith)
                requires
                    0 < draught@ <= 1_000_000_000_000_000,
                    0 <= self.fraction_of_draught_ppm <= 10_000_000,
            ;
        }
        let product = (draught.millimetres as i128) * (self.fraction_of_draught_ppm as i128);
        proof {
            assert((2 * product + PARTS_PER_MILLION) / (2 * PARTS_PER_MILLION as int)
                <= 10_000_000_000_000_000) by (nonlinear_arith)
                requires
                    0 <= product <= 1_000_000_000_000_000 * 10_000_000,
            ;
        }
        let by_draught = ((2 * product + PARTS_PER_MILLION as i128) / (2 * PARTS_PER_MILLION as i128)) as i64;
        if self.minimum.millimetres >= by_draught {
            Ok(self.minimum)
        } else {
            Ok(Distance { millimetres: by_draught })
        }
    }
}

/// Barrass squat in millimetres, rounded to the nearest: `Cb · V² / divisor` metres with
/// `V` in knots, for a block coefficient in parts per million and a speed
/// magnitude in millimetres per hour.
pub open spec fn squat_spec(block_coefficient_ppm: int, speed: int, divisor: int) -> int {
    let v = if speed >= 0 {
        speed
    } else {
        -speed
    };
    let whole = 1_000 * (MILLIMETRES_PER_NAUTICAL_MILE as int) * (MILLIMETRES_PER_NAUTICAL_MILE as int)
        * divisor;
    (2 * (block_coefficient_ppm * v * v) + whole) / (2 * whole)
}

/// Squat grows with speed and does not care which way the hull moves: it is
/// the same going astern as ahead, never smaller at a greater speed, never
/// negative, and in a confined channel never smaller than in open water at
/// the same speed.
pub proof fn law_squat_grows_with_speed(block_coefficient_ppm: int, slower: int, faster: int)
    requires
        0 < block_coefficient_ppm,
        0 <= slower <= faster,
    ensures
        squat_spec(block_coefficient_ppm, -faster, squat_divisor(Waterway::OpenWater)) == squat_spec(
            block_coefficient_ppm,
            faster,
            squat_divisor(Waterway::OpenWater),
        ),
        squat_spec(block_coefficient_ppm, -faster, squat_divisor(Waterway::ConfinedChannel))
            == squat_spec(block_coefficient_ppm, faster, squat_divisor(Waterway::ConfinedChannel)),
        0 <= squat_spec(block_coefficient_ppm, slower, squat_divisor(Waterway::OpenWater)),
        squat_spec(block_coefficient_ppm, slower, squat_divisor(Waterway::OpenWater)) <= squat_spec(
            block_coefficient_ppm,
            faster,
            squat_divisor(Waterway::OpenWater),
        ),
        squat_spec(block_coefficient_ppm, slower, squat_divisor(Waterway::ConfinedChannel))
            <= squat_spec(block_coefficient_ppm, faster, squat_divisor(Waterway::ConfinedChannel)),
        squat_spec(block_coefficient_ppm, faster, squat_divisor(Waterway::OpenWater)) <= squat_spec(
            block_coefficient_ppm,
            faster,
            squat_divisor(Waterway::ConfinedChannel),
        ),
{
    let m = MILLIMETRES_PER_NAUTICAL_MILE as int;
    let open = 1_000 * m * m * 100;
    let channel = 1_000 * m * m * 50;
    assert(0 <= block_coefficient_ppm * slower * slower <= block_coefficient_ppm * faster * faster)
        by (nonlinear_arith)
        requires
            0 < block_coefficient_ppm,
            0 <= slower <= faster,
    ;
    let a = block_coefficient_ppm * slower * slower;
    let b = block_coefficient_ppm * faster * faster;
    vstd::arithmetic::div_mod::lemma_div_is_ordered(2 * a + open, 2 * b + open, 2 * open);
    vstd::arithmetic::div_mod::lemma_div_is_ordered(2 * a + channel, 2 * b + channel, 2 * channel);
    vstd::arithmetic::div_mod::lemma_div_is_ordered(0, 2 * a + open, 2 * open);
    // Open water: (2b + 2c) / (4c) with c the channel whole; the channel
    // figure (2b + c) / (2c) is (4b + 2c) / (4c), which is no smaller.
    assert(open == 2 * channel);
    vstd::arithmetic::div_mod::lemma_div_is_ordered(2 * b + open, 4 * b + open, 2 * open);
    let x = 2 * b + channel;
    let d = 2 * channel;
    vstd::arithmetic::div_mod::lemma_fundamental_div_mod(x, d);
    let q = x / d;
    let r = x % d;
    assert(4 * b + open == q * (2 * open) + 2 * r) by (nonlinear_arith)
        requires
            x == d * q + r,
            x == 2 * b + channel,
            d == 2 * channel,
            open == 2 * channel,
    ;
    vstd::arithmetic::div_mod::lemma_fundamental_div_mod_converse_div(4 * b + open, 2 * open, q, 2 * r);
}

/// Divisor of the Barrass rule for a waterway.
pub open spec fn squat_divisor(waterway: Waterway) -> int {
    match waterway {
        Waterway::OpenWater => 100,
        Waterway::ConfinedChannel => 50,
    }
}

/// Barrass squat at a speed through the water; the sign of speed is ignored
/// (squat also occurs going astern).
///
/// # Errors
///
/// [`KernelError::OutOfRange`] for a speed beyond
/// [`MAX_SPEED_MM_PER_HOUR`].
pub fn squat(hull: &Hull, speed: Speed, waterway: Waterway) -> (r: Result<Distance, NavigationError>)
    ensures
        match r {
            Ok(d) => {
                &&& -MAX_SPEED_MM_PER_HOUR <= speed@ <= MAX_SPEED_MM_PER_HOUR
                &&& d@ == squat_spec(
                    hull.spec_block_coefficient(),
                    speed@,
                    squat_divisor(waterway),
                )
                &&& 0 <= d@ <= MAX_LENGTH_MM
            },
            Err(e) => !(-MAX_SPEED_MM_PER_HOUR <= speed@ <= MAX_SPEED_MM_PER_HOUR)
                && e matches NavigationError::Kernel(KernelError::OutOfRange { .. }),
        },
{
    ensure_range(
        "speed",
        speed.millimetres_per_hour,
        -MAX_SPEED_MM_PER_HOUR,
        MAX_SPEED_MM_PER_HOUR,
    )?;
    let cb = hull.block_coefficient() as u128;
    let v: u128 = if speed.millimetres_per_hour >= 0 {
        speed.millimetres_per_hour as u128
    } else {
        (-speed.millimetres_per_hour) as u128
    };
    let divisor: u128 = match waterway {
        Waterway::OpenWater => 100,
        Waterway::ConfinedChannel => 50,
    };
    proof {
        assert(cb * v <= 1_000_000 * 1_852_000_000_000) by (nonlinear_arith)
            requires
                0 < cb <= 1_000_000,
                0 <= v <= 1_852_000_000_000,
        ;
        assert(cb * v * v <= 1_000_000 * 1_852_000_000_000 * 1_852_000_000_000) by (
        nonlinear_arith)
            requires
                0 < cb <= 1_000_000,
                0 <= v <= 1_852_000_000_000,
                cb * v <= 1_000_000 * 1_852_000_000_000,
        ;
    }
    let numerator = cb * v * v;
    let denominator: u128 = 1_000 * 1_852_000 * 1_852_000 * divisor;
    let mm = (2 * numerator + denominator) / (2 * denominator);
    proof {
        assert((2 * numerator + denominator) / (2 * denominator) <= 1_000_000_000_000_000) by (nonlinear_arith)
            requires
                numerator <= 1_000_000 * 1_852_000_000_000 * 1_852_000_000_000,
                denominator >= 1_000 * 1_852_000 * 1_852_000 * 50,
                denominator <= 1_000 * 1_852_000 * 1_852_000 * 100,
        ;
    }
    Ok(Distance { millimetres: mm as i64 })
}

/// UKC at one instant with its components, as the contracts see it.
#[derive(Clone, Copy, Debug, PartialEq, Eq)]
pub struct ClearanceState {
    /// Time of the depth of water.
    pub at: Instant,
    /// Charted depth below chart datum; negative for a drying height.
    pub charted_depth: Distance,
    /// Height of tide above chart datum.
    pub height_of_tide: Distance,
    /// Static draught.
    pub draught: Distance,
    /// Squat.
    pub squat: Distance,
    /// Required minimum.
    pub required: Distance,
}

/// UKC at one instant with its components. Negative UKC means aground on
/// paper.
#[derive(Clone, Copy, Debug, PartialEq, Eq)]
pub struct Clearance {
    at: Instant,
    charted_depth: Distance,
    height_of_tide: Distance,
    draught: Distance,
    squat: Distance,
    required: Distance,
}

impl View for Clearance {
    type V = ClearanceState;

    closed spec fn view(&self) -> ClearanceState {
        ClearanceState {
            at: self.at,
            charted_depth: self.charted_depth,
            height_of_tide: self.height_of_tide,
            draught: self.draught,
            squat: self.squat,
            required: self.required,
        }
    }
}

/// Depth of water: charted depth + height of tide.
pub open spec fn depth_of_water_spec(c: ClearanceState) -> int {
    c.charted_depth@ + c.height_of_tide@
}

/// UKC: depth of water − (draught + squat).
pub open spec fn clearance_spec(c: ClearanceState) -> int {
    depth_of_water_spec(c) - (c.draught@ + c.squat@)
}

impl Clearance {
    #[verifier::type_invariant]
    closed spec fn lengths_in_range(&self) -> bool {
        &&& -MAX_LENGTH_MM <= self.charted_depth@ <= MAX_LENGTH_MM
        &&& -MAX_LENGTH_MM <= self.height_of_tide@ <= MAX_LENGTH_MM
        &&& 0 <= self.draught@ <= MAX_LENGTH_MM
        &&& 0 <= self.squat@ <= MAX_LENGTH_MM
        &&& 0 <= self.required@ <= MAX_LENGTH_MM * 10
    }

    /// Time of the depth of water (the sample's).
    pub fn at(&self) -> (r: Instant)
        ensures
            r == self@.at,
    {
        self.at
    }

    /// Charted depth below chart datum; negative for a drying height.
    pub fn charted_depth(&self) -> (r: Distance)
        ensures
            r == self@.charted_depth,
    {
        self.charted_depth
    }

    /// Height of tide above chart datum, from the sample.
    pub fn height_of_tide(&self) -> (r: Distance)
        ensures
            r == self@.height_of_tide,
    {
        self.height_of_tide
    }

    /// Depth of water: charted depth + height of tide.
    pub fn depth_of_water(&self) -> (r: Distance)
        ensures
            r@ == depth_of_water_spec(self@),
    {
        proof {
            use_type_invariant(self);
        }
        Distance { millimetres: self.charted_depth.millimetres + self.height_of_tide.millimetres }
    }

    /// Static draught.
    pub fn draught(&self) -> (r: Distance)
        ensures
            r == self@.draught,
    {
        self.draught
    }

    /// Squat at the assessed speed.
    pub fn squat(&self) -> (r: Distance)
        ensures
            r == self@.squat,
    {
        self.squat
    }

    /// Dynamic draught: static draught + squat.
    pub fn dynamic_draught(&self) -> (r: Distance)
        ensures
            r@ == self@.draught@ + self@.squat@,
    {
        proof {
            use_type_invariant(self);
        }
        Distance { millimetres: self.draught.millimetres + self.squat.millimetres }
    }

    /// UKC: depth of water − dynamic draught. Negative when aground.
    pub fn clearance(&self) -> (r: Distance)
        ensures
            r@ == clearance_spec(self@),
    {
        proof {
            use_type_invariant(self);
        }
        Distance {
            millimetres: self.depth_of_water().millimetres - self.dynamic_draught().millimetres,
        }
    }

    /// Required minimum.
    pub fn required(&self) -> (r: Distance)
        ensures
            r == self@.required,
    {
        self.required
    }

    /// Margin over the requirement; negative when short.
    pub fn margin(&self) -> (r: Distance)
        ensures
            r@ == clearance_spec(self@) - self@.required@,
    {
        proof {
            use_type_invariant(self);
        }
        Distance { millimetres: self.clearance().millimetres - self.required.millimetres }
    }

    /// Whether UKC meets the policy.
    pub fn is_sufficient(&self) -> (r: bool)
        ensures
            r == (clearance_spec(self@) >= self@.required@),
    {
        !self.margin().is_negative()
    }
}

/// UKC of `hull` at `speed` through the water over `charted_depth`, with the
/// sample's height of tide. Pure: [`ClearanceEvent::UnderKeelClearanceLow`]
/// is reported on every evaluation below policy.
///
/// # Errors
///
/// - [`KernelError::Missing`] if the sample has no height of tide (set it to
///   zero explicitly for non-tidal waters).
/// - [`KernelError::OutOfRange`] for a charted depth or height of tide beyond
///   [`MAX_LENGTH_MM`].
/// - Errors of [`squat`] and [`ClearancePolicy::required`].
pub fn under_keel_clearance(
    hull: &Hull,
    speed: Speed,
    waterway: Waterway,
    charted_depth: Distance,
    env: &EnvironmentSample,
    policy: &ClearancePolicy,
) -> (r: Result<(Clearance, EventList<ClearanceEvent>), NavigationError>)
    ensures
        env.tide is None ==> r == Err::<(Clearance, EventList<ClearanceEvent>), NavigationError>(
            NavigationError::Kernel(KernelError::Missing { what: "the height of tide" }),
        ),
        r matches Ok((c, events)) ==> {
            &&& c@.at == env.when
            &&& c@.charted_depth == charted_depth
            &&& Some(c@.height_of_tide) == env.tide
            &&& c@.draught == hull.spec_draught()
            &&& c@.squat@ == squat_spec(
                hull.spec_block_coefficient(),
                speed@,
                squat_divisor(waterway),
            )
            &&& c@.required@ == required_spec(
                policy.minimum@,
                policy.fraction_of_draught_ppm as int,
                hull.spec_draught()@,
            )
            &&& events@ == if clearance_spec(c@) >= c@.required@ {
                seq![]
            } else {
                seq![
                    ClearanceEvent::UnderKeelClearanceLow {
                        clearance: Distance { millimetres: clearance_spec(c@) as i64 },
                        required: c@.required,
                        at: c@.at,
                    },
                ]
            }
        },
        (env.tide matches Some(t) && -MAX_LENGTH_MM <= t@ <= MAX_LENGTH_MM && -MAX_LENGTH_MM
            <= charted_depth@ <= MAX_LENGTH_MM && -MAX_SPEED_MM_PER_HOUR <= speed@
            <= MAX_SPEED_MM_PER_HOUR && 0 <= policy.minimum@ <= MAX_LENGTH_MM && 0
            <= policy.fraction_of_draught_ppm <= MAX_FRACTION_PPM) <== r is Ok,
        (env.tide matches Some(t) && -MAX_LENGTH_MM <= t@ <= MAX_LENGTH_MM && -MAX_LENGTH_MM
            <= charted_depth@ <= MAX_LENGTH_MM && -MAX_SPEED_MM_PER_HOUR <= speed@
            <= MAX_SPEED_MM_PER_HOUR && 0 <= policy.minimum@ <= MAX_LENGTH_MM && 0
            <= policy.fraction_of_draught_ppm <= MAX_FRACTION_PPM) ==> r is Ok,
{
    let height_of_tide = match env.tide {
        None => {
            return Err(NavigationError::Kernel(KernelError::Missing { what: "the height of tide" }))
        },
        Some(t) => t,
    };
    ensure_range("height of tide", height_of_tide.millimetres, -MAX_LENGTH_MM, MAX_LENGTH_MM)?;
    ensure_range("charted depth", charted_depth.millimetres, -MAX_LENGTH_MM, MAX_LENGTH_MM)?;
    let squat = squat(hull, speed, waterway)?;
    let required = policy.required(hull)?;
    let draught = hull.draught();
    proof {
        assert(required@ <= MAX_LENGTH_MM * 10) by (nonlinear_arith)
            requires
                required@ == required_spec(
                    policy.minimum@,
                    policy.fraction_of_draught_ppm as int,
                    draught@,
                ),
                0 <= policy.minimum@ <= MAX_LENGTH_MM,
                0 <= policy.fraction_of_draught_ppm <= MAX_FRACTION_PPM,
                0 < draught@ <= MAX_LENGTH_MM,
        ;
    }
    let clearance = Clearance {
        at: env.when,
        charted_depth,
        height_of_tide,
        draught,
        squat,
        required,
    };
    let mut events: Vec<ClearanceEvent> = Vec::new();
    if !clearance.is_sufficient() {
        events.push(
            ClearanceEvent::UnderKeelClearanceLow {
                clearance: clearance.clearance(),
                required: clearance.required,
                at: clearance.at,
            },
        );
    }
    Ok((clearance, events))
}

/// The height of tide needed makes the clearance exactly the policy: over
/// any tide, the margin a clearance shows is that tide less the tide needed,
/// for the same hull, speed, waterway, charted depth and policy; so the tide
/// needed or more is sufficient, and less is not.
pub proof fn law_margin_is_the_tide_beyond_the_need(c: ClearanceState, needed: int)
    requires
        needed == c.draught@ + c.squat@ + c.required@ - c.charted_depth@,
    ensures
        clearance_spec(c) - c.required@ == c.height_of_tide@ - needed,
        (clearance_spec(c) >= c.required@) == (c.height_of_tide@ >= needed),
{
}

/// Height of tide giving exactly the required UKC for `hull` at `speed` over
/// `charted_depth`: draught + squat + required − charted depth. Negative when
/// the charted depth alone suffices.
///
/// # Errors
///
/// [`KernelError::OutOfRange`] for a charted depth beyond [`MAX_LENGTH_MM`];
/// errors of [`squat`] and [`ClearancePolicy::required`].
pub fn height_of_tide_needed(
    hull: &Hull,
    speed: Speed,
    waterway: Waterway,
    charted_depth: Distance,
    policy: &ClearancePolicy,
) -> (r: Result<Distance, NavigationError>)
    ensures
        r matches Ok(d) ==> d@ == hull.spec_draught()@ + squat_spec(
            hull.spec_block_coefficient(),
            speed@,
            squat_divisor(waterway),
        ) + required_spec(
            policy.minimum@,
            policy.fraction_of_draught_ppm as int,
            hull.spec_draught()@,
        ) - charted_depth@,
        (-MAX_LENGTH_MM <= charted_depth@ <= MAX_LENGTH_MM && -MAX_SPEED_MM_PER_HOUR <= speed@
            <= MAX_SPEED_MM_PER_HOUR && 0 <= policy.minimum@ <= MAX_LENGTH_MM && 0
            <= policy.fraction_of_draught_ppm <= MAX_FRACTION_PPM) <==> r is Ok,
{
    ensure_range("charted depth", charted_depth.millimetres, -MAX_LENGTH_MM, MAX_LENGTH_MM)?;
    let squat = squat(hull, speed, waterway)?;
    let required = policy.required(hull)?;
    let draught = hull.draught();
    proof {
        assert(required@ <= MAX_LENGTH_MM * 10) by (nonlinear_arith)
            requires
                required@ == required_spec(
                    policy.minimum@,
                    policy.fraction_of_draught_ppm as int,
                    draught@,
                ),
                0 <= policy.minimum@ <= MAX_LENGTH_MM,
                0 <= policy.fraction_of_draught_ppm <= MAX_FRACTION_PPM,
                0 < draught@ <= MAX_LENGTH_MM,
        ;
    }
    Ok(
        Distance {
            millimetres: draught.millimetres + squat.millimetres + required.millimetres
                - charted_depth.millimetres,
        },
    )
}

} // verus!
