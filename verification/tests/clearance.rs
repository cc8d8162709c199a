use kinavis::clearance::{height_of_tide_needed, squat, under_keel_clearance, ClearancePolicy, Hull, Waterway};
use kinavis::environment::EnvironmentSample;
use kinavis::error::{KernelError, NavigationError};
use kinavis::event::ClearanceEvent;
use kinavis::position::Position;
use kinavis::time::Instant;
use kinavis::units::{Distance, Speed};

fn metres(value: f64) -> Distance {
    Distance::from_millimetres((value * 1000.0).round() as i64)
}

fn knots(value: i64) -> Speed {
    Speed::from_knots(value).unwrap()
}

fn noon() -> Instant {
    Instant::from_unix_seconds(1_789_000_000)
}

/// Equal to the millimetre.
fn about(distance: Distance, metres: f64) -> bool {
    (distance.millimetres() as f64 / 1000.0 - metres).abs() < 1e-6
}

fn tanker() -> Hull {
    Hull::new(metres(12.0), 850_000).unwrap()
}

fn tenth_of_draught() -> ClearancePolicy {
    ClearancePolicy { minimum: metres(1.0), fraction_of_draught_ppm: 100_000 }
}

fn sample(tide: Option<f64>) -> EnvironmentSample {
    let here = Position::from_nanodegrees(51_000_000_000, 3_000_000_000).unwrap();
    let sample = EnvironmentSample::at(here, noon());
    match tide {
        Some(height) => sample.with_tide(metres(height)),
        None => sample,
    }
}

#[test]
fn squat_grows_with_the_square_of_the_speed_and_doubles_in_a_channel() {
    let hull = tanker();
    let open_six = squat(&hull, knots(6), Waterway::OpenWater).unwrap();
    let open_twelve = squat(&hull, knots(12), Waterway::OpenWater).unwrap();
    let channel_twelve = squat(&hull, knots(12), Waterway::ConfinedChannel).unwrap();

    assert!(about(open_twelve, 1.224));
    assert_eq!(open_twelve.millimetres(), 4 * open_six.millimetres());
    assert_eq!(channel_twelve.millimetres(), 2 * open_twelve.millimetres());
    assert_eq!(squat(&hull, Speed::zero(), Waterway::OpenWater).unwrap(), Distance::zero());
}

#[test]
fn sternway_squats_as_much_as_headway() {
    let hull = tanker();
    assert_eq!(
        squat(&hull, knots(-8), Waterway::OpenWater).unwrap(),
        squat(&hull, knots(8), Waterway::OpenWater).unwrap()
    );
}

#[test]
fn a_hull_has_a_draught_and_a_block_coefficient_a_hull_can_have() {
    assert!(Hull::new(Distance::zero(), 800_000).is_err());
    assert!(Hull::new(metres(-3.0), 800_000).is_err());
    assert!(Hull::new(metres(3.0), 0).is_err());
    assert!(Hull::new(metres(3.0), 1_200_000).is_err());
    let hull = Hull::new(metres(3.0), 1_000_000).unwrap();
    assert_eq!(hull.draught(), metres(3.0));
    assert_eq!(hull.block_coefficient(), 1_000_000);
}

#[test]
fn the_policy_keeps_the_greater_of_its_two_margins() {
    let hull = tanker();
    // 10 % of 12 m exceeds 1 m.
    assert!(about(tenth_of_draught().required(&hull).unwrap(), 1.2));
    // A 2 m floor exceeds 10 %.
    let floor = ClearancePolicy { minimum: metres(2.0), fraction_of_draught_ppm: 100_000 };
    assert!(about(floor.required(&hull).unwrap(), 2.0));

    for bad in [
        ClearancePolicy { minimum: metres(-1.0), fraction_of_draught_ppm: 100_000 },
        ClearancePolicy { minimum: metres(1.0), fraction_of_draught_ppm: -100_000 },
    ] {
        assert!(bad.required(&hull).is_err());
    }
}

#[test]
fn enough_water_is_no_event_and_too_little_is_one() {
    let hull = tanker();
    let (open, events) = under_keel_clearance(
        &hull,
        knots(12),
        Waterway::OpenWater,
        metres(14.0),
        &sample(Some(1.5)),
        &tenth_of_draught(),
    )
    .unwrap();
    assert_eq!(open.at(), noon());
    assert!(about(open.depth_of_water(), 15.5));
    assert!(about(open.dynamic_draught(), 13.224));
    assert!(about(open.clearance(), 2.276));
    assert!(about(open.required(), 1.2));
    assert!(about(open.margin(), 1.076));
    assert!(open.is_sufficient());
    assert!(events.is_empty());

    let (channel, events) = under_keel_clearance(
        &hull,
        knots(12),
        Waterway::ConfinedChannel,
        metres(14.0),
        &sample(Some(1.5)),
        &tenth_of_draught(),
    )
    .unwrap();
    assert!(!channel.is_sufficient());
    assert!(channel.margin().is_negative());
    assert!(matches!(
        events[0],
        ClearanceEvent::UnderKeelClearanceLow { clearance, required, at }
            if clearance == channel.clearance() && about(required, 1.2) && at == noon()
    ));
}

#[test]
fn aground_is_a_negative_clearance_not_an_error() {
    let (stuck, events) = under_keel_clearance(
        &tanker(),
        knots(4),
        Waterway::OpenWater,
        metres(10.0),
        &sample(Some(0.5)),
        &tenth_of_draught(),
    )
    .unwrap();
    assert!(stuck.clearance().is_negative());
    assert_eq!(events.len(), 1);
}

#[test]
fn a_drying_height_is_a_negative_charted_depth() {
    let dinghy = Hull::new(metres(0.3), 500_000).unwrap();
    let policy = ClearancePolicy { minimum: metres(0.2), fraction_of_draught_ppm: 0 };
    // Dries 1.0 m; 3 m of tide leaves 2 m of water.
    let (over, _) = under_keel_clearance(
        &dinghy,
        knots(3),
        Waterway::OpenWater,
        metres(-1.0),
        &sample(Some(3.0)),
        &policy,
    )
    .unwrap();
    assert!(about(over.depth_of_water(), 2.0));
    assert!(over.is_sufficient());
}

#[test]
fn without_the_tide_resolved_there_is_no_answer() {
    assert!(matches!(
        under_keel_clearance(
            &tanker(),
            knots(12),
            Waterway::OpenWater,
            metres(14.0),
            &sample(None),
            &tenth_of_draught(),
        )
        .unwrap_err(),
        NavigationError::Kernel(KernelError::Missing { what: "the height of tide" })
    ));
}

#[test]
fn the_tide_needed_makes_the_clearance_exactly_the_policy() {
    let hull = tanker();
    let policy = tenth_of_draught();
    let needed =
        height_of_tide_needed(&hull, knots(12), Waterway::ConfinedChannel, metres(14.0), &policy)
            .unwrap();
    // 12 + 2.448 + 1.2 − 14.
    assert!(about(needed, 1.648));

    // 1 mm more tide suffices; 1 mm less does not.
    for (extra, enough) in [(0.001, true), (-0.001, false)] {
        let (at_the_edge, events) = under_keel_clearance(
            &hull,
            knots(12),
            Waterway::ConfinedChannel,
            metres(14.0),
            &sample(Some(needed.millimetres() as f64 / 1000.0 + extra)),
            &policy,
        )
        .unwrap();
        assert!(about(at_the_edge.margin(), extra));
        assert_eq!(at_the_edge.is_sufficient(), enough);
        assert_eq!(events.is_empty(), enough);
    }

    // Deep water needs no tide: negative result.
    let deep =
        height_of_tide_needed(&hull, knots(12), Waterway::OpenWater, metres(30.0), &policy).unwrap();
    assert!(deep.is_negative());
}

#[test]
fn the_fraction_of_draught_is_rounded_to_the_nearest_millimetre() {
    // 10 % of 1 005 mm is 100.5 mm: the half goes up.
    let hull = Hull::new(Distance::from_millimetres(1_005), 850_000).unwrap();
    let policy = ClearancePolicy { minimum: Distance::zero(), fraction_of_draught_ppm: 100_000 };
    assert_eq!(policy.required(&hull).unwrap(), Distance::from_millimetres(101));
    // 10 % of 1 004 mm is 100.4 mm.
    let hull = Hull::new(Distance::from_millimetres(1_004), 850_000).unwrap();
    assert_eq!(policy.required(&hull).unwrap(), Distance::from_millimetres(100));
}
