use kinavis::environment::{Current, EnvironmentSample, Wind};
use kinavis::error::{KernelError, NavigationError};
use kinavis::mob::ManOverboard;
use kinavis::position::Position;
use kinavis::time::Instant;
use kinavis::units::{Distance, Speed, TrueCourse};

fn here() -> Position {
    Position::from_nanodegrees(50_000_000_000, -1_000_000_000).unwrap()
}

fn alarm() -> Instant {
    Instant::from_unix_seconds(1_789_000_000)
}

fn later(minutes: i64) -> Instant {
    Instant::from_unix_seconds(1_789_000_000 + minutes * 60)
}

fn east_going_current(knots: i64) -> Current {
    Current { set: TrueCourse::from_degrees(90).unwrap(), drift: Speed::from_knots(knots).unwrap() }
}

#[test]
fn with_nothing_resolved_the_datum_is_where_they_went_in() {
    let mob = ManOverboard::new(here(), alarm());
    let drifts = mob.drifts(&EnvironmentSample::at(here(), alarm()), later(30), 20_000).unwrap();
    assert_eq!(drifts.current, None);
    assert_eq!(drifts.wind, None);
    let datum = mob.datum(&drifts, Distance::zero(), TrueCourse::north(), here());
    assert_eq!(datum.position(), here());
    assert_eq!(datum.drift(), Distance::zero());
    assert_eq!(datum.set(), None);
    assert!(!datum.current_applied());
    assert!(!datum.wind_applied());
    assert_eq!(datum.elapsed().as_secs(), 1800);
    assert_eq!(datum.at(), later(30));
    assert_eq!(mob.position(), here());
    assert_eq!(mob.at(), alarm());
}

#[test]
fn the_current_and_the_wind_each_carry_the_casualty() {
    let mob = ManOverboard::new(here(), alarm());
    let environment = EnvironmentSample::at(here(), alarm())
        .with_current(east_going_current(2))
        .with_wind(Wind::new(TrueCourse::north(), Speed::from_knots(20).unwrap()).unwrap());
    // 2 % of 20 kn for an hour: 0.4 NM south; 2 kn of current: 2 NM east.
    let drifts = mob.drifts(&environment, later(60), 20_000).unwrap();
    let current = drifts.current.unwrap();
    assert_eq!(current.distance, Distance::from_nautical_miles(2).unwrap());
    assert_eq!(current.towards, TrueCourse::from_degrees(90).unwrap());
    let wind = drifts.wind.unwrap();
    assert_eq!(wind.distance, Distance::from_millimetres(740_800));
    assert_eq!(wind.towards, TrueCourse::from_degrees(180).unwrap());

    // No factor, no wind applied.
    let still = mob.drifts(&environment, later(60), 0).unwrap();
    assert_eq!(still.wind, None);
    let datum = mob.datum(&still, Distance::from_nautical_miles(2).unwrap(), TrueCourse::from_degrees(90).unwrap(), here());
    assert!(datum.current_applied() && !datum.wind_applied());
}

#[test]
fn the_datum_grows_with_time_and_refuses_to_go_backwards() {
    let mob = ManOverboard::new(here(), alarm());
    let environment = EnvironmentSample::at(here(), alarm()).with_current(east_going_current(1));
    let mut previous = 0;
    for minutes in [10, 20, 60, 180] {
        let drift = mob.drifts(&environment, later(minutes), 0).unwrap().current.unwrap().distance;
        assert!(drift.millimetres() > previous);
        previous = drift.millimetres();
    }
    assert!(matches!(
        mob.drifts(&environment, Instant::from_unix_seconds(1_788_999_999), 0).unwrap_err(),
        NavigationError::Kernel(KernelError::TimeReversed { .. })
    ));
    // At the alarm time: zero drift.
    let now = mob.drifts(&environment, alarm(), 0).unwrap();
    let datum = mob.datum(&now, now.current.unwrap().distance, TrueCourse::from_degrees(90).unwrap(), here());
    assert_eq!(datum.drift(), Distance::zero());
    assert!(datum.current_applied());
}

#[test]
fn the_wind_factor_is_a_fraction() {
    let mob = ManOverboard::new(here(), alarm());
    let environment = EnvironmentSample::at(here(), alarm());
    for factor in [-100_000, 1_500_000] {
        assert!(mob.drifts(&environment, later(10), factor).is_err());
    }
}

#[test]
fn a_datum_that_moved_takes_the_destination_and_the_set() {
    let mob = ManOverboard::new(here(), alarm());
    let moved = Position::from_nanodegrees(50_000_000_000, -990_000_000).unwrap();
    let environment = EnvironmentSample::at(here(), alarm())
        .with_current(east_going_current(2))
        .with_wind(Wind::new(TrueCourse::north(), Speed::from_knots(20).unwrap()).unwrap());
    // Both legs: the vector sum given is the drift.
    let drifts = mob.drifts(&environment, later(10), 20_000).unwrap();
    let datum = mob.datum(&drifts, Distance::from_cables(3).unwrap(), TrueCourse::from_degrees(90).unwrap(), moved);
    assert_eq!(datum.position(), moved);
    assert_eq!(datum.set(), Some(TrueCourse::from_degrees(90).unwrap()));
    assert_eq!(datum.drift(), Distance::from_cables(3).unwrap());
    assert_eq!(datum.at(), later(10));
    assert_eq!(datum.elapsed().as_secs(), 600);
}

#[test]
fn one_drift_is_its_own_datum_and_none_leaves_it_in_place() {
    let mob = ManOverboard::new(here(), alarm());
    let moved = Position::from_nanodegrees(50_000_000_000, -990_000_000).unwrap();
    let environment = EnvironmentSample::at(here(), alarm()).with_current(east_going_current(2));
    let drifts = mob.drifts(&environment, later(60), 0).unwrap();
    // A different sum offered is not used: the one leg is the drift.
    let datum = mob.datum(&drifts, Distance::from_cables(3).unwrap(), TrueCourse::north(), moved);
    assert_eq!(datum.drift(), Distance::from_nautical_miles(2).unwrap());
    assert_eq!(datum.set(), Some(TrueCourse::from_degrees(90).unwrap()));
    assert_eq!(datum.position(), moved);

    let nothing = mob.drifts(&EnvironmentSample::at(here(), alarm()), later(60), 0).unwrap();
    let datum = mob.datum(&nothing, Distance::from_cables(3).unwrap(), TrueCourse::north(), moved);
    assert_eq!(datum.drift(), Distance::zero());
    assert_eq!(datum.set(), None);
    assert_eq!(datum.position(), here());
}
