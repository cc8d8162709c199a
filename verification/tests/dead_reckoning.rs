use kinavis::dead_reckoning::{passage_time, speed_required, water_track};
use kinavis::time::Duration;
use kinavis::units::{Angle, Distance, Speed, TrueCourse};

fn degrees(value: i64) -> TrueCourse {
    TrueCourse::from_degrees(value).unwrap()
}

fn in_degrees(course: TrueCourse) -> f64 {
    course.microdegrees() as f64 / 1_000_000.0
}

#[test]
fn leeway_is_applied_away_from_the_wind() {
    let heading = degrees(0);
    let leeway = Angle::from_degrees(5).unwrap();

    // Wind from port sets to starboard.
    assert_eq!(in_degrees(water_track(heading, leeway, degrees(270))), 5.0);
    // Wind from starboard sets to port.
    assert_eq!(in_degrees(water_track(heading, leeway, degrees(90))), 355.0);
    // Negative leeway is treated as positive.
    assert_eq!(
        in_degrees(water_track(heading, Angle::from_degrees(-5).unwrap(), degrees(270))),
        5.0
    );
}

#[test]
fn leeway_wraps_through_north() {
    let heading = degrees(2);
    let track = water_track(heading, Angle::from_degrees(10).unwrap(), degrees(90));
    assert!((in_degrees(track) - 352.0).abs() < 1e-12);
}

#[test]
fn passage_time_and_speed_required_are_inverses() {
    let distance = Distance::from_nautical_miles(150).unwrap();
    // 12.5 kn.
    let speed = Speed::from_millimetres_per_hour(23_150_000);
    let elapsed = passage_time(distance, speed).unwrap();
    assert_eq!(elapsed.as_secs(), 12 * 3600);
    let knots = speed_required(distance, elapsed).unwrap().millimetres_per_hour() as f64
        / 1_852_000.0;
    assert!((knots - 12.5).abs() < 1e-9);
}

#[test]
fn impossible_passages_are_errors() {
    let distance = Distance::from_nautical_miles(150).unwrap();
    assert!(passage_time(distance, Speed::zero()).is_err());
    assert!(speed_required(distance, Duration::zero()).is_err());
}

#[test]
fn a_passage_against_the_speed_is_impossible_and_a_zero_one_takes_no_time() {
    let distance = Distance::from_nautical_miles(10).unwrap();
    assert!(passage_time(distance, Speed::from_knots(-5).unwrap()).is_err());
    let none = passage_time(Distance::zero(), Speed::from_knots(5).unwrap()).unwrap();
    assert!(none.is_zero());
    // 10 NM at 4 kn: two and a half hours.
    let t = passage_time(distance, Speed::from_knots(4).unwrap()).unwrap();
    assert_eq!(t.as_secs(), 9000);
}

#[test]
fn leeway_with_the_wind_dead_ahead_goes_to_starboard() {
    // Relative wind zero: not on the starboard side, so set to starboard.
    let track = water_track(degrees(0), Angle::from_degrees(3).unwrap(), degrees(0));
    assert_eq!(in_degrees(track), 3.0);
}

#[test]
fn a_run_too_long_for_a_distance_is_reported() {
    let speed = Speed::from_millimetres_per_hour(i64::MAX);
    assert_eq!(speed.checked_distance_covered(Duration::from_nanos(u64::MAX)), None);
    let knots = Speed::from_millimetres_per_hour(1_852_000);
    assert_eq!(
        knots.checked_distance_covered(Duration::from_secs(1800)),
        Some(Distance::from_millimetres(926_000))
    );
}
