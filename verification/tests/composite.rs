use kinavis::composite::{composite_sailing, join_parts, ParallelRun};
use kinavis::route::{LegKind, Route, MAX_WAYPOINTS};
use kinavis::error::{KernelError, NavigationError};
use kinavis::position::{Latitude, Position};
use kinavis::sailings::Sailing;
use kinavis::units::{Distance, TrueCourse};

fn at(latitude: f64, longitude: f64) -> Position {
    Position::from_nanodegrees((latitude * 1e9).round() as i64, (longitude * 1e9).round() as i64)
        .unwrap()
}

fn limit(degrees: f64) -> Latitude {
    Latitude::new((degrees * 1e9).round() as i64).unwrap()
}

/// Yokohama to San Francisco, great circle reaching ~48°N.
fn pacific() -> (Position, Position) {
    (at(34.87, 139.7), at(37.8, -122.5))
}

/// Vertex of the Pacific great circle, between the ends.
fn pacific_vertex() -> Option<Position> {
    Some(at(48.3, -175.0))
}

/// A run along the parallel at `degrees`, as the construction would give it.
fn run_at(degrees: f64) -> ParallelRun {
    let east = TrueCourse::from_degrees(90).unwrap();
    ParallelRun {
        to_parallel: Sailing::new(Distance::from_nautical_miles(1500).unwrap(), TrueCourse::from_degrees(52).unwrap()),
        first_vertex: at(degrees, 165.0),
        along_parallel: Sailing::new(Distance::from_nautical_miles(1000).unwrap(), east),
        second_vertex: at(degrees, -158.0),
        from_parallel: Sailing::new(Distance::from_nautical_miles(2006).unwrap(), east),
    }
}

/// The great circle of the Pacific passage: 4491 NM, initially 043°.
fn pacific_great_circle() -> Sailing {
    Sailing::new(
        Distance::from_nautical_miles(4491).unwrap(),
        TrueCourse::from_degrees(43).unwrap(),
    )
}

#[test]
fn a_limit_the_great_circle_keeps_within_changes_nothing() {
    let (from, to) = pacific();
    // The vertex lies short of the limit, so a run offered is not used.
    let track = composite_sailing(from, to, limit(60.0), pacific_great_circle(), pacific_vertex(), Some(run_at(60.0)))
        .unwrap();
    assert!(!track.is_limited());
    assert_eq!(track.parallel_run(), None);
    assert_eq!(track.total_distance(), track.great_circle().distance);
    assert_eq!(track.extra_distance(), Distance::zero());
    assert_eq!(track.initial_course(), track.great_circle().initial_course);
}

#[test]
fn a_limit_in_the_other_hemisphere_is_never_reached() {
    let (from, to) = pacific();
    // The southern vertex is not on the passage.
    assert!(!composite_sailing(from, to, limit(-40.0), pacific_great_circle(), None, Some(run_at(-40.0)))
        .unwrap()
        .is_limited());
}

#[test]
fn an_end_beyond_the_limit_is_refused() {
    let (from, to) = pacific();
    assert!(matches!(
        composite_sailing(from, to, limit(36.0), pacific_great_circle(), pacific_vertex(), None).unwrap_err(),
        NavigationError::Kernel(KernelError::OutOfRange { parameter: "destination", .. })
    ));
    assert!(matches!(
        composite_sailing(to, from, limit(36.0), pacific_great_circle(), pacific_vertex(), None).unwrap_err(),
        NavigationError::Kernel(KernelError::OutOfRange { parameter: "departure", .. })
    ));
}

#[test]
fn the_equator_and_the_poles_are_no_limits() {
    let (from, to) = pacific();
    for degrees in [0.0, 90.0, -90.0] {
        assert!(matches!(
            composite_sailing(from, to, limit(degrees), pacific_great_circle(), pacific_vertex(), None).unwrap_err(),
            NavigationError::Kernel(KernelError::OutOfRange { parameter: "limiting latitude", .. })
        ));
    }
}

#[test]
fn a_limited_track_adds_its_three_parts() {
    let (from, to) = pacific();
    let run = run_at(45.0);
    let track = composite_sailing(from, to, limit(45.0), pacific_great_circle(), pacific_vertex(), Some(run)).unwrap();
    assert!(track.is_limited());
    assert_eq!(track.total_distance(), Distance::from_nautical_miles(4506).unwrap());
    assert_eq!(track.extra_distance(), Distance::from_nautical_miles(15).unwrap());
    assert_eq!(track.initial_course(), TrueCourse::from_degrees(52).unwrap());
    assert_eq!(run.total_distance(), track.total_distance());
}

#[test]
fn the_refused_end_is_named_departure_first() {
    let (from, to) = pacific();
    let north = at(50.0, 0.0);
    assert!(matches!(
        composite_sailing(north, north, limit(45.0), pacific_great_circle(), None, None).unwrap_err(),
        NavigationError::Kernel(KernelError::OutOfRange { parameter: "departure", .. })
    ));
    assert!(matches!(
        composite_sailing(from, north, limit(45.0), pacific_great_circle(), None, None).unwrap_err(),
        NavigationError::Kernel(KernelError::OutOfRange { parameter: "destination", .. })
    ));
    assert!(composite_sailing(from, to, limit(45.0), pacific_great_circle(), None, None).is_ok());
}

#[test]
fn the_parts_of_a_composite_route_share_their_junctions() {
    let up = Route::new(&[at(34.87, 139.7), at(40.0, 150.0), at(45.0, 160.0)], LegKind::RhumbLine)
        .unwrap();
    let along = Route::new(&[at(45.0, 160.0), at(45.0, -170.0)], LegKind::RhumbLine).unwrap();
    let down = Route::new(&[at(45.0, -170.0), at(37.8, -122.5)], LegKind::RhumbLine).unwrap();
    let route = join_parts(&up, &along, &down).unwrap();
    assert_eq!(route.kind(), LegKind::RhumbLine);
    assert_eq!(
        route.waypoints(),
        &[
            at(34.87, 139.7),
            at(40.0, 150.0),
            at(45.0, 160.0),
            at(45.0, -170.0),
            at(37.8, -122.5)
        ]
    );

    // Too many legs for one route: the need is reported.
    let long: Vec<Position> = (0..100).map(|i| at(45.0, 160.0 + f64::from(i) * 0.1)).collect();
    let long = Route::new(&long, LegKind::RhumbLine).unwrap();
    assert_eq!(
        join_parts(&long, &along, &long).unwrap_err(),
        NavigationError::Kernel(KernelError::CapacityExceeded {
            context: "a composite route",
            needed: 100 + 1 + 99,
            capacity: MAX_WAYPOINTS,
        })
    );
}

#[test]
fn a_refused_limit_is_reported_by_its_magnitude() {
    let (from, to) = pacific();
    assert!(matches!(
        composite_sailing(from, to, limit(-90.0), pacific_great_circle(), None, None).unwrap_err(),
        NavigationError::Kernel(KernelError::OutOfRange { parameter: "limiting latitude", value: 90_000_000_000, .. })
    ));
}
