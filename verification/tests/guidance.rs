use kinavis::error::{KernelError, NavigationError};
use kinavis::event::{GuidanceEvent, PositionSource};
use kinavis::guidance::{guide, GuidanceConfig, LegGeometry};
use kinavis::position::Position;
use kinavis::route::{LegCursor, LegKind, Route};
use kinavis::sailings::{CrossTrack, Sailing, TrackSide};
use kinavis::snapshot::{GroundTrack, NavigationSnapshot};
use kinavis::time::Instant;
use kinavis::units::{Distance, Speed, TrueCourse};

fn at(latitude: f64, longitude: f64) -> Position {
    Position::from_nanodegrees((latitude * 1e9).round() as i64, (longitude * 1e9).round() as i64)
        .unwrap()
}

fn miles(value: f64) -> Distance {
    Distance::from_millimetres((value * 1_852_000.0).round() as i64)
}

fn degrees(value: i64) -> TrueCourse {
    TrueCourse::from_degrees(value).unwrap()
}

fn noon() -> Instant {
    Instant::from_unix_seconds(1_789_041_600)
}

fn square() -> Route {
    Route::new(&[at(0.0, 0.0), at(1.0, 0.0), at(1.0, 1.0), at(0.0, 1.0)], LegKind::RhumbLine).unwrap()
}

fn snapshot(position: Position, course: i64, knots: i64) -> NavigationSnapshot {
    NavigationSnapshot::empty().with_position(position, noon(), PositionSource::Gnss).with_ground_track(
        GroundTrack { course_over_ground: degrees(course), speed_over_ground: Speed::from_knots(knots).unwrap() },
    )
}

fn on_leg(index: u16) -> LegCursor {
    LegCursor::try_from(index).unwrap()
}

fn config() -> GuidanceConfig {
    GuidanceConfig::new(miles(0.5), miles(0.2)).unwrap()
}

/// The vessel against a leg on `track`, `off` to starboard (negative: port),
/// `along` from its start and `to_run` to its end, with the next waypoint
/// `to_next` away on `bearing` and `later` legs beyond.
fn geometry(track: i64, off: f64, along: f64, to_run: f64, to_next: f64, bearing: i64, later: &[f64]) -> LegGeometry {
    LegGeometry {
        cross_track: CrossTrack {
            distance: miles(off.abs()),
            side: if off > 0.0 {
                TrackSide::Starboard
            } else if off < 0.0 {
                TrackSide::Port
            } else {
                TrackSide::OnTrack
            },
            along_track: miles(along),
            to_run: miles(to_run),
        },
        desired_track: degrees(track),
        to_next: Sailing::new(miles(to_next), degrees(bearing)),
        later_legs: later.iter().map(|&m| miles(m)).collect(),
        steering: None,
        turn_behind: None,
        turn_ahead: None,
    }
}

#[test]
fn the_cursor_walks_the_route_and_stops_at_its_end() {
    let square = square();
    let first = square.first_leg();
    assert_eq!(first.index(), 0);
    assert!(!first.is_last(&square));
    let second = first.advance(&square).unwrap();
    let third = second.advance(&square).unwrap();
    assert_eq!(third.index(), 2);
    assert!(third.is_last(&square));
    assert!(third.advance(&square).is_none());
    assert_eq!(square.leg(1).unwrap(), second);
}

#[test]
fn off_the_track_beyond_the_limit_is_reported_with_the_numbers() {
    // 3 NM east of a northbound leg: starboard.
    let here = at(0.5, 0.05);
    let (view, events) = guide(
        &snapshot(here, 0, 10),
        &square(),
        on_leg(0),
        &geometry(0, 3.0, 30.0, 30.0, 30.15, 354, &[60.0, 60.0]),
        &config(),
    )
    .unwrap();
    assert_eq!(view.cross_track_error().side, TrackSide::Starboard);
    assert_eq!(events.len(), 1);
    let GuidanceEvent::CrossTrackExceeded { error, limit, at: when } = events[0] else {
        unreachable!("expected CrossTrackExceeded, got {:?}", events[0]);
    };
    assert!((error.millimetres() as f64 / 1_852_000.0 - 3.0).abs() < 0.05);
    assert_eq!(limit, config().cross_track_limit());
    assert_eq!(when, noon());

    // Within the limit: no event.
    let near = at(0.5, 0.005);
    let (_, quiet) = guide(
        &snapshot(near, 0, 10),
        &square(),
        on_leg(0),
        &geometry(0, 0.3, 30.0, 30.0, 30.0, 359, &[60.0, 60.0]),
        &config(),
    )
    .unwrap();
    assert!(quiet.is_empty());
}

#[test]
fn inside_the_arrival_circle_the_waypoint_is_reached() {
    // 0.1 NM short of the first waypoint.
    let here = at(1.0 - 0.1 / 60.0, 0.0);
    let (view, events) = guide(
        &snapshot(here, 0, 10),
        &square(),
        on_leg(0),
        &geometry(0, 0.0, 59.9, 0.1, 0.1, 0, &[60.0, 60.0]),
        &config(),
    )
    .unwrap();
    assert!(view.distance_to_waypoint().millimetres() < miles(0.2).millimetres());
    assert_eq!(events.len(), 1);
    assert!(matches!(events[0], GuidanceEvent::WaypointReached { index: 1, .. }));
}

#[test]
fn the_last_waypoint_reached_names_the_end_of_the_route() {
    let here = at(0.05, 1.0);
    let (view, events) = guide(
        &snapshot(here, 180, 10),
        &square(),
        on_leg(2),
        &geometry(180, 0.0, 57.0, 3.0, 3.0, 180, &[]),
        &config(),
    )
    .unwrap();
    assert_eq!(view.active_leg().index(), 2);
    assert!((view.distance_to_end().millimetres() as f64 / 1_852_000.0 - 3.0).abs() < 0.05);
    assert!(events.is_empty());

    let there = at(0.0, 1.0);
    let (_, events) = guide(
        &snapshot(there, 180, 10),
        &square(),
        on_leg(2),
        &geometry(180, 0.0, 60.0, 0.0, 0.0, 180, &[]),
        &config(),
    )
    .unwrap();
    assert!(matches!(events[0], GuidanceEvent::WaypointReached { index: 3, .. }));
}

#[test]
fn a_snapshot_without_a_position_has_nothing_to_guide() {
    assert!(matches!(
        guide(
            &NavigationSnapshot::empty(),
            &square(),
            on_leg(0),
            &geometry(0, 0.0, 30.0, 30.0, 30.0, 0, &[60.0, 60.0]),
            &config()
        )
        .unwrap_err(),
        NavigationError::Kernel(KernelError::Missing { .. })
    ));
}

#[test]
fn a_leg_the_route_does_not_have_is_refused() {
    // A route does not issue a cursor for a leg it lacks...
    let square = square();
    assert!(matches!(
        square.leg(3).unwrap_err(),
        NavigationError::Kernel(KernelError::OutOfRange { parameter: "active leg", max, .. }) if max == 2
    ));
    assert!(square.leg(u16::MAX).is_err());
    assert!(LegCursor::try_from(u16::MAX).is_err());
    assert!(LegCursor::try_from(126).is_ok());
    assert!(LegCursor::try_from(127).is_err());

    // ...and rejects one issued by a longer route.
    let here = at(0.5, 0.0);
    let error = guide(
        &snapshot(here, 0, 10),
        &square,
        on_leg(3),
        &geometry(0, 0.0, 30.0, 30.0, 30.0, 0, &[]),
        &config(),
    )
    .unwrap_err();
    assert!(matches!(
        error,
        NavigationError::Kernel(KernelError::OutOfRange { parameter: "active leg", .. })
    ));
}

#[test]
fn a_negative_threshold_is_refused() {
    let minus_one = miles(-1.0);
    let one = miles(1.0);
    assert!(matches!(
        GuidanceConfig::new(minus_one, one).unwrap_err(),
        NavigationError::Kernel(KernelError::OutOfRange { parameter: "cross-track limit", .. })
    ));
    assert!(matches!(
        GuidanceConfig::new(one, minus_one).unwrap_err(),
        NavigationError::Kernel(KernelError::OutOfRange { parameter: "arrival radius", .. })
    ));
    assert!(GuidanceConfig::new(Distance::zero(), Distance::zero()).is_ok());
}

#[test]
fn a_zero_length_leg_is_reported_not_divided_by_zero() {
    let route = Route::new(&[at(10.0, 10.0), at(10.0, 10.0), at(11.0, 10.0)], LegKind::RhumbLine).unwrap();
    let here = at(10.5, 10.0);
    assert!(guide(
        &snapshot(here, 0, 10),
        &route,
        on_leg(0),
        &geometry(0, 0.0, 0.0, 0.0, 30.0, 0, &[60.0]),
        &config()
    )
    .is_err());
    assert!(guide(
        &snapshot(here, 0, 10),
        &route,
        on_leg(1),
        &geometry(0, 0.0, 30.0, 30.0, 30.0, 0, &[]),
        &config()
    )
    .is_ok());
}

#[test]
fn any_non_negative_threshold_is_accepted() {
    let far = Distance::from_millimetres(i64::MAX);
    let config = GuidanceConfig::new(far, far).unwrap();
    assert_eq!(config.cross_track_limit(), far);
    assert_eq!(config.arrival_radius(), far);
    assert!(GuidanceConfig::new(Distance::zero(), Distance::zero()).is_ok());
}
