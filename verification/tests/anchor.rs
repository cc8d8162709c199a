use kinavis::anchor::{swinging_radius, AnchorWatch};
use kinavis::error::{KernelError, NavigationError};
use kinavis::event::{AnchorEvent, PositionSource};
use kinavis::position::Position;
use kinavis::sailings::Sailing;
use kinavis::snapshot::NavigationSnapshot;
use kinavis::time::Instant;
use kinavis::units::{Distance, TrueCourse};

fn at(latitude: f64, longitude: f64) -> Position {
    Position::from_nanodegrees((latitude * 1e9).round() as i64, (longitude * 1e9).round() as i64)
        .unwrap()
}

fn noon() -> Instant {
    Instant::from_unix_seconds(1_789_041_600)
}

fn snapshot(position: Position) -> NavigationSnapshot {
    NavigationSnapshot::empty().with_position(position, noon(), PositionSource::Gnss)
}

/// Great-circle sailing from the anchor: `millimetres` on `degrees`.
fn from_anchor(millimetres: i64, degrees: i64) -> Sailing {
    Sailing::new(Distance::from_millimetres(millimetres), TrueCourse::from_degrees(degrees).unwrap())
}

fn metres(value: i64) -> Distance {
    Distance::from_millimetres(value * 1000)
}

fn millimetres_between(a: Distance, b: Distance) -> i64 {
    (a.millimetres() - b.millimetres()).abs()
}

#[test]
fn the_circle_is_the_horizontal_scope_plus_the_ship() {
    // A 5-12-13 triangle: 130 m of cable in 50 m reaches 120 m along.
    let radius = swinging_radius(metres(130), metres(50), metres(30)).unwrap();
    assert!(millimetres_between(radius, metres(150)) <= 1);

    // Cable straight down: no scope, only the ship.
    let plumb = swinging_radius(metres(50), metres(50), metres(30)).unwrap();
    assert!(millimetres_between(plumb, metres(30)) <= 1);

    // Cable that does not reach the bottom, or nonsense lengths.
    assert!(swinging_radius(metres(40), metres(50), metres(30)).is_err());
    assert!(swinging_radius(metres(130), metres(-1), metres(30)).is_err());
    assert!(swinging_radius(metres(130), metres(50), metres(-1)).is_err());
}

#[test]
fn the_scope_is_the_nearest_whole_millimetre() {
    // 1 m of cable in 0.5 m: √0.75 m = 866.03 mm, 866 mm kept.
    let radius = swinging_radius(metres(1), Distance::from_millimetres(500), Distance::zero())
        .unwrap();
    assert_eq!(radius.millimetres(), 866);
    // 2 mm of cable in 1 mm: √3 mm = 1.73 mm rounds up to 2 mm.
    let short = swinging_radius(Distance::from_millimetres(2), Distance::from_millimetres(1), Distance::zero())
        .unwrap();
    assert_eq!(short.millimetres(), 2);
}

#[test]
fn inside_the_circle_is_quiet_and_outside_is_an_alarm() {
    let anchor = at(50.0, -1.0);
    let watch = AnchorWatch::new(anchor, metres(100)).unwrap().with_allowance(metres(20)).unwrap();
    assert_eq!(watch.alarm_radius(), metres(120));

    // 0.05' of latitude south: 93 m, inside.
    let (inside, events) =
        watch.check(&snapshot(at(50.0 - 0.05 / 60.0, -1.0)), from_anchor(92_662, 180)).unwrap();
    assert!(!inside.is_dragging());
    assert!(inside.slack().millimetres() > 20_000);
    assert_eq!(inside.bearing_from_anchor().microdegrees(), 180_000_000);
    assert_eq!(inside.at(), noon());
    assert!(events.is_empty());

    // 0.08' north: 148 m, outside.
    let (outside, events) =
        watch.check(&snapshot(at(50.0 + 0.08 / 60.0, -1.0)), from_anchor(148_260, 0)).unwrap();
    assert!(outside.is_dragging());
    assert!(outside.slack().is_negative());
    assert!(matches!(
        events[0],
        AnchorEvent::AnchorDragging { distance, radius, at }
            if distance == outside.distance_from_anchor()
                && radius == outside.alarm_radius()
                && at == noon()
    ));
}

#[test]
fn the_allowance_is_the_difference_between_a_swing_and_a_drag() {
    let anchor = at(50.0, -1.0);
    let here = at(50.0, -1.0 + 0.09 / 60.0 / (50.0_f64.to_radians().cos()));
    // 0.09' of longitude's worth east: 167 m.
    let sailing = from_anchor(166_793, 90);
    let tight = AnchorWatch::new(anchor, metres(150)).unwrap();
    let easy = tight.with_allowance(metres(30)).unwrap();
    assert!(tight.check(&snapshot(here), sailing).unwrap().0.is_dragging());
    assert!(!easy.check(&snapshot(here), sailing).unwrap().0.is_dragging());
}

#[test]
fn a_watch_needs_a_position_and_sensible_radii() {
    let watch = AnchorWatch::new(at(50.0, -1.0), metres(100)).unwrap();
    assert!(matches!(
        watch.check(&NavigationSnapshot::empty(), from_anchor(0, 0)).unwrap_err(),
        NavigationError::Kernel(KernelError::Missing { .. })
    ));
    assert!(AnchorWatch::new(at(50.0, -1.0), metres(-1)).is_err());
    assert!(watch.with_allowance(metres(-1)).is_err());
    assert_eq!(watch.allowance(), Distance::zero());
    assert_eq!(watch.anchor(), at(50.0, -1.0));
    assert_eq!(watch.swinging_radius(), metres(100));
}

#[test]
fn the_alarm_radius_adds_the_allowance() {
    let anchor = Position::from_nanodegrees(50_000_000_000, -1_000_000_000).unwrap();
    let watch = AnchorWatch::new(anchor, metres(100))
        .unwrap()
        .with_allowance(metres(20))
        .unwrap();
    assert_eq!(watch.alarm_radius(), metres(120));
    assert_eq!(watch.swinging_radius(), metres(100));
    assert_eq!(watch.allowance(), metres(20));
    assert_eq!(watch.anchor(), anchor);
    assert!(AnchorWatch::new(anchor, metres(-1)).is_err());
}

#[test]
fn every_length_a_distance_holds_is_a_radius() {
    let anchor = at(50.75, -1.33);
    let huge = Distance::from_millimetres(i64::MAX);
    let watch = AnchorWatch::new(anchor, huge).unwrap().with_allowance(huge).unwrap();
    assert_eq!(watch.swinging_radius(), huge);
    // The sum is held at the largest length.
    assert_eq!(watch.alarm_radius(), huge);
    assert!(matches!(
        AnchorWatch::new(anchor, Distance::from_millimetres(-1)).unwrap_err(),
        NavigationError::Kernel(KernelError::OutOfRange { parameter: "swinging radius", .. })
    ));
    // A scope as long as a distance holds, plus the ship, is too long.
    assert!(matches!(
        swinging_radius(huge, Distance::zero(), Distance::from_millimetres(1)).unwrap_err(),
        NavigationError::Kernel(KernelError::OutOfRange { parameter: "swinging radius", .. })
    ));
    assert_eq!(swinging_radius(huge, Distance::zero(), Distance::zero()).unwrap(), huge);
}
