use kinavis::event::{NavigationEvent, PositionSource, RejectionReason};
use kinavis::gnss::{FixType, GnssFix};
use kinavis::gnss_intake::{exceeds_speed, implied_speed, GnssIntake, IntakeConfig};
use kinavis::position::Position;
use kinavis::sailings::Sailing;
use kinavis::time::{Duration, Instant};
use kinavis::units::{Distance, Speed, TrueCourse};

/// One minute of latitude on the spherical model of the sailings, millimetres.
const MINUTE_OF_ARC_MM: i64 = 1_853_249;

fn config() -> IntakeConfig {
    IntakeConfig { max_age: Duration::from_secs(10), max_speed: Speed::from_knots(30).unwrap() }
}

fn at(seconds: i64) -> Instant {
    Instant::from_unix_seconds(seconds)
}

/// Fix `seconds` after the epoch, `minutes_north` of 50°N on the Greenwich
/// meridian.
fn fix(seconds: i64, minutes_north: i64) -> GnssFix {
    let nanodegrees = 50_000_000_000 + minutes_north * 1_000_000_000 / 60;
    let position = Position::from_nanodegrees(nanodegrees, 0).unwrap();
    GnssFix::builder(at(seconds), position).build()
}

/// Distance between fixes `a` and `b` minutes north of 50°N.
fn apart(a: i64, b: i64) -> Option<Distance> {
    Some(Distance::from_millimetres((b - a).abs() * MINUTE_OF_ARC_MM))
}

fn knots(speed: Speed) -> f64 {
    speed.millimetres_per_hour() as f64 / 1_852_000.0
}

#[test]
fn the_first_fix_acquires_and_the_next_does_not_repeat_it() {
    let mut intake = GnssIntake::new(config());
    let first = intake.accept(fix(0, 0), None);
    assert!(first.accepted());
    assert_eq!(first.events().len(), 1);
    assert!(matches!(
        first.events()[0],
        NavigationEvent::FixAcquired { source: PositionSource::Gnss, .. }
    ));
    let second = intake.accept(fix(1, 0), apart(0, 0));
    assert!(second.accepted());
    assert!(second.events().is_empty());
}

#[test]
fn a_fix_the_receiver_does_not_vouch_for_is_rejected() {
    let mut intake = GnssIntake::new(config());
    let position = fix(0, 0).position();
    let outcome = intake.accept(GnssFix::builder(at(0), position).fix_type(FixType::NoFix).build(), None);
    assert!(!outcome.accepted());
    assert!(matches!(
        outcome.events()[0],
        NavigationEvent::ObservationRejected { reason: RejectionReason::Invalid, .. }
    ));
    assert!(intake.snapshot_at(at(1), None).position().is_none());
}

#[test]
fn out_of_order_fixes_are_rejected_and_equal_times_are_not() {
    let mut intake = GnssIntake::new(config());
    let _ = intake.accept(fix(5, 0), None);
    let late = intake.accept(fix(4, 0), apart(0, 0));
    assert!(matches!(
        late.events()[0],
        NavigationEvent::ObservationRejected { reason: RejectionReason::OutOfOrder, .. }
    ));
    assert!(intake.accept(fix(5, 0), apart(0, 0)).accepted());
}

#[test]
fn a_jump_faster_than_the_vessel_is_rejected_with_the_speed_it_needed() {
    let mut intake = GnssIntake::new(config());
    let _ = intake.accept(fix(0, 0), None);
    // 1′ of latitude in 1 s: ~3600 kn.
    let outcome = intake.accept(fix(1, 1), apart(0, 1));
    assert!(!outcome.accepted());
    let NavigationEvent::ObservationRejected {
        reason: RejectionReason::ImplausibleJump { implied_speed },
        ..
    } = outcome.events()[0]
    else {
        panic!("expected a jump: {:?}", outcome.events());
    };
    assert!((knots(implied_speed) - 3600.0).abs() < 5.0);
    // The held position is still the first.
    assert_eq!(intake.last_fix().unwrap().taken_at(), at(0));
}

#[test]
fn a_gap_longer_than_the_limit_is_a_loss_then_an_acquisition() {
    let mut intake = GnssIntake::new(config());
    let _ = intake.accept(fix(0, 0), None);
    let outcome = intake.accept(fix(100, 30), apart(0, 30));
    assert!(outcome.accepted());
    assert_eq!(outcome.events().len(), 2);
    assert!(matches!(
        outcome.events()[0],
        NavigationEvent::FixLost { source: PositionSource::Gnss, at: lost, last_good }
            if lost == at(10) && last_good == at(0)
    ));
    assert!(matches!(outcome.events()[1], NavigationEvent::FixAcquired { .. }));
}

#[test]
fn silence_is_noticed_by_the_clock() {
    let mut intake = GnssIntake::new(config());
    let _ = intake.accept(fix(0, 0), None);
    assert!(intake.check_at(at(10)).is_empty());
    let events = intake.check_at(at(11));
    assert!(matches!(events[0], NavigationEvent::FixLost { .. }));
    assert!(intake.check_at(at(12)).is_empty());
    let snapshot = intake.snapshot_at(at(12), None);
    assert!(snapshot.position().is_some());
    assert!(snapshot.is_stale());
    assert_eq!(snapshot.age(), Some(Duration::from_secs(12)));
    assert_eq!(snapshot.source(), Some(PositionSource::Gnss));
}

#[test]
fn the_ground_track_comes_from_the_receiver_or_from_two_fixes() {
    let mut intake = GnssIntake::new(config());
    assert!(intake.snapshot_at(at(0), None).ground_track().is_none());
    let _ = intake.accept(fix(0, 0), None);
    // One fix: no derived track.
    assert!(intake.snapshot_at(at(0), None).ground_track().is_none());
    // 1 NM north in 6 min: 10 kn on 000°.
    let _ = intake.accept(fix(360, 1), apart(0, 1));
    let north = Sailing::new(Distance::from_millimetres(MINUTE_OF_ARC_MM), TrueCourse::north());
    let track = intake.snapshot_at(at(360), Some(north)).ground_track().unwrap();
    assert!((knots(track.speed_over_ground) - 10.0).abs() < 0.01);
    assert!(track.course_over_ground.microdegrees() < 10_000);

    // The receiver's own track takes precedence.
    let position = fix(361, 1).position();
    let _ = intake.accept(
        GnssFix::builder(at(361), position)
            .course_over_ground(TrueCourse::from_degrees(90).unwrap())
            .speed_over_ground(Speed::from_knots(7).unwrap())
            .build(),
        apart(1, 1),
    );
    let track = intake.snapshot_at(at(361), Some(north)).ground_track().unwrap();
    assert_eq!(track.course_over_ground.microdegrees(), 90_000_000);
    assert_eq!(knots(track.speed_over_ground), 7.0);
}

#[test]
fn a_snapshot_before_the_fix_has_no_age_and_is_not_stale() {
    let mut intake = GnssIntake::new(config());
    let _ = intake.accept(fix(100, 0), None);
    let snapshot = intake.snapshot_at(at(50), None);
    assert_eq!(snapshot.age(), None);
    assert!(!snapshot.is_stale());
}

#[test]
fn the_implied_speed_is_rounded_and_the_limit_compared_exactly() {
    // 1 mm in 7 ns is 514 285 714 285.71… mm/h.
    let elapsed = Duration::from_nanos(7);
    let one = Distance::from_millimetres(1);
    assert_eq!(implied_speed(one, elapsed), Some(Speed::from_millimetres_per_hour(514_285_714_286)));
    assert!(exceeds_speed(one, elapsed, Speed::from_millimetres_per_hour(514_285_714_285)));
    assert!(!exceeds_speed(one, elapsed, Speed::from_millimetres_per_hour(514_285_714_286)));
    assert!(!exceeds_speed(one, Duration::zero(), Speed::zero()));
}
