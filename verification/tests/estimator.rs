use kinavis::error::{KernelError, NavigationError};
use kinavis::estimator::health::{assess, IntegrityLimits, Sensors};
use kinavis::estimator::history::History;
use kinavis::estimator::{Estimator, EstimatorConfig, LatePolicy, UpdateReport, MAX_HISTORY, MAX_SENSORS};
use kinavis::event::{NavigationEvent, NavigationIntegrity, SensorHealth, SensorId};
use kinavis::time::{Duration, Instant};
use kinavis::units::Distance;

fn at(seconds: i64) -> Instant {
    Instant::from_unix_seconds(1_789_000_000 + seconds)
}

#[test]
fn the_configuration_is_checked_as_it_is_built() {
    let standard = EstimatorConfig::standard();
    assert_eq!(standard.reanchor_after(), Distance::from_millimetres(50_000_000));
    assert_eq!(standard.alert_limit(), Distance::from_millimetres(100_000));
    assert_eq!(standard.max_age(), Duration::from_secs(10));
    assert_eq!(standard.max_unaided(), Duration::from_secs(30));
    assert_eq!(standard.suspect_after(), 5);
    assert!(matches!(standard.late(), LatePolicy::Smooth { max_lag } if max_lag == Duration::from_secs(2)));

    let tuned = standard
        .with_reanchor_after(Distance::from_millimetres(20_000_000))
        .unwrap()
        .with_alert_limit(Distance::from_millimetres(30_000))
        .unwrap()
        .with_max_age(Duration::from_secs(5))
        .with_max_unaided(Duration::from_secs(60))
        .with_late(LatePolicy::Reject)
        .with_suspect_after(0);
    assert_eq!(tuned.reanchor_after(), Distance::from_millimetres(20_000_000));
    assert_eq!(tuned.alert_limit(), Distance::from_millimetres(30_000));
    assert_eq!(tuned.max_age(), Duration::from_secs(5));
    assert_eq!(tuned.max_unaided(), Duration::from_secs(60));
    assert_eq!(tuned.late(), LatePolicy::Reject);
    assert_eq!(tuned.suspect_after(), 0);

    // Zero would re-anchor every step or flag every position; negative is
    // invalid.
    assert!(matches!(
        standard.with_reanchor_after(Distance::zero()).unwrap_err(),
        NavigationError::Kernel(KernelError::OutOfRange { parameter: "reanchor distance", .. })
    ));
    assert!(standard.with_reanchor_after(Distance::from_millimetres(-1000)).is_err());
    assert!(matches!(
        standard.with_alert_limit(Distance::zero()).unwrap_err(),
        NavigationError::Kernel(KernelError::OutOfRange { parameter: "alert limit", .. })
    ));
}

#[test]
fn a_source_rejected_again_and_again_comes_under_suspicion_and_recovers_as_slowly() {
    let mut sensors = Sensors::new();
    let gnss = SensorId::new(1);
    assert_eq!(sensors.health(gnss), None);
    let mut events = Vec::new();
    for second in 1..=4 {
        sensors.note(gnss, false, 5, at(second), &mut events).unwrap();
        assert_eq!(sensors.health(gnss), Some(SensorHealth::Healthy));
    }
    assert!(events.is_empty());
    sensors.note(gnss, false, 5, at(5), &mut events).unwrap();
    assert_eq!(
        events,
        vec![NavigationEvent::SensorHealthChanged {
            sensor: gnss,
            from: SensorHealth::Healthy,
            to: SensorHealth::Suspect,
            at: at(5),
        }]
    );
    // The same number of acceptances clears it; one rejection restarts the
    // count.
    for second in 6..=9 {
        sensors.note(gnss, true, 5, at(second), &mut events).unwrap();
    }
    sensors.note(gnss, false, 5, at(10), &mut events).unwrap();
    for second in 11..=14 {
        sensors.note(gnss, true, 5, at(second), &mut events).unwrap();
        assert_eq!(sensors.health(gnss), Some(SensorHealth::Suspect));
    }
    sensors.note(gnss, true, 5, at(15), &mut events).unwrap();
    assert_eq!(sensors.health(gnss), Some(SensorHealth::Healthy));
    assert_eq!(events.len(), 2);
}

#[test]
fn sources_are_judged_apart_and_there_is_room_for_only_so_many() {
    let mut sensors = Sensors::new();
    let mut events = Vec::new();
    for id in 0..MAX_SENSORS as u32 {
        sensors.note(SensorId::new(id), true, 5, at(1), &mut events).unwrap();
    }
    assert!(matches!(
        sensors.note(SensorId::new(99), true, 5, at(2), &mut events).unwrap_err(),
        NavigationError::Kernel(KernelError::CapacityExceeded { context: "the estimator's sources", .. })
    ));
    assert_eq!(sensors.health(SensorId::new(99)), None);
    // A known source is still heard.
    sensors.note(SensorId::new(3), false, 1, at(3), &mut events).unwrap();
    assert_eq!(sensors.health(SensorId::new(3)), Some(SensorHealth::Suspect));
    assert_eq!(sensors.health(SensorId::new(4)), Some(SensorHealth::Healthy));
    // Zero disables the assessment.
    let mut quiet = Sensors::new();
    for second in 0..10 {
        quiet.note(SensorId::new(1), false, 0, at(second), &mut events).unwrap();
    }
    assert_eq!(quiet.health(SensorId::new(1)), Some(SensorHealth::Healthy));
}

#[test]
fn integrity_follows_the_fixes_and_the_ellipse() {
    let limits = IntegrityLimits {
        alert_limit: Distance::from_millimetres(100_000),
        max_unaided: Duration::from_secs(30),
    };
    let small = Distance::from_millimetres(5_000);
    assert_eq!(assess(small, None, at(0), &limits), NavigationIntegrity::DeadReckoning);
    assert_eq!(assess(small, Some(at(1)), at(31), &limits), NavigationIntegrity::Nominal);
    assert_eq!(assess(small, Some(at(1)), at(32), &limits), NavigationIntegrity::DeadReckoning);
    // A fix stamped after the evaluation instant does not count.
    assert_eq!(assess(small, Some(at(10)), at(5), &limits), NavigationIntegrity::DeadReckoning);
    let large = Distance::from_millimetres(100_001);
    assert_eq!(assess(large, Some(at(1)), at(2), &limits), NavigationIntegrity::Exceeded);
}

#[test]
fn the_history_keeps_one_belief_per_moment_and_lets_the_oldest_go() {
    let mut history = History::starting_with(at(0), 0u32);
    for second in 1..=(MAX_HISTORY as i64 + 4) {
        history.record(at(second), second as u32);
        // A second belief at one moment replaces the first.
        history.record(at(second), 1000 + second as u32);
    }
    assert_eq!(history.len(), MAX_HISTORY);
    let oldest = MAX_HISTORY as i64 + 4 - (MAX_HISTORY as i64 - 1);
    assert_eq!(history.entries()[0], (at(oldest), 1000 + oldest as u32));
    assert_eq!(history.current(), (at(MAX_HISTORY as i64 + 4), 1000 + MAX_HISTORY as u32 + 4));
    // A late observation at the oldest moment is reached; one earlier is not.
    assert_eq!(history.reaching(at(oldest)), Some(0));
    assert_eq!(history.reaching(at(oldest - 1)), None);
    // Restarting keeps only the new belief.
    history.restart_with(at(100), 7);
    assert_eq!(history.len(), 1);
    assert_eq!(history.current(), (at(100), 7));
}

#[test]
fn any_positive_distance_is_a_limit() {
    let far = Distance::from_millimetres(i64::MAX);
    let config = EstimatorConfig::standard().with_reanchor_after(far).unwrap().with_alert_limit(far).unwrap();
    assert_eq!(config.reanchor_after(), far);
    assert_eq!(config.alert_limit(), far);
    assert_eq!(
        EstimatorConfig::standard().with_alert_limit(Distance::zero()).unwrap_err(),
        NavigationError::Kernel(KernelError::OutOfRange { parameter: "alert limit", value: 0, min: 1, max: i64::MAX })
    );
}

fn report(accepted: bool, fixes_position: bool) -> UpdateReport {
    UpdateReport { accepted, fixes_position, normalised_innovation_squared_milli: 1_000 }
}

fn metres(m: i64) -> Distance {
    Distance::from_millimetres(m * 1_000)
}

#[test]
fn a_source_turned_away_again_and_again_comes_under_suspicion_through_the_estimator() {
    let mut e = Estimator::new(at(0), ((), metres(10)), EstimatorConfig::standard());
    let position = SensorId::new(3);
    assert_eq!(e.sensor_health(position), None);
    let mut step = |e: &mut Estimator<()>, s: i64, accepted: bool| {
        e.propagate(at(s), ((), metres(10))).unwrap();
        e.conclude(at(s), position, report(accepted, true), ((), metres(10)), None).unwrap()
    };
    for s in 1..=4 {
        let outcome = step(&mut e, s, false);
        assert_eq!(e.sensor_health(position), Some(SensorHealth::Healthy));
        assert_eq!(outcome.events.len(), 1);
    }
    let outcome = step(&mut e, 5, false);
    assert_eq!(e.sensor_health(position), Some(SensorHealth::Suspect));
    assert_eq!(
        outcome.events[1],
        NavigationEvent::SensorHealthChanged {
            sensor: position,
            from: SensorHealth::Healthy,
            to: SensorHealth::Suspect,
            at: at(5),
        }
    );
    for s in 6..=9 {
        step(&mut e, s, true);
        assert_eq!(e.sensor_health(position), Some(SensorHealth::Suspect));
    }
    let outcome = step(&mut e, 10, true);
    assert_eq!(e.sensor_health(position), Some(SensorHealth::Healthy));
    assert!(outcome.events.iter().any(|event| matches!(
        event,
        NavigationEvent::SensorHealthChanged { to: SensorHealth::Healthy, .. }
    )));
    let outcome = step(&mut e, 11, false);
    assert_eq!(e.sensor_health(position), Some(SensorHealth::Healthy));
    assert_eq!(outcome.events.len(), 1);
}

#[test]
fn integrity_follows_the_fixes_and_the_ellipse_through_the_estimator() {
    let mut e = Estimator::new(at(0), ((), metres(10)), EstimatorConfig::standard());
    let gnss = SensorId::new(1);
    let gyro = SensorId::new(2);
    assert_eq!(e.integrity(), NavigationIntegrity::DeadReckoning);

    e.propagate(at(1), ((), metres(10))).unwrap();
    let outcome = e.conclude(at(1), gnss, report(true, true), ((), metres(5)), None).unwrap();
    assert_eq!(e.integrity(), NavigationIntegrity::Nominal);
    assert_eq!(
        outcome.events,
        vec![NavigationEvent::IntegrityChanged {
            from: NavigationIntegrity::DeadReckoning,
            to: NavigationIntegrity::Nominal,
            at: at(1),
        }]
    );

    // A heading fixes no position.
    e.propagate(at(20), ((), metres(20))).unwrap();
    e.conclude(at(20), gyro, report(true, false), ((), metres(20)), None).unwrap();
    assert_eq!(e.integrity(), NavigationIntegrity::Nominal);

    e.advance_to(at(40), ((), metres(30)), None).unwrap();
    assert_eq!(e.integrity(), NavigationIntegrity::DeadReckoning);
    e.advance_to(at(1800), ((), metres(400)), None).unwrap();
    assert_eq!(e.integrity(), NavigationIntegrity::Exceeded);

    e.propagate(at(1801), ((), metres(400))).unwrap();
    e.conclude(at(1801), gnss, report(true, true), ((), metres(6)), None).unwrap();
    assert_eq!(e.integrity(), NavigationIntegrity::Nominal);
}

#[test]
fn a_source_beyond_the_room_changes_nothing() {
    let mut e = Estimator::new(at(0), ((), metres(10)), EstimatorConfig::standard());
    for id in 0..MAX_SENSORS as u32 {
        e.conclude(at(0), SensorId::new(id), report(true, true), ((), metres(10)), None).unwrap();
    }
    let before = e.state();
    assert!(matches!(
        e.conclude(at(0), SensorId::new(99), report(true, true), ((), metres(1)), None).unwrap_err(),
        NavigationError::Kernel(KernelError::CapacityExceeded { .. })
    ));
    assert_eq!(e.state(), before);
    assert_eq!(e.sensor_health(SensorId::new(99)), None);
}
