use kinavis::error::{KernelError, NavigationError};
use kinavis::event::{RejectionReason, TargetId};
use kinavis::position::Position;
use kinavis::snapshot::{GroundTrack, NavigationSnapshot};
use kinavis::event::PositionSource;
use kinavis::time::{Duration, Instant};
use kinavis::traffic::assessment::{
    assess, assess_traffic, CollisionRisk, Cpa, CpaPolicy, EncounterGeometry,
};
use kinavis::traffic::track::{TargetObservation, TrackStatus};
use kinavis::traffic::{Traffic, TrafficEvent, TrackingPolicy, WhenFull};
use kinavis::turning::RateOfTurn;
use kinavis::units::{Distance, Speed, TrueBearing, TrueCourse};
use kinavis::watch::{is_fresh, Level};

fn at(seconds: i64) -> Instant {
    Instant::from_unix_seconds(1_789_000_000 + seconds)
}

fn here() -> Position {
    Position::from_nanodegrees(50_000_000_000, -1_000_000_000).unwrap()
}

fn policy(fixes: u8) -> TrackingPolicy {
    TrackingPolicy::new(
        fixes,
        Duration::from_secs(60),
        Duration::from_secs(180),
        Speed::from_knots(50).unwrap(),
    )
    .unwrap()
}

fn seen(target: u32, seconds: i64) -> TargetObservation {
    TargetObservation::new(TargetId::new(target), here(), at(seconds))
}

#[test]
fn a_target_is_acquired_after_the_policy_fixes() {
    let mut traffic = Traffic::new(policy(2));
    let events = traffic.ingest(seen(1, 0), Ok(Distance::zero())).unwrap();
    assert!(events.is_empty());
    assert_eq!(traffic.tracks()[0].status(), TrackStatus::Acquiring);
    let events = traffic.ingest(seen(1, 10), Ok(Distance::zero())).unwrap();
    assert_eq!(events, vec![TrafficEvent::TargetAcquired { target: TargetId::new(1), at: at(10) }]);
    assert_eq!(traffic.tracks()[0].status(), TrackStatus::Tracking);
    assert_eq!(traffic.tracks()[0].fix_count(), 2);
    // Acquired once only.
    assert!(traffic.ingest(seen(1, 20), Ok(Distance::zero())).unwrap().is_empty());
}

#[test]
fn stale_and_implausible_observations_are_rejected() {
    let mut traffic = Traffic::new(policy(1));
    let _ = traffic.ingest(seen(7, 100), Ok(Distance::zero())).unwrap();
    let events = traffic.ingest(seen(7, 100), Ok(Distance::zero())).unwrap();
    assert!(matches!(
        events[0],
        TrafficEvent::ObservationRejected { reason: RejectionReason::OutOfOrder, .. }
    ));
    // 1 NM in 10 s: 360 kn, beyond 50 kn.
    let events = traffic.ingest(seen(7, 110), Ok(Distance::from_nautical_miles(1).unwrap())).unwrap();
    match events[0] {
        TrafficEvent::ObservationRejected {
            reason: RejectionReason::ImplausibleJump { implied_speed },
            ..
        } => assert_eq!(implied_speed, Speed::from_knots(360).unwrap()),
        other => panic!("expected a jump: {:?}", other),
    }
    assert_eq!(traffic.tracks()[0].fix_count(), 1);
}

#[test]
fn a_full_picture_refuses_or_evicts_the_stalest() {
    let mut refusing = Traffic::with_capacity(policy(1), 2);
    let _ = refusing.ingest(seen(1, 0), Ok(Distance::zero())).unwrap();
    let _ = refusing.ingest(seen(2, 5), Ok(Distance::zero())).unwrap();
    assert!(matches!(
        refusing.ingest(seen(3, 10), Ok(Distance::zero())).unwrap_err(),
        NavigationError::Kernel(KernelError::CapacityExceeded { needed: 3, capacity: 2, .. })
    ));
    assert_eq!(refusing.len(), 2);

    let mut evicting = Traffic::with_capacity(policy(1).when_full(WhenFull::EvictStalest), 2);
    let _ = evicting.ingest(seen(1, 0), Ok(Distance::zero())).unwrap();
    let _ = evicting.ingest(seen(2, 5), Ok(Distance::zero())).unwrap();
    let events = evicting.ingest(seen(3, 10), Ok(Distance::zero())).unwrap();
    assert_eq!(
        events[0],
        TrafficEvent::TargetEvicted {
            target: TargetId::new(1),
            last_seen: at(0),
            for_target: TargetId::new(3),
        }
    );
    assert_eq!(evicting.len(), 2);
    assert_eq!(evicting.position_of(TargetId::new(1)), None);
    assert_eq!(evicting.position_of(TargetId::new(3)), Some(1));
}

#[test]
fn a_sweep_drops_silent_targets_in_order() {
    let mut traffic = Traffic::new(policy(1));
    let _ = traffic.ingest(seen(1, 0), Ok(Distance::zero())).unwrap();
    let _ = traffic.ingest(seen(2, 100), Ok(Distance::zero())).unwrap();
    let _ = traffic.ingest(seen(3, 50), Ok(Distance::zero())).unwrap();
    let events = traffic.sweep(at(240));
    assert_eq!(
        events,
        vec![
            TrafficEvent::TargetLost { target: TargetId::new(1), last_seen: at(0) },
            TrafficEvent::TargetLost { target: TargetId::new(3), last_seen: at(50) },
        ]
    );
    assert_eq!(traffic.len(), 1);
    assert_eq!(traffic.tracks()[0].target(), TargetId::new(2));
    // Exactly at the loss timeout the track stays.
    assert!(traffic.sweep(at(280)).is_empty());
}

#[test]
fn a_bad_policy_is_refused() {
    assert!(TrackingPolicy::new(0, Duration::from_secs(1), Duration::from_secs(2), Speed::from_knots(1).unwrap()).is_err());
    assert!(TrackingPolicy::new(1, Duration::from_secs(3), Duration::from_secs(2), Speed::from_knots(1).unwrap()).is_err());
    assert!(TrackingPolicy::new(1, Duration::from_secs(1), Duration::from_secs(2), Speed::zero()).is_err());
}

fn geometry(cpa: Option<Cpa>) -> EncounterGeometry {
    EncounterGeometry {
        range: Distance::from_nautical_miles(3).unwrap(),
        bearing: TrueBearing::from_degrees(45).unwrap(),
        relative_course: TrueCourse::from_degrees(225).unwrap(),
        relative_speed: Speed::from_knots(20).unwrap(),
        bearing_drift: RateOfTurn { microdegrees_per_minute: 0 },
        cpa,
        bow_crossing: None,
    }
}

fn cpa(cables: i64, minutes: u64) -> Option<Cpa> {
    Some(Cpa {
        distance: Distance::from_cables(cables).unwrap(),
        time_to_go: Duration::from_secs(minutes * 60),
        bearing: TrueBearing::from_degrees(45).unwrap(),
    })
}

#[test]
fn the_risk_follows_the_limits() {
    let limits = CpaPolicy::new(Distance::from_nautical_miles(1).unwrap(), Duration::from_secs(20 * 60)).unwrap();
    assert_eq!(assess(geometry(None), &limits).unwrap().risk(), CollisionRisk::Opening);
    assert_eq!(assess(geometry(cpa(15, 5)), &limits).unwrap().risk(), CollisionRisk::Passing);
    assert_eq!(assess(geometry(cpa(5, 30)), &limits).unwrap().risk(), CollisionRisk::Developing);
    assert_eq!(assess(geometry(cpa(5, 10)), &limits).unwrap().risk(), CollisionRisk::Dangerous);
    // On the limits: dangerous.
    assert_eq!(assess(geometry(cpa(10, 20)), &limits).unwrap().risk(), CollisionRisk::Dangerous);
    let mut behind = geometry(None);
    behind.range = Distance::from_millimetres(-1);
    assert!(assess(behind, &limits).is_err());
    assert!(CpaPolicy::new(Distance::from_millimetres(-1), Duration::zero()).is_err());
}

#[test]
fn the_picture_alarms_on_dangerous_targets_and_ranks_them() {
    let mut traffic = Traffic::new(policy(1));
    for target in 1..=3 {
        let _ = traffic.ingest(seen(target, 0), Ok(Distance::zero())).unwrap();
    }
    let limits = CpaPolicy::new(Distance::from_nautical_miles(1).unwrap(), Duration::from_secs(20 * 60)).unwrap();
    let assessments = vec![
        Ok(Some(assess(geometry(cpa(5, 12)), &limits).unwrap())),
        Ok(None),
        Ok(Some(assess(geometry(cpa(2, 6)), &limits).unwrap())),
    ];
    let own = NavigationSnapshot::empty()
        .with_position(here(), at(0), PositionSource::Gnss)
        .with_ground_track(GroundTrack {
            course_over_ground: TrueCourse::north(),
            speed_over_ground: Speed::from_knots(8).unwrap(),
        });
    let (picture, events) = assess_traffic(&own, &traffic, &assessments).unwrap();
    assert_eq!(picture.len(), 2);
    assert_eq!(events.len(), 2);
    assert_eq!(
        events[1],
        TrafficEvent::CpaAlarm {
            target: TargetId::new(3),
            cpa: Distance::from_cables(2).unwrap(),
            tcpa: Duration::from_secs(360),
            at: at(0),
        }
    );
    // Both dangerous: the earlier CPA ranks first.
    assert_eq!(picture.most_dangerous().unwrap().target, TargetId::new(3));
    assert!(picture.target(TargetId::new(2)).is_none());
    assert_eq!(picture.at_least(CollisionRisk::Dangerous).len(), 2);
    assert!(assess_traffic(&NavigationSnapshot::empty(), &traffic, &assessments).is_err());

    // A track that cannot be assessed fails the whole picture, the first failure first.
    let first = NavigationError::Kernel(KernelError::Indeterminate { quantity: "great circle" });
    let second = NavigationError::Parallel { context: "relative motion" };
    let failing = vec![Ok(None), Err(first), Err(second)];
    assert_eq!(assess_traffic(&own, &traffic, &failing).unwrap_err(), first);
}

#[test]
fn a_watch_warns_within_its_horizon_and_alarms_when_dangerous() {
    let limits = CpaPolicy::new(Distance::from_nautical_miles(1).unwrap(), Duration::from_secs(20 * 60)).unwrap();
    let developing = assess(geometry(cpa(5, 30)), &limits).unwrap();
    assert_eq!(Level::of(&developing, Duration::from_secs(3600)), Level::Warn);
    assert_eq!(Level::of(&developing, Duration::from_secs(600)), Level::Normal);
    let dangerous = assess(geometry(cpa(5, 10)), &limits).unwrap();
    assert_eq!(Level::of(&dangerous, Duration::zero()), Level::Alarm);
    assert_eq!(Level::Alarm.state(), "alarm");
    assert_eq!(Level::Warn.state(), "warn");
    assert_eq!(Level::Normal.state(), "normal");
    assert!(is_fresh(Some(at(0)), at(180), Duration::from_secs(180)));
    assert!(!is_fresh(Some(at(0)), at(181), Duration::from_secs(180)));
    assert!(is_fresh(Some(at(10)), at(0), Duration::zero()));
    assert!(!is_fresh(None, at(0), Duration::from_secs(1)));
}

#[test]
fn a_policy_with_a_negative_limit_is_refused() {
    assert!(matches!(
        CpaPolicy::new(Distance::from_nautical_miles(-1).unwrap(), Duration::from_secs(1800)).unwrap_err(),
        NavigationError::Kernel(KernelError::OutOfRange { parameter: "CPA limit", .. })
    ));
    assert!(CpaPolicy::new(Distance::zero(), Duration::zero()).is_ok());
    let mut behind = geometry(None);
    behind.range = Distance::from_nautical_miles(-3).unwrap();
    let limits = CpaPolicy::new(Distance::from_nautical_miles(1).unwrap(), Duration::from_secs(1800)).unwrap();
    assert!(assess(behind, &limits).is_err());
}

#[test]
fn own_ship_must_be_somewhere_and_moving() {
    let traffic = Traffic::new(policy(1));
    let limits = CpaPolicy::new(Distance::from_nautical_miles(1).unwrap(), Duration::from_secs(1800)).unwrap();
    assert!(matches!(
        assess_traffic(&NavigationSnapshot::empty(), &traffic, &vec![]).unwrap_err(),
        NavigationError::Kernel(KernelError::Missing { what: "the vessel's position" })
    ));
    let anchored = NavigationSnapshot::empty().with_position(here(), at(0), PositionSource::Gnss);
    assert!(matches!(
        assess_traffic(&anchored, &traffic, &vec![]).unwrap_err(),
        NavigationError::Kernel(KernelError::Missing { .. })
    ));
    // Empty picture yields an empty result, not an error.
    let own = anchored.with_ground_track(GroundTrack {
        course_over_ground: TrueCourse::north(),
        speed_over_ground: Speed::from_knots(10).unwrap(),
    });
    let (picture, events) = assess_traffic(&own, &traffic, &vec![]).unwrap();
    assert!(picture.is_empty());
    assert!(picture.most_dangerous().is_none());
    assert!(events.is_empty());
    let _ = limits;
}
