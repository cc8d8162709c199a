use kinavis::error::{KernelError, NavigationError};
use kinavis::event::{RejectionReason, TargetId};
use kinavis::position::Position;
use kinavis::snapshot::GroundTrack;
use kinavis::time::{Duration, Instant};
use kinavis::traffic::track::{TargetObservation, TrackStatus, MAX_TRACK_HISTORY};
use kinavis::traffic::{TargetKinematics, Traffic, TrafficEvent, TrackingPolicy, WhenFull, MAX_TARGETS};
use kinavis::units::{Distance, Speed, TrueCourse};

fn start() -> Instant {
    Instant::from_unix_seconds(1_789_000_000)
}

fn after(seconds: u64) -> Instant {
    start().checked_add(Duration::from_secs(seconds)).unwrap()
}

fn knots(value: i64) -> Speed {
    Speed::from_knots(value).unwrap()
}

fn policy() -> TrackingPolicy {
    TrackingPolicy::new(3, Duration::from_secs(30), Duration::from_secs(180), knots(60)).unwrap()
}

/// Target heading north at 12 kn from 50°N 1°W, plotted every `interval`
/// seconds; fix `n` at `n × interval`.
fn northbound(target: u32, n: u64, interval: u64) -> TargetObservation {
    let seconds = (n * interval) as i64;
    // 12 kn: a fifth of a minute of latitude a minute.
    let nanodegrees = 50_000_000_000 + seconds * 1_000_000_000 / 18_000;
    TargetObservation::new(
        TargetId::new(target),
        Position::from_nanodegrees(nanodegrees, -1_000_000_000).unwrap(),
        after(n * interval),
    )
}

/// Distance run at 12 kn in `seconds`.
fn run(seconds: i64) -> Result<Distance, NavigationError> {
    Ok(Distance::from_millimetres(22_224_000 * seconds / 3600))
}

fn kinds(events: &[TrafficEvent]) -> Vec<&'static str> {
    events
        .iter()
        .map(|event| match event {
            TrafficEvent::TargetAcquired { .. } => "acquired",
            TrafficEvent::TargetLost { .. } => "lost",
            TrafficEvent::ObservationRejected { .. } => "rejected",
            _ => "other",
        })
        .collect()
}

fn unplaced(traffic: &Traffic) -> Vec<TargetKinematics> {
    vec![TargetKinematics { position: None, motion: None }; traffic.len()]
}

#[test]
fn a_target_is_acquired_on_the_policys_fix_and_not_before() {
    let mut traffic = Traffic::new(policy());
    assert!(traffic.is_empty());

    assert!(traffic.ingest(northbound(7, 0, 60), Ok(Distance::zero())).unwrap().is_empty());
    assert_eq!(traffic.len(), 1);
    assert_eq!(traffic.track(TargetId::new(7)).unwrap().status(), TrackStatus::Acquiring);
    assert!(traffic.ingest(northbound(7, 1, 60), run(60)).unwrap().is_empty());
    let events = traffic.ingest(northbound(7, 2, 60), run(60)).unwrap();
    assert_eq!(kinds(&events), ["acquired"]);
    assert!(matches!(
        events[0],
        TrafficEvent::TargetAcquired { target, at } if target == TargetId::new(7) && at == after(120)
    ));
    assert_eq!(traffic.track(TargetId::new(7)).unwrap().status(), TrackStatus::Tracking);
    // Acquired once; no second event.
    assert!(traffic.ingest(northbound(7, 3, 60), run(60)).unwrap().is_empty());
}

#[test]
fn a_policy_of_one_fix_acquires_on_sight() {
    let mut traffic = Traffic::new(
        TrackingPolicy::new(1, policy().stale_after(), policy().lost_after(), policy().max_speed())
            .unwrap(),
    );
    let events = traffic.ingest(northbound(9, 0, 10), Ok(Distance::zero())).unwrap();
    assert_eq!(kinds(&events), ["acquired"]);
}

#[test]
fn a_reported_ground_track_and_heading_are_kept_until_replaced() {
    let mut traffic = Traffic::new(policy());
    let reported = GroundTrack {
        course_over_ground: TrueCourse::from_degrees(3).unwrap(),
        speed_over_ground: Speed::from_millimetres_per_hour(21_298_000),
    };
    let _ = traffic.ingest(northbound(7, 0, 60).with_ground_track(reported), Ok(Distance::zero())).unwrap();
    assert_eq!(traffic.track(TargetId::new(7)).unwrap().reported_ground_track(), Some(reported));

    let _ = traffic
        .ingest(northbound(7, 1, 60).with_heading(TrueCourse::from_degrees(5).unwrap()), run(60))
        .unwrap();
    let track = traffic.track(TargetId::new(7)).unwrap();
    assert_eq!(track.reported_ground_track(), Some(reported));
    assert_eq!(track.heading(), Some(TrueCourse::from_degrees(5).unwrap()));
}

#[test]
fn the_window_keeps_the_latest_twelve_fixes() {
    let mut traffic = Traffic::new(policy());
    for n in 0..20 {
        let jump = if n == 0 { Ok(Distance::zero()) } else { run(30) };
        let _ = traffic.ingest(northbound(7, n, 30), jump).unwrap();
    }
    let track = traffic.track(TargetId::new(7)).unwrap();
    assert_eq!(track.fix_count(), MAX_TRACK_HISTORY);
    assert_eq!(track.last_seen(), after(19 * 30));
    assert_eq!(track.first_seen(), after((20 - MAX_TRACK_HISTORY as u64) * 30));
}

#[test]
fn an_observation_out_of_order_or_too_fast_is_turned_away() {
    let mut traffic = Traffic::new(policy());
    let _ = traffic.ingest(northbound(7, 1, 60), Ok(Distance::zero())).unwrap();

    // Same time again, and an earlier time.
    let same = traffic.ingest(northbound(7, 1, 60), Ok(Distance::zero())).unwrap();
    assert!(matches!(
        same[0],
        TrafficEvent::ObservationRejected { reason: RejectionReason::OutOfOrder, .. }
    ));
    let earlier = traffic.ingest(northbound(7, 0, 60), run(60)).unwrap();
    assert_eq!(kinds(&earlier), ["rejected"]);

    // 10′ of latitude north of the start in 1 min: ~590 kn from the last fix.
    let far = Position::from_nanodegrees(50_000_000_000 + 10_000_000_000 / 60, -1_000_000_000).unwrap();
    let jump = traffic
        .ingest(
            TargetObservation::new(TargetId::new(7), far, after(120)),
            Ok(Distance::from_millimetres(9_800 * 1_852)),
        )
        .unwrap();
    assert!(matches!(
        jump[0],
        TrafficEvent::ObservationRejected {
            target,
            reason: RejectionReason::ImplausibleJump { implied_speed },
            at
        } if implied_speed.millimetres_per_hour() > 500 * 1_852_000 && at == after(120) && target == TargetId::new(7)
    ));
    // Track unchanged.
    let track = traffic.track(TargetId::new(7)).unwrap();
    assert_eq!(track.fix_count(), 1);
    assert_eq!(track.last_seen(), after(60));
}

#[test]
fn a_silent_target_goes_stale_and_then_is_lost() {
    let mut traffic = Traffic::new(policy());
    for n in 0..3 {
        let jump = if n == 0 { Ok(Distance::zero()) } else { run(60) };
        let _ = traffic.ingest(northbound(7, n, 60), jump).unwrap();
    }
    let _ = traffic.ingest(northbound(8, 0, 60), Ok(Distance::zero())).unwrap();

    let fresh = traffic.view_at(after(130), &unplaced(&traffic));
    assert_eq!(fresh.len(), 2);
    assert!(!fresh.target(TargetId::new(7)).unwrap().stale);
    assert_eq!(fresh.current().len(), 1);
    // Target 8 last seen at the start, more than 30 s ago.
    assert!(fresh.target(TargetId::new(8)).unwrap().stale);
    assert_eq!(fresh.at(), after(130));

    let stale = traffic.view_at(after(160), &unplaced(&traffic));
    assert!(stale.target(TargetId::new(7)).unwrap().stale);
    assert_eq!(stale.target(TargetId::new(7)).unwrap().age, Duration::from_secs(40));
    assert_eq!(stale.current().len(), 0);

    // Nothing is dropped before a sweep, nor before the policy timeout.
    assert!(traffic.sweep(after(170)).is_empty());
    assert_eq!(traffic.len(), 2);
    let events = traffic.sweep(after(181));
    assert_eq!(traffic.len(), 1);
    assert!(matches!(
        events[0],
        TrafficEvent::TargetLost { target, last_seen }
            if target == TargetId::new(8) && last_seen == start()
    ));
    let events = traffic.sweep(after(120 + 181));
    assert_eq!(kinds(&events), ["lost"]);
    assert!(traffic.is_empty());
    assert!(traffic.view_at(after(1000), &unplaced(&traffic)).is_empty());
}

#[test]
fn the_view_places_a_target_where_it_is_reckoned_or_where_it_was_last_seen() {
    let mut traffic = Traffic::new(policy());
    let _ = traffic.ingest(northbound(7, 0, 60), Ok(Distance::zero())).unwrap();
    let ahead = Position::from_nanodegrees(50_010_000_000, -1_000_000_000).unwrap();
    let placed = traffic.view_at(
        after(180),
        &vec![TargetKinematics { position: Some(ahead), motion: None }],
    );
    assert_eq!(placed.targets()[0].position, ahead);
    let unplaced = traffic.view_at(after(180), &unplaced(&traffic));
    assert_eq!(unplaced.targets()[0].position, northbound(7, 0, 60).position());
    assert_eq!(unplaced.targets()[0].status, TrackStatus::Acquiring);
}

#[test]
fn a_full_picture_refuses_a_new_target_and_keeps_the_old() {
    let mut traffic = Traffic::new(policy());
    for target in 0..MAX_TARGETS {
        let _ = traffic.ingest(northbound(target as u32, 0, 60), Ok(Distance::zero())).unwrap();
    }
    assert_eq!(traffic.len(), MAX_TARGETS);
    assert!(matches!(
        traffic.ingest(northbound(MAX_TARGETS as u32, 0, 60), Ok(Distance::zero())).unwrap_err(),
        NavigationError::Kernel(KernelError::CapacityExceeded { context: "the traffic picture", .. })
    ));
    assert_eq!(traffic.len(), MAX_TARGETS);
    // A known target is still accepted.
    assert!(traffic.ingest(northbound(3, 1, 60), run(60)).is_ok());
}

#[test]
fn a_policy_must_make_sense() {
    let (stale, lost) = (Duration::from_secs(30), Duration::from_secs(180));
    assert!(TrackingPolicy::new(0, stale, lost, knots(60)).is_err());
    assert!(TrackingPolicy::new(3, stale, Duration::from_secs(10), knots(60)).is_err());
    assert!(TrackingPolicy::new(3, stale, lost, Speed::zero()).is_err());
    assert_eq!(Traffic::new(policy()).policy(), policy());
    assert_eq!(policy().on_full(), WhenFull::Refuse);
    assert_eq!(policy().when_full(WhenFull::EvictStalest).on_full(), WhenFull::EvictStalest);
}

#[test]
fn a_full_picture_told_to_evict_drops_the_stalest_and_says_so() {
    let at = |latitude_nanodegrees: i64| Position::from_nanodegrees(latitude_nanodegrees, -1_000_000_000).unwrap();
    let mut traffic = Traffic::with_capacity(policy().when_full(WhenFull::EvictStalest), 4);
    // Four targets first seen at 0, 10, 20, 30 s; target 1 seen again at 40
    // s, so target 0 is the stalest.
    for target in 0..4_u64 {
        let observation = TargetObservation::new(TargetId::new(target as u32), at(50_000_000_000), after(10 * target));
        let _ = traffic.ingest(observation, Ok(Distance::zero())).unwrap();
    }
    // 0.01° north in 30 s: 1112 m.
    let _ = traffic
        .ingest(
            TargetObservation::new(TargetId::new(1), at(50_010_000_000), after(40)),
            Ok(Distance::from_millimetres(1_111_950)),
        )
        .unwrap();
    let events = traffic
        .ingest(TargetObservation::new(TargetId::new(9), at(50_000_000_000), after(50)), Ok(Distance::zero()))
        .unwrap();
    assert_eq!(traffic.len(), 4);
    assert!(traffic.track(TargetId::new(0)).is_none());
    assert!(traffic.track(TargetId::new(9)).is_some());
    assert_eq!(
        events.as_slice(),
        [TrafficEvent::TargetEvicted {
            target: TargetId::new(0),
            last_seen: start(),
            for_target: TargetId::new(9),
        }]
    );
    // A flood of newcomers cycles through the free slots and never evicts
    // the target that keeps reporting.
    for flood in 100..200_u64 {
        let seen = after(60 + flood);
        let moved = if flood == 100 { 2_223_900 } else { 0 };
        let _ = traffic
            .ingest(
                TargetObservation::new(TargetId::new(1), at(50_020_000_000), seen),
                Ok(Distance::from_millimetres(moved)),
            )
            .unwrap();
        let newcomer = TargetId::new(flood as u32);
        let _ = traffic.ingest(TargetObservation::new(newcomer, at(50_000_000_000), seen), Ok(Distance::zero())).unwrap();
    }
    assert_eq!(traffic.len(), 4);
    assert!(traffic.track(TargetId::new(1)).is_some());
}

#[test]
fn a_jump_that_cannot_be_measured_is_an_error_and_changes_nothing() {
    let mut traffic = Traffic::new(policy());
    let _ = traffic.ingest(northbound(7, 0, 60), Ok(Distance::zero())).unwrap();
    let failure = NavigationError::Kernel(KernelError::Indeterminate { quantity: "great circle" });
    assert_eq!(traffic.ingest(northbound(7, 1, 60), Err(failure)).unwrap_err(), failure);
    assert_eq!(traffic.track(TargetId::new(7)).unwrap().fix_count(), 1);
    // Out of order, the jump is not read.
    assert!(traffic.ingest(northbound(7, 0, 60), Err(failure)).is_ok());
}
