use kinavis::picture::{
    Category, Delta, Picture, Reading, Source, Update, VesselCategory, VesselState, SELF_CONTEXT,
};
use kinavis::position::Position;
use kinavis::signalk::parse_timestamp;
use kinavis::units::{Speed, TrueCourse};
use kinavis::units::Distance;
use kinavis::watch::{closest_first, motion, under_way, Level, Standing};

const TARGET: &str = "vessels.urn:mrn:imo:mmsi:244000001";
const OWN: &str = "vessels.urn:mrn:signalk:uuid:cdf30fb9-28bf-4d10-8817-04a6b3d96e33";

fn sentence(name: &str) -> Option<Source> {
    Some(Source { sentence: Some(name.to_string()), pgn: None })
}

fn pgn(number: u64) -> Option<Source> {
    Some(Source { sentence: None, pgn: Some(number) })
}

fn moving(latitude: f64, longitude: f64, course: f64) -> Vec<Reading> {
    vec![
        Reading::Position(Some(
            Position::from_nanodegrees(
                (latitude * 1e9).round() as i64,
                (longitude * 1e9).round() as i64,
            )
            .unwrap(),
        )),
        Reading::Course(Some(TrueCourse::from_degrees(course as i64).unwrap())),
        Reading::Speed(Some(Speed::from_knots(6).unwrap())),
    ]
}

fn delta(context: Option<&str>, time: &str, source: Option<Source>, values: Vec<Reading>) -> Delta {
    Delta {
        context: context.map(str::to_string),
        updates: vec![Update { timestamp: Some(time.to_string()), source, values }],
    }
}

#[test]
fn own_vessel_is_learnt_from_its_own_sensors_not_from_ais() {
    let mut picture = Picture::new();
    // A target first, from AIS: not own vessel.
    picture.apply(&delta(
        Some(TARGET),
        "2026-09-25T12:00:00Z",
        sentence("VDM"),
        moving(53.025, 5.04155, 270.0),
    ));
    assert!(!picture.own_is_named());
    assert_eq!(picture.own_context(), SELF_CONTEXT);
    // An AIS parameter group does not name it either.
    picture.apply(&delta(Some(TARGET), "2026-09-25T12:00:00Z", pgn(129_038), moving(53.025, 5.04155, 270.0)));
    assert!(!picture.own_is_named());
    // Then the GNSS receiver: its RMC is own vessel, under the server's
    // identity for it.
    picture.apply(&delta(Some(OWN), "2026-09-25T12:00:00Z", sentence("RMC"), moving(53.0, 5.0, 0.0)));
    assert!(picture.own_is_named());
    assert_eq!(picture.own_context(), OWN);
    let targets = picture.targets();
    assert_eq!(targets.len(), 1);
    assert_eq!(targets[0].0, TARGET);
    assert!(picture.own().unwrap().position.is_some());
}

#[test]
fn own_vessel_named_by_hand_takes_what_was_held_as_self() {
    let mut picture = Picture::new();
    picture.apply(&delta(Some("vessels.self"), "2026-09-25T12:00:00Z", None, moving(53.0, 5.0, 0.0)));
    picture.set_own_context("vessels.urn:mrn:imo:mmsi:230000001");
    assert_eq!(picture.len(), 1);
    assert!(picture.own().unwrap().position.is_some());
    // The server writes own vessel's deltas under its full context.
    picture.apply(&delta(
        Some("vessels.urn:mrn:imo:mmsi:230000001"),
        "2026-09-25T12:00:01Z",
        None,
        moving(53.0, 5.0, 0.0),
    ));
    picture.apply(&delta(Some(TARGET), "2026-09-25T12:00:01Z", None, moving(53.025, 5.04155, 270.0)));
    assert_eq!(picture.len(), 2);
    assert_eq!(picture.targets().len(), 1, "own vessel is not its own target");
    // A delta without a context, or under the default one, is own vessel's.
    picture.apply(&delta(None, "2026-09-25T12:00:02Z", None, vec![Reading::Other]));
    picture.apply(&delta(Some("vessels.self"), "2026-09-25T12:00:03Z", None, vec![]));
    assert_eq!(picture.len(), 2);
    assert_eq!(
        picture.own().unwrap().last_seen,
        parse_timestamp("2026-09-25T12:00:03Z")
    );
}

#[test]
fn a_context_that_is_not_a_vessel_is_ignored_and_time_never_goes_back() {
    let mut picture = Picture::new();
    picture.apply(&delta(Some("aircraft.urn:mrn:imo:mmsi:111"), "2026-09-25T12:00:00Z", None, vec![]));
    assert!(picture.is_empty());
    picture.apply(&delta(Some(TARGET), "2026-09-25T12:05:00Z", None, vec![]));
    picture.apply(&delta(Some(TARGET), "2026-09-25T12:01:00Z", None, vec![]));
    picture.apply(&delta(Some(TARGET), "not a time", None, vec![]));
    assert_eq!(
        picture.targets()[0].1.last_seen,
        parse_timestamp("2026-09-25T12:05:00Z")
    );
}

#[test]
fn readings_set_clear_and_keep_the_paths_they_name() {
    let mut vessel = VesselState::default();
    vessel.read(&Reading::Root { name: Some("ANNA".to_string()), mmsi: Some("244000001".to_string()) });
    assert_eq!(vessel.label(TARGET), "ANNA");
    // A root without a name keeps the name.
    vessel.read(&Reading::Root { name: None, mmsi: None });
    assert_eq!(vessel.name.as_deref(), Some("ANNA"));
    // A name that cannot be read clears it: the MMSI labels the vessel.
    vessel.read(&Reading::Name(None));
    assert_eq!(vessel.label(TARGET), "244000001");
    vessel.read(&Reading::Mmsi(None));
    assert_eq!(vessel.label(TARGET), TARGET);
    vessel.read(&Reading::Speed(Some(Speed::from_knots(6).unwrap())));
    vessel.read(&Reading::Speed(None));
    assert_eq!(vessel.speed, None);
    vessel.read(&Reading::ShipType(Some(36)));
    vessel.read(&Reading::Other);
    assert_eq!(vessel.ship_type, Some(36));
}

#[test]
fn the_category_comes_from_the_state_else_the_ship_type() {
    let mut vessel = VesselState::default();
    assert_eq!(vessel.category(), None);
    assert_eq!(under_way(&vessel), Some(VesselCategory::PowerDriven));
    vessel.ship_type = Some(36);
    assert_eq!(vessel.category(), Some(Category::UnderWay(VesselCategory::Sailing)));
    vessel.ship_type = Some(30);
    assert_eq!(vessel.category(), Some(Category::UnderWay(VesselCategory::Fishing)));
    vessel.state = Some("motoring".to_string());
    assert_eq!(vessel.category(), Some(Category::UnderWay(VesselCategory::PowerDriven)));
    vessel.state = Some("anchored".to_string());
    assert_eq!(vessel.category(), Some(Category::NotUnderWay));
    assert_eq!(under_way(&vessel), None);
    vessel.state = Some("restricted manouverability, towing".to_string());
    assert_eq!(
        vessel.category(),
        Some(Category::UnderWay(VesselCategory::RestrictedInAbilityToManoeuvre))
    );
    vessel.state = Some("constrained by draft".to_string());
    assert_eq!(vessel.category(), Some(Category::UnderWay(VesselCategory::ConstrainedByDraught)));
    // A state that does not say falls back to the ship type.
    vessel.state = Some("default".to_string());
    assert_eq!(vessel.category(), Some(Category::UnderWay(VesselCategory::Fishing)));
}

#[test]
fn a_vessel_below_half_a_knot_is_at_rest_whatever_its_course() {
    let mut vessel = VesselState::default();
    assert_eq!(motion(&vessel), None);
    // 5 mm/s of noise and no course.
    vessel.speed = Some(Speed::from_millimetres_per_hour(16_560));
    let (course, speed) = motion(&vessel).unwrap();
    assert_eq!(course.microdegrees(), 0);
    assert_eq!(speed.millimetres_per_hour(), 0);
    // Moving, a course is needed.
    vessel.speed = Some(Speed::from_knots(6).unwrap());
    assert_eq!(motion(&vessel), None);
    vessel.course = Some(TrueCourse::from_degrees(270).unwrap());
    assert_eq!(motion(&vessel).unwrap().0.microdegrees(), 270_000_000);
}

#[test]
fn a_level_change_is_notified_once_and_a_silent_target_is_cleared() {
    let mut standing = Standing::new();
    let round = vec![(TARGET.to_string(), Level::Alarm), ("vessels.b".to_string(), Level::Normal)];
    let notices = standing.advance(&round);
    assert_eq!(notices.changed, vec![true, false]);
    assert!(notices.cleared.is_empty());
    assert_eq!(standing.level(TARGET), Level::Alarm);

    // Still an alarm: nothing new to say.
    let notices = standing.advance(&vec![(TARGET.to_string(), Level::Alarm)]);
    assert_eq!(notices.changed, vec![false]);

    // Gone stale: no report, so it returns to normal, no longer assessed.
    let notices = standing.advance(&vec![]);
    assert_eq!(notices.changed, Vec::<bool>::new());
    assert_eq!(notices.cleared, vec![TARGET.to_string()]);
    assert_eq!(standing.level(TARGET), Level::Normal);

    // A warning that turns normal is notified as a change, not cleared.
    standing.advance(&vec![(TARGET.to_string(), Level::Warn)]);
    let notices = standing.advance(&vec![(TARGET.to_string(), Level::Normal)]);
    assert_eq!(notices.changed, vec![true]);
    assert!(notices.cleared.is_empty());
    assert_eq!(standing.level(TARGET), Level::Normal);
}

#[test]
fn reports_come_closest_first_and_opening_last() {
    let mile = |n: i64| Some(Distance::from_millimetres(n * 1_852_000));
    let cpas = [mile(2), None, mile(1), mile(2), None];
    assert_eq!(closest_first(&cpas), vec![2, 0, 3, 1, 4]);
    assert!(closest_first(&[]).is_empty());
}
