use kinavis::conditions::{Constant, FixedLeeway, Timetable, TimetableSample};
use kinavis::environment::{Current, VesselMotion, Wind};
use kinavis::error::KernelError;
use kinavis::position::Position;
use kinavis::time::Instant;
use kinavis::units::{Angle, Distance, Speed, TrueCourse};

fn wind(from: i64, knots: i64) -> Wind {
    Wind::new(TrueCourse::from_degrees(from).unwrap(), Speed::from_knots(knots).unwrap()).unwrap()
}

fn hour(h: i64) -> Instant {
    Instant::from_unix_seconds(1_789_000_000 + h * 3600)
}

fn here() -> Position {
    Position::from_nanodegrees(50_000_000_000, -1_000_000_000).unwrap()
}

fn in_degrees(angle: Angle) -> f64 {
    angle.microdegrees() as f64 / 1_000_000.0
}

#[test]
fn fixed_leeway_falls_away_from_the_wind() {
    let model = FixedLeeway(Angle::from_degrees(5).unwrap());
    let motion = VesselMotion::new(TrueCourse::north(), Speed::from_knots(6).unwrap());
    assert_eq!(in_degrees(model.leeway(motion, wind(270, 15)).unwrap()), 5.0);
    assert_eq!(in_degrees(model.leeway(motion, wind(90, 15)).unwrap()), -5.0);
    assert_eq!(in_degrees(model.leeway(motion, wind(0, 15)).unwrap()), 0.0);
    assert_eq!(in_degrees(model.leeway(motion, Wind::calm()).unwrap()), 0.0);
    let negative = FixedLeeway(Angle::from_degrees(-5).unwrap());
    assert_eq!(in_degrees(negative.leeway(motion, wind(270, 15)).unwrap()), 5.0);
}

#[test]
fn fixed_leeway_is_zero_with_the_wind_astern() {
    let model = FixedLeeway(Angle::from_degrees(5).unwrap());
    let motion = VesselMotion::new(TrueCourse::north(), Speed::from_knots(6).unwrap());
    assert_eq!(in_degrees(model.leeway(motion, wind(180, 15)).unwrap()), 0.0);
    assert!(FixedLeeway(Angle::from_microdegrees(i64::MIN)).leeway(motion, wind(90, 15)).is_err());
}

#[test]
fn a_constant_answers_the_current_the_wind_and_the_tide() {
    let current = Current {
        set: TrueCourse::from_degrees(90).unwrap(),
        drift: Speed::from_millimetres_per_hour(2_778_000),
    };
    assert_eq!(Constant(current).current_at(here(), hour(9)).unwrap(), current);
    assert_eq!(Constant(wind(270, 10)).wind_at(here(), hour(9)).unwrap(), wind(270, 10));
    let tide = Distance::from_millimetres(2000);
    assert_eq!(Constant(tide).height_of_tide(here(), hour(9)).unwrap(), tide);
}

#[test]
fn a_timetable_does_not_extend_itself() {
    let mut table: Timetable<Wind> = Timetable::new(4);
    assert!(matches!(
        table.at(hour(7)),
        Err(KernelError::OutsideValidity { data: "timetable" })
    ));
    table.push(hour(6), wind(270, 10)).unwrap();
    table.push(hour(12), wind(180, 20)).unwrap();
    assert!(table.at(hour(5)).is_err());
    assert!(table.at(hour(13)).is_err());
    assert_eq!(table.at(hour(12)).unwrap(), TimetableSample::Exact(wind(180, 20)));
    assert_eq!(table.at(hour(6)).unwrap(), TimetableSample::Exact(wind(270, 10)));
    match table.at(hour(9)).unwrap() {
        TimetableSample::Between { before, after, elapsed, gap } => {
            assert_eq!(before.at, hour(6));
            assert_eq!(after.at, hour(12));
            assert_eq!(elapsed.as_secs(), 3 * 3600);
            assert_eq!(gap.as_secs(), 6 * 3600);
        }
        other => panic!("expected a bracket: {:?}", other),
    }
    assert_eq!(table.span(), Some((hour(6), hour(12))));
    assert_eq!(table.len(), 2);
}

#[test]
fn entries_must_come_in_order_and_fit() {
    let mut table: Timetable<Wind> = Timetable::new(2);
    table.push(hour(6), wind(270, 10)).unwrap();
    assert!(matches!(
        table.push(hour(6), wind(270, 10)),
        Err(KernelError::TimeReversed { .. })
    ));
    match table.push(hour(5), wind(270, 10)) {
        Err(KernelError::TimeReversed { by }) => assert_eq!(by.as_secs(), 3600),
        other => panic!("expected a reversal: {:?}", other),
    }
    table.push(hour(7), wind(270, 10)).unwrap();
    assert!(matches!(
        table.push(hour(8), wind(270, 10)),
        Err(KernelError::CapacityExceeded { .. })
    ));
    assert_eq!(table.len(), 2);
}
