use kinavis::deviation::swing::SwingObservation;
use kinavis::deviation::table::{DeviationTable, MAX_TABLE_NODES, STANDARD_TABLE_LEN};
use kinavis::deviation::{CardinalPoint, InterpolationMethod};
use kinavis::error::{KernelError, NavigationError};
use kinavis::units::{CompassBearing, CompassCourse, Deviation, TrueBearing, Variation};

fn micro(degrees: f64) -> i64 {
    (degrees * 1_000_000.0).round() as i64
}

fn deviation(degrees: f64) -> Deviation {
    Deviation::new(micro(degrees)).unwrap()
}

fn in_degrees(d: Deviation) -> f64 {
    d.microdegrees() as f64 / 1_000_000.0
}

#[test]
fn a_bad_angle_never_reaches_the_table() {
    // The range check lives in the course type.
    assert!(CompassCourse::new(micro(400.0)).is_err());
    assert!(CompassCourse::new(micro(-1.0)).is_err());
    assert_eq!(CompassCourse::new(micro(360.0)).unwrap().microdegrees(), 0);
}

#[test]
fn default_table_has_thirty_six_nodes() {
    let table = DeviationTable::default();
    assert_eq!(table.len(), STANDARD_TABLE_LEN);
    assert_eq!(table.deviation_at_node(0).unwrap().microdegrees(), 0);
    assert_eq!(table.deviation_at_node(350).unwrap().microdegrees(), 0);
    assert!(table.deviation_at_node(5).is_none());
}

#[test]
fn from_step_rejects_zero_and_negative() {
    assert_eq!(
        DeviationTable::from_step(0).unwrap_err(),
        NavigationError::InvalidStep { step: 0 }
    );
    assert_eq!(
        DeviationTable::from_step(-10).unwrap_err(),
        NavigationError::InvalidStep { step: -10 }
    );
    assert!(DeviationTable::from_step(181).is_err());
    assert_eq!(DeviationTable::from_step(180).unwrap().len(), 2);
}

#[test]
fn from_step_reports_a_swing_too_fine_to_store() {
    // 5° is the finest step that fits, and fills the table exactly.
    assert_eq!(DeviationTable::from_step(5).unwrap().len(), MAX_TABLE_NODES);
    assert!(matches!(
        DeviationTable::from_step(4).unwrap_err(),
        NavigationError::Kernel(KernelError::CapacityExceeded {
            needed: 90,
            capacity: MAX_TABLE_NODES,
            ..
        })
    ));
    assert!(matches!(
        DeviationTable::from_step(1).unwrap_err(),
        NavigationError::Kernel(KernelError::CapacityExceeded { needed: 360, .. })
    ));
}

#[test]
fn from_step_never_duplicates_north() {
    let table = DeviationTable::from_step(45).unwrap();
    assert_eq!(table.len(), 8);
    assert_eq!(table.nodes().last().unwrap().course(), 315);
}

#[test]
fn empty_and_tiny_tables_are_rejected_not_paniced() {
    assert!(matches!(
        DeviationTable::from_pairs(&[]).unwrap_err(),
        NavigationError::Kernel(KernelError::InsufficientData { found: 0, .. })
    ));
    assert!(matches!(
        DeviationTable::from_pairs(&[(0, micro(1.0))]).unwrap_err(),
        NavigationError::Kernel(KernelError::InsufficientData { found: 1, .. })
    ));
}

#[test]
fn negative_courses_normalise_the_euclidean_way() {
    let table = DeviationTable::from_pairs(&[(-350, micro(1.0)), (180, micro(2.0))]).unwrap();
    assert_eq!(table.nodes().first().unwrap().course(), 10);
    assert_eq!(in_degrees(table.deviation_at_node(10).unwrap()), 1.0);
}

#[test]
fn duplicate_courses_are_rejected() {
    assert_eq!(
        DeviationTable::from_pairs(&[(10, micro(1.0)), (370, micro(2.0)), (180, 0)]).unwrap_err(),
        NavigationError::DuplicateCourse { course: 10 }
    );
}

#[test]
fn the_smallest_duplicate_is_reported_and_a_bad_value_first() {
    assert_eq!(
        DeviationTable::from_pairs(&[(200, 0), (20, 0), (560, 0), (380, 0)]).unwrap_err(),
        NavigationError::DuplicateCourse { course: 20 }
    );
    // A deviation beyond 180° is reported before any duplicate.
    assert!(matches!(
        DeviationTable::from_pairs(&[(10, 0), (10, 0), (20, micro(181.0))]).unwrap_err(),
        NavigationError::Kernel(KernelError::OutOfRange { .. })
    ));
}

#[test]
fn from_deviations_demands_the_full_swing() {
    assert_eq!(
        DeviationTable::from_deviations(&[micro(-2.5), micro(-0.5)]).unwrap_err(),
        NavigationError::UnexpectedTableLength { found: 2, expected: 36 }
    );
    assert!(DeviationTable::from_deviations(&[0; 37]).is_err());
    let table = DeviationTable::from_deviations(&[0; 36]).unwrap();
    assert_eq!(table.len(), 36);
    let mut values = [0i64; 36];
    values[9] = micro(-3.5);
    let table = DeviationTable::from_deviations(&values).unwrap();
    assert_eq!(in_degrees(table.deviation_at_node(90).unwrap()), -3.5);
}

#[test]
fn set_deviation_reports_unknown_nodes() {
    let mut table = DeviationTable::from_cardinal_directions();
    let westerly = deviation(-1.0);
    assert_eq!(
        table.set_deviation(50, westerly).unwrap_err(),
        NavigationError::CourseNotInTable { course: 50 }
    );
    table.set_deviation(90, westerly).unwrap();
    assert_eq!(in_degrees(table.deviation_at_node(90).unwrap()), -1.0);

    // ...but `insert_deviation` adds it, keeping the table sorted.
    table.insert_deviation(50, westerly).unwrap();
    assert_eq!(in_degrees(table.deviation_at_node(50).unwrap()), -1.0);
    assert!(table
        .nodes()
        .windows(2)
        .all(|pair| pair[0].course() < pair[1].course()));
}

#[test]
fn cardinal_points_round_trip() {
    let mut table = DeviationTable::from_cardinal_directions();
    table.set_deviation_at(CardinalPoint::N, deviation(-2.5)).unwrap();
    table.set_deviation_at(CardinalPoint::E, deviation(1.0)).unwrap();
    assert_eq!(in_degrees(table.deviation_at_point(CardinalPoint::N).unwrap()), -2.5);
    assert_eq!(in_degrees(table.deviation_at_point(CardinalPoint::E).unwrap()), 1.0);
    assert_eq!(in_degrees(table.deviation_at_point(CardinalPoint::SW).unwrap()), 0.0);
}

#[test]
fn a_point_absent_from_the_table_is_reported_as_such() {
    let table = DeviationTable::from_step(100).unwrap();
    assert!(table.deviation_at_point(CardinalPoint::N).is_ok());
    assert!(matches!(
        table.deviation_at_point(CardinalPoint::E),
        Err(NavigationError::CourseNotInTable { course: 90 })
    ));
}

#[test]
fn an_insert_reads_back_and_leaves_the_others() {
    let mut table = DeviationTable::from_step(90).unwrap();
    table.insert_deviation(-45, deviation(2.0)).unwrap();
    assert_eq!(table.len(), 5);
    assert_eq!(in_degrees(table.deviation_at_node(315).unwrap()), 2.0);
    assert_eq!(in_degrees(table.deviation_at_node(270).unwrap()), 0.0);
    // Overwriting keeps the count.
    table.insert_deviation(315, deviation(-1.5)).unwrap();
    assert_eq!(table.len(), 5);
    assert_eq!(in_degrees(table.deviation_at_node(315).unwrap()), -1.5);
}

#[test]
fn a_full_table_refuses_a_new_course_and_accepts_an_old_one() {
    let mut table = DeviationTable::from_step(5).unwrap();
    assert!(matches!(
        table.insert_deviation(7, deviation(1.0)).unwrap_err(),
        NavigationError::Kernel(KernelError::CapacityExceeded { needed: 73, capacity: 72, .. })
    ));
    assert!(table.deviation_at_node(7).is_none());
    table.insert_deviation(10, deviation(1.0)).unwrap();
    assert_eq!(table.len(), MAX_TABLE_NODES);
}

#[test]
fn a_swing_gives_the_deviation_on_each_heading() {
    let observation = SwingObservation {
        compass_heading: CompassCourse::new(micro(89.6)).unwrap(),
        observed_bearing: CompassBearing::new(micro(120.0)).unwrap(),
        reference_bearing: TrueBearing::new(micro(118.0)).unwrap(),
    };
    let variation = Variation::new(micro(-3.0)).unwrap();
    // 118 - (-3) - 120 = +1° east.
    assert_eq!(in_degrees(observation.deviation(variation).unwrap()), 1.0);
    assert_eq!(observation.heading_degrees(), 90);

    let second = SwingObservation {
        compass_heading: CompassCourse::new(micro(270.2)).unwrap(),
        observed_bearing: CompassBearing::new(micro(10.0)).unwrap(),
        reference_bearing: TrueBearing::new(micro(350.0)).unwrap(),
    };
    // 350 + 3 - 10 = 343, reduced: -17°.
    assert_eq!(in_degrees(second.deviation(variation).unwrap()), -17.0);
    let table = DeviationTable::from_swing(&[observation, second], variation).unwrap();
    assert_eq!(in_degrees(table.deviation_at_node(90).unwrap()), 1.0);
    assert_eq!(in_degrees(table.deviation_at_node(270).unwrap()), -17.0);
}

#[test]
fn linear_is_the_default_interpolation() {
    assert_eq!(InterpolationMethod::default(), InterpolationMethod::Linear);
}

fn heading(degrees: f64) -> CompassCourse {
    CompassCourse::new(micro(degrees)).unwrap()
}

fn readme_table() -> DeviationTable {
    let values: Vec<i64> = [
        -2.5, -0.5, 1.6, 4.4, -1.7, 0.0, 1.0, 0.3, -0.9, 0.5, -1.2, 0.8, -0.3, 1.7, -2.1, 0.4,
        -0.6, 1.2, -1.3, 0.0, 0.9, -1.1, 1.5, -0.7, -13.2, -15.7, -17.9, -19.2, -18.1, 1.8,
        -0.4, 0.7, -0.2, 1.4, -4.4, -2.9,
    ]
    .iter()
    .map(|&d| micro(d))
    .collect();
    DeviationTable::from_deviations(&values).unwrap()
}

#[test]
fn a_short_output_buffer_is_reported_not_truncated() {
    let table = DeviationTable::default();
    let courses = [heading(0.0), heading(90.0), heading(180.0)];
    let mut out = [Deviation::zero(); 2];
    assert!(matches!(
        table.interpolate_deviation(&courses, &mut out),
        Err(NavigationError::Kernel(KernelError::BufferTooSmall {
            needed: 3,
            found: 2
        }))
    ));

    // A longer buffer is accepted; the tail is untouched.
    let mut out = [deviation(7.0); 4];
    assert!(table.interpolate_deviation(&courses, &mut out).is_ok());
    assert_eq!(out[3], deviation(7.0));
    assert_eq!(out[0], Deviation::zero());
}

#[test]
fn linear_interpolation_is_exact_at_nodes() {
    let table = readme_table();
    for node in table.nodes() {
        let value = table.deviation_at(heading(f64::from(node.course())));
        assert_eq!(value, node.deviation());
    }
}

#[test]
fn linear_interpolation_wraps_through_north() {
    // Values past the last node wrap to the first, not clamp.
    let mut table = DeviationTable::from_step(10).unwrap();
    table.set_deviation(350, deviation(10.0)).unwrap();
    table.set_deviation(0, deviation(-10.0)).unwrap();

    let midpoint = table.deviation_at(heading(355.0));
    assert_eq!(in_degrees(midpoint), 0.0);

    let quarter = table.deviation_at(heading(352.5));
    assert_eq!(in_degrees(quarter), 5.0);
}

#[test]
fn linear_never_overshoots_its_nodes() {
    let table = readme_table();
    let low = table.nodes().iter().map(|node| node.deviation().microdegrees()).min().unwrap();
    let high = table.nodes().iter().map(|node| node.deviation().microdegrees()).max().unwrap();

    let mut course = 0.0;
    while course < 360.0 {
        let value = table.deviation_at(heading(course)).microdegrees();
        assert!(value >= low && value <= high);
        course += 0.25;
    }
}

#[test]
fn a_linear_batch_matches_single_lookups() {
    let table = readme_table();
    let courses: Vec<CompassCourse> =
        [0.0, 3.0, 45.5, 180.0, 259.9, 360.0].iter().map(|&c| heading(c)).collect();
    let mut whole = vec![Deviation::zero(); courses.len()];
    table.interpolate_deviation(&courses, &mut whole).unwrap();
    for (index, course) in courses.iter().enumerate() {
        assert_eq!(whole[index], table.deviation_at(*course));
    }
}

#[test]
fn linear_interpolation_takes_its_share_of_the_rise() {
    // From the documentation: 10° at north, zero at east and west; 315° lies
    // half way from west to north.
    let mut table = DeviationTable::from_step(90).unwrap();
    table.set_deviation(0, deviation(10.0)).unwrap();
    assert_eq!(in_degrees(table.deviation_at(heading(315.0))), 5.0);
    // A third of the way is truncated to whole microdegrees.
    assert_eq!(table.deviation_at(heading(30.0)).microdegrees(), 6_666_667);
    // The readme swing, between 230° (-0.7°) and 240° (-13.2°).
    assert_eq!(in_degrees(readme_table().deviation_at(heading(234.0))), -5.7);
}

#[test]
fn the_widest_gap_and_the_largest_deviation_are_read_off_the_nodes() {
    let table = DeviationTable::from_pairs(&[
        (0, micro(1.0)),
        (7, micro(-2.0)),
        (93, micro(0.5)),
        (200, micro(-3.0)),
        (201, micro(-3.1)),
        (355, micro(2.0)),
    ])
    .unwrap();
    assert_eq!(table.max_gap(), 154);
    assert_eq!(table.max_abs_deviation(), micro(3.1));
    assert_eq!(DeviationTable::default().max_gap(), 10);
    assert_eq!(DeviationTable::default().max_abs_deviation(), 0);
    assert_eq!(readme_table().max_abs_deviation(), micro(19.2));
}

#[test]
fn a_steep_table_is_not_invertible() {
    // 3° of deviation over 7° of heading is gentle.
    let gentle = DeviationTable::from_pairs(&[(0, micro(1.0)), (7, micro(-2.0)), (180, 0)]).unwrap();
    assert_eq!(gentle.max_slope(), 428_571);
    assert!(gentle.is_invertible());

    let steep = readme_table();
    // Between 280° (-18.1°) and 290° (1.8°): 19.9° over ten degrees.
    assert_eq!(steep.max_slope(), 1_990_000);
    assert!(!steep.is_invertible());

    // Exactly one degree per degree is already not invertible.
    let edge = DeviationTable::from_pairs(&[(0, 0), (10, micro(10.0)), (180, 0)]).unwrap();
    assert_eq!(edge.max_slope(), 1_000_000);
    assert!(!edge.is_invertible());
    assert!(DeviationTable::default().is_invertible());
    assert_eq!(DeviationTable::default().max_slope(), 0);
}

#[test]
fn the_error_bound_is_an_eighth_of_the_larger_second_difference() {
    let table = DeviationTable::from_pairs(&[(0, 0), (90, micro(2.0)), (180, 0), (270, micro(-2.0))]).unwrap();
    // Segment 0°–90°: second differences 0 at 0° and 4° at 90°.
    assert_eq!(table.local_error_bound(heading(45.0)), 500_000);
    // Segment 270°–0° closes the ring: 4° at 270°, 0 at 0°.
    assert_eq!(table.local_error_bound(heading(300.0)), 500_000);
}

#[test]
fn the_error_bound_vanishes_on_a_straight_run() {
    let table = DeviationTable::default();
    assert_eq!(table.local_error_bound(heading(123.4)), 0);
    let truncated = DeviationTable::from_pairs(&[(0, 0), (120, 7), (240, 0)]).unwrap();
    // Second differences 7, 14 and 7 microdegrees; an eighth of 14 rounds down.
    assert_eq!(truncated.local_error_bound(heading(10.0)), 1);
}
