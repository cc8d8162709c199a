use kinavis::error::NavigationError;
use kinavis::event::TargetId;
use kinavis::traffic::avoidance::{
    alterations, choose_alteration, clears, Approach, ManoeuvreConstraints, PermittedSides, Side,
};
use kinavis::turning::RateOfTurn;
use kinavis::units::{Angle, Distance, TrueCourse};

fn miles(tenths: i64) -> Distance {
    Distance::from_millimetres(tenths * 185_200)
}

fn degrees(d: i64) -> Angle {
    Angle::from_degrees(d).unwrap()
}

fn course(d: f64) -> TrueCourse {
    TrueCourse::new((d * 1e6).round() as i64).unwrap()
}

fn target(id: u32) -> Option<TargetId> {
    Some(TargetId::new(id))
}

#[test]
fn an_alteration_clears_only_if_every_target_passes_far_enough() {
    let desired = miles(10);
    // Nothing to clear: the greatest distance, no target.
    assert_eq!(clears(&[], desired), Some((Distance::from_millimetres(i64::MAX), None)));
    // A CPA at the distance clears; one inside it does not.
    assert_eq!(
        clears(&[(target(1), Some(Approach::Closing { distance: miles(15) }))], desired),
        Some((miles(15), target(1)))
    );
    assert_eq!(
        clears(&[(target(1), Some(Approach::Closing { distance: miles(10) }))], desired),
        Some((miles(10), target(1)))
    );
    assert_eq!(
        clears(
            &[
                (target(1), Some(Approach::Closing { distance: miles(15) })),
                (target(2), Some(Approach::Closing { distance: miles(5) })),
            ],
            desired
        ),
        None
    );
    // A target already inside and opening passes at its range now.
    assert_eq!(
        clears(
            &[
                (target(1), Some(Approach::Closing { distance: miles(15) })),
                (target(2), Some(Approach::Opening { current_range: miles(3) })),
                (target(3), Some(Approach::Stationary { range: miles(3) })),
            ],
            desired
        ),
        Some((miles(3), target(2)))
    );
    // A target that cannot be plotted is not vouched for.
    assert_eq!(clears(&[(target(1), None)], desired), None);
}

#[test]
fn the_exact_answer_is_tried_first_then_every_degree() {
    let either = ManoeuvreConstraints::new(PermittedSides::Either, degrees(30), degrees(60)).unwrap();
    let tries = alterations(course(0.0), &either, Some(course(37.5)), Some(course(320.0)));
    let grid: Vec<i64> = (30..=60).map(|d| d * 1_000_000).collect();
    assert_eq!(tries.starboard()[0], 37_500_000);
    assert_eq!(&tries.starboard()[1..], grid.as_slice());
    assert_eq!(tries.port()[0], 40_000_000);
    assert_eq!(&tries.port()[1..], grid.as_slice());

    // A small answer is raised to the least alteration; one beyond the most,
    // or on the other side, is not tried.
    let tries = alterations(course(350.0), &either, Some(course(0.0)), Some(course(355.0)));
    assert_eq!(tries.starboard()[0], 30_000_000);
    assert_eq!(tries.port(), grid.as_slice());
    let tries = alterations(course(0.0), &either, Some(course(90.0)), None);
    assert_eq!(tries.starboard(), grid.as_slice());

    // Only a permitted side is tried.
    let starboard = ManoeuvreConstraints::new(PermittedSides::Starboard, degrees(30), degrees(60)).unwrap();
    let tries = alterations(course(0.0), &starboard, None, Some(course(320.0)));
    assert!(tries.port().is_empty());
    assert_eq!(tries.starboard().len(), 31);

    // Steps stop at the last whole degree within the most.
    let odd = ManoeuvreConstraints::new(PermittedSides::Port, degrees(10), Angle::from_microdegrees(12_500_000)).unwrap();
    assert_eq!(alterations(course(0.0), &odd, None, None).port(), &[10_000_000, 11_000_000, 12_000_000]);
}

#[test]
fn the_smaller_clearing_alteration_wins_and_starboard_takes_a_tie() {
    let constraints = ManoeuvreConstraints::new(PermittedSides::Either, degrees(30), degrees(32))
        .unwrap()
        .with_rate_of_turn(RateOfTurn { microdegrees_per_minute: -30_000_000 })
        .unwrap();
    let tries = alterations(course(10.0), &constraints, None, None);
    assert_eq!(tries.starboard(), &[30_000_000, 31_000_000, 32_000_000]);

    // Starboard clears at 32°, port at 31°: port is smaller.
    let manoeuvre = choose_alteration(
        course(10.0),
        &constraints,
        &tries,
        &[None, None, Some((miles(12), target(4)))],
        &[None, Some((miles(11), target(5))), Some((miles(14), target(5)))],
    )
    .unwrap();
    assert_eq!(manoeuvre.alteration().microdegrees, -31_000_000);
    assert_eq!(manoeuvre.side(), Side::Port);
    assert_eq!(manoeuvre.course().microdegrees(), 339_000_000);
    assert_eq!(manoeuvre.least_passing(), miles(11));
    assert_eq!(manoeuvre.limiting_target(), target(5));
    // 31° at 30° a minute: 62 seconds.
    assert_eq!(manoeuvre.turn_time().unwrap().nanos, 62_000_000_000);

    // A tie goes to starboard.
    let manoeuvre = choose_alteration(
        course(10.0),
        &constraints,
        &tries,
        &[None, Some((miles(12), target(4))), None],
        &[None, Some((miles(11), target(5))), None],
    )
    .unwrap();
    assert_eq!(manoeuvre.alteration().microdegrees, 31_000_000);
    assert_eq!(manoeuvre.side(), Side::Starboard);
    assert_eq!(manoeuvre.course().microdegrees(), 41_000_000);

    // Nothing clears: no solution.
    assert_eq!(
        choose_alteration(course(10.0), &constraints, &tries, &[None, None, None], &[None, None, None]),
        Err(NavigationError::NoSolution {
            context: "an alteration within the constraints that opens every target that far"
        })
    );
}
