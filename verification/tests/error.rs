use kinavis::error::{KernelError, NavigationError};
use kinavis::event::{AnchorEvent, GuidanceEvent};
use kinavis::time::Instant;
use kinavis::units::{Distance, Speed};

#[test]
fn every_variant_has_a_message() {
    let errors = [
        NavigationError::Kernel(KernelError::Indeterminate { quantity: "a rhumb line through a pole" }),
        NavigationError::InvalidStep { step: 0 },
        NavigationError::DuplicateCourse { course: 10 },
        NavigationError::CourseNotInTable { course: 50 },
        NavigationError::UnexpectedTableLength { found: 5, expected: 36 },
        NavigationError::Parallel { context: "the two great circles" },
        NavigationError::NoSolution { context: "a course achieving that closest approach" },
        NavigationError::CurrentTooStrong {
            drift: Speed::from_knots(5).unwrap(),
            speed_through_water: Speed::from_knots(2).unwrap(),
        },
    ];
    for error in errors {
        assert!(!error.to_string().is_empty(), "{error:?}");
    }
    assert_eq!(
        NavigationError::UnexpectedTableLength { found: 5, expected: 36 }.to_string(),
        "expected 36 deviation values, got 5"
    );
}

#[test]
fn a_kernel_error_comes_through_unchanged() {
    let inner = KernelError::Missing { what: "the vessel's position" };
    let outer: NavigationError = inner.clone().into();
    assert_eq!(outer.kernel(), Some(inner));
    assert_eq!(outer.to_string(), inner.to_string());
    assert!(NavigationError::InvalidStep { step: 0 }.kernel().is_none());
    assert_eq!(outer.into_kernel(), inner);
    assert!(matches!(
        NavigationError::Parallel { context: "x" }.into_kernel(),
        KernelError::Indeterminate { quantity: "x" }
    ));
}

#[test]
fn each_context_lists_its_own_events() {
    let at = Instant::from_unix_seconds(1_789_000_000);
    let mut passage: Vec<GuidanceEvent> = Vec::new();
    passage.push(GuidanceEvent::WaypointReached { index: 3, at });
    assert_eq!(passage.len(), 1);
    assert_eq!(passage[0].at(), at);

    let anchor = vec![AnchorEvent::AnchorDragging { distance: Distance::zero(), radius: Distance::zero(), at }];
    assert_eq!(anchor[0].at(), at);
}

#[test]
fn messages_spell_out_their_numbers_and_names() {
    assert_eq!(
        KernelError::OutOfRange { parameter: "cable", value: -5, min: 0, max: 9 }.to_string(),
        "cable -5 is outside [0, 9]"
    );
    assert_eq!(KernelError::Missing { what: "the vessel's position" }.to_string(), "missing the vessel's position");
    assert_eq!(
        KernelError::SingularSystem { context: "the periodic cubic spline" }.to_string(),
        "singular system in the periodic cubic spline"
    );
    assert_eq!(
        NavigationError::CourseNotInTable { course: 50 }.to_string(),
        "compass course 50 is not a node of this deviation table"
    );
    assert_eq!(
        NavigationError::InvalidStep { step: -10 }.to_string(),
        "invalid deviation table step: -10. Must be between 1 and 180 degrees"
    );
}
