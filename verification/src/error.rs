//! Errors of the value types and of the algorithms.
//!
//! [`KernelError`] covers value types and containers (out-of-range numbers,
//! full stores, reversed time). [`NavigationError`] adds algorithm-level
//! failures and wraps kernel errors as [`NavigationError::Kernel`].
use vstd::prelude::*;

use crate::time::Duration;
use crate::units::Speed;

verus! {

/// Failure of a value type, a container or a numeric primitive.
#[derive(Clone, Copy, Debug, PartialEq, Eq)]
pub enum KernelError {
    /// A number outside its range; `value`, `min` and `max` are in the
    /// parameter's own unit.
    OutOfRange { parameter: &'static str, value: i64, min: i64, max: i64 },
    /// A required input is absent.
    Missing { what: &'static str },
    /// A quantity is undefined for the inputs.
    Indeterminate { quantity: &'static str },
    /// A fixed-capacity store is full.
    CapacityExceeded { context: &'static str, needed: usize, capacity: usize },
    /// An instant precedes the one it must follow, by `by`.
    TimeReversed { by: Duration },
    /// Too few values for the computation.
    InsufficientData { found: usize, required: usize, context: &'static str },
    /// Asked outside the interval the data covers.
    OutsideValidity { data: &'static str },
    /// Output buffer shorter than the input.
    BufferTooSmall { needed: usize, found: usize },
    /// Input not in the expected form.
    Parse { what: &'static str },
    /// A linear system with no unique solution.
    SingularSystem { context: &'static str },
}

/// Navigation computation failure.
#[derive(Clone, Copy, Debug, PartialEq, Eq)]
pub enum NavigationError {
    /// Kernel error, propagated unchanged.
    Kernel(KernelError),
    /// Deviation table step outside `1..=180` degrees.
    InvalidStep { step: i32 },
    /// Two entries normalise to the same compass course.
    DuplicateCourse { course: i32 },
    /// Compass course is not a table node.
    CourseNotInTable { course: i32 },
    /// Deviation slice has the wrong length.
    UnexpectedTableLength { found: usize, expected: usize },
    /// Lines or circles do not intersect.
    Parallel { context: &'static str },
    /// Well-posed problem without a solution.
    NoSolution { context: &'static str },
    /// Current too strong to make good the requested track.
    CurrentTooStrong { drift: Speed, speed_through_water: Speed },
}

/// The character of a decimal digit.
pub open spec fn digit_char(d: int) -> char {
    (48 + d) as char
}

/// Decimal digits of a natural number, most significant first, as `Display`
/// writes them.
pub open spec fn digits(n: nat) -> Seq<char>
    decreases n,
{
    if n < 10 {
        seq![digit_char(n as int)]
    } else {
        digits(n / 10) + seq![digit_char((n % 10) as int)]
    }
}

/// An integer in decimal, a minus sign before a negative one.
pub open spec fn decimal(v: int) -> Seq<char> {
    if v < 0 {
        seq!['-'] + digits((-v) as nat)
    } else {
        digits(v as nat)
    }
}

/// A kernel failure in words.
pub open spec fn kernel_words(e: KernelError) -> Seq<char> {
    match e {
        KernelError::OutOfRange { parameter, value, min, max } => parameter@ + " "@ + decimal(
            value as int,
        ) + " is outside ["@ + decimal(min as int) + ", "@ + decimal(max as int) + "]"@,
        KernelError::Missing { what } => "missing "@ + what@ + ""@,
        KernelError::Indeterminate { quantity } => "undefined: "@ + quantity@ + ""@,
        KernelError::CapacityExceeded { context, needed, capacity } => "capacity exceeded: needed "@
            + decimal(needed as int) + ", capacity "@ + decimal(capacity as int) + ""@,
        KernelError::TimeReversed { by } => "time reversed by "@ + decimal(by.nanos as int)
            + " ns"@,
        KernelError::InsufficientData { found, required, context } => "insufficient data: found "@
            + decimal(found as int) + ", required "@ + decimal(required as int) + ""@,
        KernelError::OutsideValidity { data } => "outside the validity of "@ + data@ + ""@,
        KernelError::BufferTooSmall { needed, found } => "buffer too small: needed "@ + decimal(
            needed as int,
        ) + ", found "@ + decimal(found as int) + ""@,
        KernelError::Parse { what } => "not a valid "@ + what@ + ""@,
        KernelError::SingularSystem { context } => "singular system in "@ + context@ + ""@,
    }
}

/// A navigation failure in words; a kernel failure's own words.
pub open spec fn navigation_words(e: NavigationError) -> Seq<char> {
    match e {
        NavigationError::Kernel(k) => kernel_words(k),
        NavigationError::InvalidStep { step } => "invalid deviation table step: "@ + decimal(
            step as int,
        ) + ". Must be between 1 and 180 degrees"@,
        NavigationError::DuplicateCourse { course } =>
            "duplicate compass course in deviation table: "@ + decimal(course as int) + ""@,
        NavigationError::CourseNotInTable { course } => "compass course "@ + decimal(course as int)
            + " is not a node of this deviation table"@,
        NavigationError::UnexpectedTableLength { found, expected } => "expected "@ + decimal(
            expected as int,
        ) + " deviation values, got "@ + decimal(found as int) + ""@,
        NavigationError::Parallel { context } => ""@ + context@ + " never meet"@,
        NavigationError::NoSolution { context } => "no solution exists for "@ + context@ + ""@,
        NavigationError::CurrentTooStrong { drift, speed_through_water } => "current of "@
            + decimal(drift.millimetres_per_hour as int)
            + " mm/h is too strong for a speed through water of "@ + decimal(
            speed_through_water.millimetres_per_hour as int,
        ) + " mm/h"@,
    }
}

impl NavigationError {
    /// Inner kernel error, if any.
    pub fn kernel(&self) -> (r: Option<KernelError>)
        ensures
            match *self {
                NavigationError::Kernel(e) => r == Some(e),
                _ => r is None,
            },
    {
        match self {
            NavigationError::Kernel(e) => Some(*e),
            _ => None,
        }
    }

    /// Converts to a [`KernelError`]: a kernel error unchanged, any other
    /// failure as [`KernelError::Indeterminate`] naming it.
    pub fn into_kernel(self) -> (r: KernelError)
        ensures
            match self {
                NavigationError::Kernel(e) => r == e,
                _ => r is Indeterminate,
            },
    {
        match self {
            NavigationError::Kernel(e) => e,
            NavigationError::InvalidStep { .. } => KernelError::Indeterminate {
                quantity: "a deviation table with an invalid step",
            },
            NavigationError::DuplicateCourse { .. } => KernelError::Indeterminate {
                quantity: "a deviation table with a duplicate course",
            },
            NavigationError::CourseNotInTable { .. } => KernelError::Indeterminate {
                quantity: "a course that is not a node of the table",
            },
            NavigationError::UnexpectedTableLength { .. } => KernelError::Indeterminate {
                quantity: "a deviation table of unexpected length",
            },
            NavigationError::Parallel { context } => KernelError::Indeterminate {
                quantity: context,
            },
            NavigationError::NoSolution { context } => KernelError::Indeterminate {
                quantity: context,
            },
            NavigationError::CurrentTooStrong { .. } => KernelError::Indeterminate {
                quantity: "a track against a current too strong to stem",
            },
        }
    }

    /// The failure in words; a kernel error's own words.
    pub fn to_string(&self) -> (r: String)
        ensures
            r@ == navigation_words(*self),
    {
        match self {
            NavigationError::Kernel(e) => e.to_string(),
            NavigationError::InvalidStep { step } => with_number(
                "invalid deviation table step: ",
                *step as i128,
                ". Must be between 1 and 180 degrees",
            ),
            NavigationError::DuplicateCourse { course } => with_number(
                "duplicate compass course in deviation table: ",
                *course as i128,
                "",
            ),
            NavigationError::CourseNotInTable { course } => with_number(
                "compass course ",
                *course as i128,
                " is not a node of this deviation table",
            ),
            NavigationError::UnexpectedTableLength { found, expected } => with_two_numbers(
                "expected ",
                *expected as i128,
                " deviation values, got ",
                *found as i128,
                "",
            ),
            NavigationError::Parallel { context } => with_text("", context, " never meet"),
            NavigationError::NoSolution { context } => with_text("no solution exists for ", context, ""),
            NavigationError::CurrentTooStrong { drift, speed_through_water } => with_two_numbers(
                "current of ",
                drift.millimetres_per_hour as i128,
                " mm/h is too strong for a speed through water of ",
                speed_through_water.millimetres_per_hour as i128,
                " mm/h",
            ),
        }
    }
}

impl KernelError {
    /// The failure in words.
    pub fn to_string(&self) -> (r: String)
        ensures
            r@ == kernel_words(*self),
    {
        match self {
            KernelError::OutOfRange { parameter, value, min, max } => with_range(
                parameter,
                *value as i128,
                *min as i128,
                *max as i128,
            ),
            KernelError::Missing { what } => with_text("missing ", what, ""),
            KernelError::Indeterminate { quantity } => with_text("undefined: ", quantity, ""),
            KernelError::CapacityExceeded { context, needed, capacity } => with_two_numbers(
                "capacity exceeded: needed ",
                *needed as i128,
                ", capacity ",
                *capacity as i128,
                "",
            ),
            KernelError::TimeReversed { by } => with_number(
                "time reversed by ",
                by.nanos as i128,
                " ns",
            ),
            KernelError::InsufficientData { found, required, context } => with_two_numbers(
                "insufficient data: found ",
                *found as i128,
                ", required ",
                *required as i128,
                "",
            ),
            KernelError::OutsideValidity { data } => with_text("outside the validity of ", data, ""),
            KernelError::BufferTooSmall { needed, found } => with_two_numbers(
                "buffer too small: needed ",
                *needed as i128,
                ", found ",
                *found as i128,
                "",
            ),
            KernelError::Parse { what } => with_text("not a valid ", what, ""),
            KernelError::SingularSystem { context } => with_text("singular system in ", context, ""),
        }
    }
}

/// Text around a number: `format!` writes each `&str` as it is and the
/// number in decimal, as its `Display` does.
#[verifier::external_body]
fn with_number(before: &str, value: i128, after: &str) -> (r: String)
    ensures
        r@ == before@ + decimal(value as int) + after@,
{
    format!("{before}{value}{after}")
}

/// Text around two numbers: `format!` writes each `&str` as it is and each
/// number in decimal, as its `Display` does.
#[verifier::external_body]
fn with_two_numbers(before: &str, first: i128, between: &str, second: i128, after: &str) -> (r:
    String)
    ensures
        r@ == before@ + decimal(first as int) + between@ + decimal(second as int) + after@,
{
    format!("{before}{first}{between}{second}{after}")
}

/// Text around text: `format!` writes each `&str` as it is.
#[verifier::external_body]
fn with_text(before: &str, middle: &str, after: &str) -> (r: String)
    ensures
        r@ == before@ + middle@ + after@,
{
    format!("{before}{middle}{after}")
}

/// A value outside its range, in words: `format!` writes the `&str` as it is
/// and each number in decimal, as its `Display` does.
#[verifier::external_body]
fn with_range(parameter: &str, value: i128, min: i128, max: i128) -> (r: String)
    ensures
        r@ == parameter@ + " "@ + decimal(value as int) + " is outside ["@ + decimal(min as int)
            + ", "@ + decimal(max as int) + "]"@,
{
    format!("{parameter} {value} is outside [{min}, {max}]")
}

impl From<KernelError> for NavigationError {
    /// The kernel error, unchanged.
    fn from(error: KernelError) -> (r: NavigationError) {
        NavigationError::Kernel(error)
    }
}

impl vstd::std_specs::convert::FromSpecImpl<KernelError> for NavigationError {
    open spec fn obeys_from_spec() -> bool {
        true
    }

    open spec fn from_spec(error: KernelError) -> NavigationError {
        NavigationError::Kernel(error)
    }
}

} // verus!

verus! {

/// `Ok` if `min <= value <= max`, else [`KernelError::OutOfRange`] naming
/// `parameter`.
pub fn ensure_range(parameter: &'static str, value: i64, min: i64, max: i64) -> (r: Result<
    (),
    NavigationError,
>)
    ensures
        r is Ok <==> min <= value <= max,
        r matches Err(e) ==> e == NavigationError::Kernel(
            KernelError::OutOfRange { parameter, value, min, max },
        ),
{
    if value < min || value > max {
        Err(NavigationError::Kernel(KernelError::OutOfRange { parameter, value, min, max }))
    } else {
        Ok(())
    }
}

} // verus!
