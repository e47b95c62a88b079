//! The ways in which a workout definition can be rejected.

use crate::types::Duration;
use vstd::prelude::*;

verus! {

/// Why a power literal names no power target.
#[derive(Copy, Clone, Debug, PartialEq, Eq, Structural)]
pub enum PowerFault {
    /// Neither a whole number of watts nor a decimal fraction of FTP.
    NotNumeric,
    /// A well-formed number with a minus sign in front.
    Negative,
    /// A non-negative decimal with more digits than a `Decimal` holds.
    OutOfRange,
}

/// Which declared duration disagreed with its parts.
#[derive(Copy, Clone, Debug, PartialEq, Eq, Structural)]
pub enum Scope {
    /// An interval against its segments and repeat count.
    Interval,
    /// A workout against its resolved intervals.
    Workout,
}

/// Why one entry of a workout definition was rejected.
#[derive(Debug, PartialEq, Eq)]
pub enum WorkoutError {
    /// A duration literal breaks the grammar; the payload is the offending
    /// fragment.
    MalformedDuration(String),
    /// A duration, given or computed, exceeds what a `Duration` holds.
    DurationOverflow,
    /// A power literal names no power target.
    MalformedPowerTarget(PowerFault),
    /// A segment literal lacks its `@`, or one of the halves around it.
    IncompleteSegmentLiteral,
    /// The position in a segment override is not an unsigned number that fits
    /// a `usize`; the payload is the text found in its place.
    MalformedSegmentIndex(String),
    /// A declared duration differs from the one computed from the parts.
    DurationMismatch { scope: Scope, declared: Duration, computed: Duration },
    /// A workout refers to an interval that the registry does not hold.
    UnknownInterval(String),
    /// A segment override addresses a position past the template's segments.
    SegmentIndexOutOfRange { index: usize, len: usize },
    /// A later definition reuses a name that the registry already holds.
    DuplicateName(String),
}

/// A `WorkoutError` with its texts as character sequences.
pub enum WorkoutErrorView {
    MalformedDuration(Seq<char>),
    DurationOverflow,
    MalformedPowerTarget(PowerFault),
    IncompleteSegmentLiteral,
    MalformedSegmentIndex(Seq<char>),
    DurationMismatch { scope: Scope, declared: Duration, computed: Duration },
    UnknownInterval(Seq<char>),
    SegmentIndexOutOfRange { index: usize, len: usize },
    DuplicateName(Seq<char>),
}

impl View for WorkoutError {
    type V = WorkoutErrorView;

    open spec fn view(&self) -> WorkoutErrorView {
        match *self {
            WorkoutError::MalformedDuration(fragment) => WorkoutErrorView::MalformedDuration(
                fragment@,
            ),
            WorkoutError::DurationOverflow => WorkoutErrorView::DurationOverflow,
            WorkoutError::MalformedPowerTarget(fault) => WorkoutErrorView::MalformedPowerTarget(
                fault,
            ),
            WorkoutError::IncompleteSegmentLiteral => WorkoutErrorView::IncompleteSegmentLiteral,
            WorkoutError::MalformedSegmentIndex(text) => WorkoutErrorView::MalformedSegmentIndex(
                text@,
            ),
            WorkoutError::DurationMismatch { scope, declared, computed } => {
                WorkoutErrorView::DurationMismatch { scope, declared, computed }
            },
            WorkoutError::UnknownInterval(name) => WorkoutErrorView::UnknownInterval(name@),
            WorkoutError::SegmentIndexOutOfRange { index, len } => {
                WorkoutErrorView::SegmentIndexOutOfRange { index, len }
            },
            WorkoutError::DuplicateName(name) => WorkoutErrorView::DuplicateName(name@),
        }
    }
}

/// The outcome of a step with the texts of its error as character
/// sequences.
pub open spec fn outcome<T>(r: Result<T, WorkoutError>) -> Result<T, WorkoutErrorView> {
    match r {
        Ok(value) => Ok(value),
        Err(e) => Err(e@),
    }
}

/// The outcome of a step with both its value and the texts of its error as
/// mathematical values.
pub open spec fn outcome_view<T: View>(r: Result<T, WorkoutError>) -> Result<
    T::V,
    WorkoutErrorView,
> {
    match r {
        Ok(value) => Ok(value@),
        Err(e) => Err(e@),
    }
}

} // verus!
