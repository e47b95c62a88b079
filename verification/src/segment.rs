//! Segments, the atomic units of a workout: how one is read from a definition,
//! how the segments of an interval are timed, and how a workout overrides
//! single segments of a known interval.

use crate::duration::{duration_result, parse_duration};
use crate::error::{outcome, WorkoutError, WorkoutErrorView};
use crate::power::{parse_power, power_result, PowerTarget};
use crate::text::{
    after_first, before_first, chars_of, find_first, read_unsigned, string_of, trim, trimmed,
    unsigned_value,
};
use crate::types::{Duration, StartTime};
use vstd::prelude::*;
use vstd::slice::slice_subrange;

verus! {

/// A stretch of time with a power target that is flat, or ramps linearly
/// from `power_start` to `power_end`.
#[derive(Copy, Clone, Debug, PartialEq, Eq, Structural)]
pub struct Segment {
    pub duration: Duration,
    pub power_start: PowerTarget,
    pub power_end: PowerTarget,
    /// Offset from the start of the owning interval. Never read from a
    /// definition: the interval assigns it.
    pub start_time: StartTime,
}

/// A segment as a definition writes it.
#[derive(Debug, PartialEq, Eq)]
pub enum RawSegment {
    /// The shorthand `<duration>@<power>` for a flat segment.
    Literal(String),
    /// The explicit form, which can express a ramp. Each field holds the
    /// text of its value: a duration literal and two power literals.
    Record { duration: String, power_start: String, power_end: String },
}

/// A change to one segment of a known interval: the fields that are present
/// replace those of the segment at `index`.
#[derive(Copy, Clone, Debug, PartialEq, Eq, Structural)]
pub struct SegmentUpdate {
    pub index: usize,
    pub duration: Option<Duration>,
    pub power_start: Option<PowerTarget>,
    pub power_end: Option<PowerTarget>,
}

/// A flat segment that starts at offset zero.
pub open spec fn flat_segment(duration: Duration, power: PowerTarget) -> Segment {
    Segment { duration, power_start: power, power_end: power, start_time: StartTime(0) }
}

/// What reading the shorthand `s` gives: the text is split at its first `@`,
/// and both halves must be there once the white space around them is gone.
pub open spec fn segment_result(s: Seq<char>) -> Result<Segment, WorkoutErrorView> {
    match after_first(s, '@') {
        None => Err(WorkoutErrorView::IncompleteSegmentLiteral),
        Some(right) => {
            let duration_text = trimmed(before_first(s, '@'));
            let power_text = trimmed(right);
            if duration_text.len() == 0 || power_text.len() == 0 {
                Err(WorkoutErrorView::IncompleteSegmentLiteral)
            } else {
                match duration_result(duration_text) {
                    Err(e) => Err(e),
                    Ok(duration) => match power_result(power_text) {
                        Err(e) => Err(e),
                        Ok(power) => Ok(flat_segment(duration, power)),
                    },
                }
            }
        },
    }
}

/// What reading a segment written out gives: the duration is parsed first,
/// then the power at the start, then the power at the end.
pub open spec fn record_segment_result(
    duration: Seq<char>,
    power_start: Seq<char>,
    power_end: Seq<char>,
) -> Result<Segment, WorkoutErrorView> {
    match duration_result(duration) {
        Err(e) => Err(e),
        Ok(d) => match power_result(power_start) {
            Err(e) => Err(e),
            Ok(start) => match power_result(power_end) {
                Err(e) => Err(e),
                Ok(end) => Ok(
                    Segment {
                        duration: d,
                        power_start: start,
                        power_end: end,
                        start_time: StartTime(0),
                    },
                ),
            },
        },
    }
}

/// What resolving a segment of either form gives.
pub open spec fn raw_segment_result(raw: RawSegment) -> Result<Segment, WorkoutErrorView> {
    match raw {
        RawSegment::Literal(text) => segment_result(text@),
        RawSegment::Record { duration, power_start, power_end } => record_segment_result(
            duration@,
            power_start@,
            power_end@,
        ),
    }
}

/// The seconds that the segments last, one after the other.
pub open spec fn total_seconds(segments: Seq<Segment>) -> nat
    decreases segments.len(),
{
    if segments.len() == 0 {
        0
    } else {
        total_seconds(segments.drop_last()) + segments.last().duration.0 as nat
    }
}

/// Each segment starts where the segments before it end.
pub open spec fn is_timed(segments: Seq<Segment>) -> bool {
    forall|i: int|
        0 <= i < segments.len() ==> (#[trigger] segments[i]).start_time.0 == total_seconds(
            segments.take(i),
        )
}

/// The same segments, each starting where the segments before it end.
pub open spec fn with_start_times(segments: Seq<Segment>) -> Seq<Segment> {
    Seq::new(
        segments.len(),
        |i: int|
            Segment {
                start_time: StartTime(total_seconds(segments.take(i)) as u32),
                ..segments[i]
            },
    )
}

/// The half of an override that may be left empty.
pub open spec fn optional_duration(text: Seq<char>) -> Result<Option<Duration>, WorkoutErrorView> {
    if text.len() == 0 {
        Ok(None)
    } else {
        match duration_result(text) {
            Ok(d) => Ok(Some(d)),
            Err(e) => Err(e),
        }
    }
}

/// The half of an override that may be left empty.
pub open spec fn optional_power(text: Seq<char>) -> Result<Option<PowerTarget>, WorkoutErrorView> {
    if text.len() == 0 {
        Ok(None)
    } else {
        match power_result(text) {
            Ok(p) => Ok(Some(p)),
            Err(e) => Err(e),
        }
    }
}

/// What reading the override `<index>:<duration>@<power>` gives. The text
/// is split at its first `:` and what follows at its first `@`; white space
/// around the three parts is ignored; an empty duration or power leaves that
/// of the segment as it is.
pub open spec fn update_result(s: Seq<char>) -> Result<SegmentUpdate, WorkoutErrorView> {
    match after_first(s, ':') {
        None => Err(WorkoutErrorView::IncompleteSegmentLiteral),
        Some(change) => match after_first(change, '@') {
            None => Err(WorkoutErrorView::IncompleteSegmentLiteral),
            Some(right) => {
                let index_text = trimmed(before_first(s, ':'));
                let duration_text = trimmed(before_first(change, '@'));
                let power_text = trimmed(right);
                match unsigned_value(index_text) {
                    Some(index) if index <= usize::MAX => match optional_duration(duration_text) {
                        Err(e) => Err(e),
                        Ok(duration) => match optional_power(power_text) {
                            Err(e) => Err(e),
                            Ok(power) => Ok(
                                SegmentUpdate {
                                    index: index as usize,
                                    duration,
                                    power_start: power,
                                    power_end: power,
                                },
                            ),
                        },
                    },
                    _ => Err(WorkoutErrorView::MalformedSegmentIndex(index_text)),
                }
            },
        },
    }
}

/// The segment with the fields replaced that the update holds.
pub open spec fn updated_segment(segment: Segment, update: SegmentUpdate) -> Segment {
    Segment {
        duration: match update.duration {
            Some(d) => d,
            None => segment.duration,
        },
        power_start: match update.power_start {
            Some(p) => p,
            None => segment.power_start,
        },
        power_end: match update.power_end {
            Some(p) => p,
            None => segment.power_end,
        },
        start_time: segment.start_time,
    }
}

/// The segments after the updates were applied in order; the first update
/// that addresses no segment is the error.
pub open spec fn apply_updates(segments: Seq<Segment>, updates: Seq<SegmentUpdate>) -> Result<
    Seq<Segment>,
    WorkoutErrorView,
>
    decreases updates.len(),
{
    if updates.len() == 0 {
        Ok(segments)
    } else {
        match apply_updates(segments, updates.drop_last()) {
            Err(e) => Err(e),
            Ok(changed) => {
                let update = updates.last();
                if update.index < changed.len() {
                    Ok(
                        changed.update(
                            update.index as int,
                            updated_segment(changed[update.index as int], update),
                        ),
                    )
                } else {
                    Err(
                        WorkoutErrorView::SegmentIndexOutOfRange {
                            index: update.index,
                            len: changed.len() as usize,
                        },
                    )
                }
            },
        }
    }
}

/// Updates change no count: the result has as many segments as there were.
pub proof fn lemma_apply_updates_len(segments: Seq<Segment>, updates: Seq<SegmentUpdate>)
    ensures
        apply_updates(segments, updates) matches Ok(changed) ==> changed.len() == segments.len(),
    decreases updates.len(),
{
    if updates.len() > 0 {
        lemma_apply_updates_len(segments, updates.drop_last());
    }
}

/// Splits `s` at its first `c`.
fn split_first(s: &[char], c: char) -> (r: Option<(&[char], &[char])>)
    ensures
        match r {
            Some((left, right)) => left@ == before_first(s@, c) && after_first(s@, c) == Some(
                right@,
            ),
            None => after_first(s@, c) is None,
        },
{
    let n = s.len();
    match find_first(s, c) {
        Some(i) => {
            proof {
                assert(s@.subrange(0, i as int) =~= s@.take(i as int));
                assert(s@.subrange(i + 1, n as int) =~= s@.skip(i + 1));
            }
            Some((slice_subrange(s, 0, i), slice_subrange(s, i + 1, n)))
        },
        None => None,
    }
}

/// Parses the characters of a segment shorthand.
pub fn parse_segment(s: &[char]) -> (r: Result<Segment, WorkoutError>)
    ensures
        outcome(r) == segment_result(s@),
{
    match split_first(s, '@') {
        None => Err(WorkoutError::IncompleteSegmentLiteral),
        Some((left, right)) => {
            let duration_text = trim(left);
            let power_text = trim(right);
            if duration_text.len() == 0 || power_text.len() == 0 {
                return Err(WorkoutError::IncompleteSegmentLiteral);
            }
            let duration = match parse_duration(duration_text) {
                Ok(d) => d,
                Err(e) => {
                    return Err(e);
                },
            };
            let power = match parse_power(power_text) {
                Ok(p) => p,
                Err(e) => {
                    return Err(e);
                },
            };
            Ok(
                Segment {
                    duration,
                    power_start: power,
                    power_end: power,
                    start_time: StartTime(0),
                },
            )
        },
    }
}

/// Reads a segment written out, field by field.
pub fn parse_record_segment(duration: &str, power_start: &str, power_end: &str) -> (r: Result<
    Segment,
    WorkoutError,
>)
    ensures
        outcome(r) == record_segment_result(duration@, power_start@, power_end@),
{
    let d = match Duration::parse(duration) {
        Ok(d) => d,
        Err(e) => {
            return Err(e);
        },
    };
    let start = match PowerTarget::parse(power_start) {
        Ok(p) => p,
        Err(e) => {
            return Err(e);
        },
    };
    let end = match PowerTarget::parse(power_end) {
        Ok(p) => p,
        Err(e) => {
            return Err(e);
        },
    };
    Ok(Segment { duration: d, power_start: start, power_end: end, start_time: StartTime(0) })
}

impl Segment {
    /// Reads the shorthand `<duration>@<power>`, as in `20m@.85`.
    pub fn parse(literal: &str) -> (r: Result<Segment, WorkoutError>)
        ensures
            outcome(r) == segment_result(literal@),
    {
        let chars = chars_of(literal);
        parse_segment(chars.as_slice())
    }

    /// Resolves a segment of a definition, of either form.
    pub fn from_raw(raw: &RawSegment) -> (r: Result<Segment, WorkoutError>)
        ensures
            outcome(r) == raw_segment_result(*raw),
    {
        match raw {
            RawSegment::Literal(text) => Segment::parse(text.as_str()),
            RawSegment::Record { duration, power_start, power_end } => parse_record_segment(
                duration.as_str(),
                power_start.as_str(),
                power_end.as_str(),
            ),
        }
    }
}

/// Reads the position of a segment override.
fn parse_index(text: &[char]) -> (r: Option<usize>)
    ensures
        match r {
            Some(i) => unsigned_value(text@) == Some(i as nat),
            None => match unsigned_value(text@) {
                Some(v) => v > usize::MAX,
                None => true,
            },
        },
{
    match read_unsigned(text) {
        Some(v) => {
            if v > usize::MAX as u64 {
                None
            } else {
                Some(v as usize)
            }
        },
        None => None,
    }
}

impl SegmentUpdate {
    /// Reads the override `<index>:<duration>@<power>`, as in `0:30m@` or
    /// `2:@1.5`.
    pub fn parse(literal: &str) -> (r: Result<SegmentUpdate, WorkoutError>)
        ensures
            outcome(r) == update_result(literal@),
    {
        let chars = chars_of(literal);
        let s = chars.as_slice();
        let (left, change) = match split_first(s, ':') {
            Some(halves) => halves,
            None => {
                return Err(WorkoutError::IncompleteSegmentLiteral);
            },
        };
        let (middle, right) = match split_first(change, '@') {
            Some(halves) => halves,
            None => {
                return Err(WorkoutError::IncompleteSegmentLiteral);
            },
        };
        let index_text = trim(left);
        let duration_text = trim(middle);
        let power_text = trim(right);
        let index = match parse_index(index_text) {
            Some(i) => i,
            None => {
                return Err(WorkoutError::MalformedSegmentIndex(string_of(index_text)));
            },
        };
        let duration = if duration_text.len() == 0 {
            None
        } else {
            match parse_duration(duration_text) {
                Ok(d) => Some(d),
                Err(e) => {
                    return Err(e);
                },
            }
        };
        let power = if power_text.len() == 0 {
            None
        } else {
            match parse_power(power_text) {
                Ok(p) => Some(p),
                Err(e) => {
                    return Err(e);
                },
            }
        };
        Ok(SegmentUpdate { index, duration, power_start: power, power_end: power })
    }
}

} // verus!
