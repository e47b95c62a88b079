//! Interval templates: named or anonymous sequences of segments with a
//! declared duration. A definition is read into a candidate, the candidate is
//! checked against its segments, and a workout's references to intervals are
//! resolved against the registry of those that passed.

use crate::duration::duration_result;
use crate::error::{outcome, outcome_view, Scope, WorkoutError, WorkoutErrorView};
use crate::segment::{
    is_timed, raw_segment_result, total_seconds, with_start_times, RawSegment, Segment,
};
use crate::types::{repeat_factor, Duration, Quantity, StartTime};
use vstd::prelude::*;

verus! {

/// An interval: its segments, performed `repeat` times (once where
/// `repeat` is absent), last `duration`. Every interval that a definition
/// resolves to is consistent in this sense; see
/// `IntervalTemplateView::is_consistent`.
#[derive(Debug, PartialEq, Eq)]
pub struct IntervalTemplate {
    /// Absent for an interval that a workout wrote inline.
    pub name: Option<String>,
    pub description: Option<String>,
    pub duration: Duration,
    pub segments: Vec<Segment>,
    pub lap_each_segment: bool,
    pub repeat: Option<Quantity>,
}

/// An `IntervalTemplate` as a mathematical value.
pub struct IntervalTemplateView {
    pub name: Option<Seq<char>>,
    pub description: Option<Seq<char>>,
    pub duration: Duration,
    pub segments: Seq<Segment>,
    pub lap_each_segment: bool,
    pub repeat: Option<Quantity>,
}

/// An optional text as an optional character sequence.
pub open spec fn text_of(text: Option<String>) -> Option<Seq<char>> {
    match text {
        Some(t) => Some(t@),
        None => None,
    }
}

impl View for IntervalTemplate {
    type V = IntervalTemplateView;

    open spec fn view(&self) -> IntervalTemplateView {
        IntervalTemplateView {
            name: text_of(self.name),
            description: text_of(self.description),
            duration: self.duration,
            segments: self.segments@,
            lap_each_segment: self.lap_each_segment,
            repeat: self.repeat,
        }
    }
}

impl IntervalTemplateView {
    /// The declared duration is that of the segments times the repeat count,
    /// and each segment starts where the segments before it end.
    pub open spec fn is_consistent(self) -> bool {
        &&& self.duration.0 == total_seconds(self.segments) * repeat_factor(self.repeat)
        &&& is_timed(self.segments)
    }
}

fn clone_text(text: &Option<String>) -> (copy: Option<String>)
    ensures
        text_of(copy) == text_of(*text),
{
    match text {
        Some(t) => Some(t.clone()),
        None => None,
    }
}

fn clone_segments(segments: &Vec<Segment>) -> (copy: Vec<Segment>)
    ensures
        copy@ == segments@,
{
    let mut copy: Vec<Segment> = Vec::new();
    let mut i: usize = 0;
    while i < segments.len()
        invariant
            0 <= i <= segments@.len(),
            copy@ == segments@.take(i as int),
        decreases segments@.len() - i,
    {
        copy.push(segments[i]);
        i += 1;
        assert(segments@.take(i as int) =~= segments@.take(i - 1).push(segments@[i - 1]));
    }
    assert(segments@.take(segments@.len() as int) =~= segments@);
    copy
}

impl Clone for IntervalTemplate {
    fn clone(&self) -> (copy: IntervalTemplate)
        ensures
            copy@ == self@,
    {
        IntervalTemplate {
            name: clone_text(&self.name),
            description: clone_text(&self.description),
            duration: self.duration,
            segments: clone_segments(&self.segments),
            lap_each_segment: self.lap_each_segment,
            repeat: self.repeat,
        }
    }
}

/// An interval as a definition writes it, before anything is parsed.
#[derive(Debug, PartialEq, Eq)]
pub struct RawIntervalTemplate {
    pub name: String,
    pub description: Option<String>,
    pub duration: String,
    pub segments: Vec<RawSegment>,
    pub lap_each_segment: bool,
    pub repeat: Option<Quantity>,
}

/// A candidate interval: parsed, not yet checked against its segments.
#[derive(Debug, PartialEq, Eq)]
pub struct ShadowIntervalTemplate {
    pub name: String,
    pub description: Option<String>,
    pub duration: Duration,
    pub segments: Vec<Segment>,
    pub lap_each_segment: bool,
    pub repeat: Option<Quantity>,
}

/// A `ShadowIntervalTemplate` as a mathematical value.
pub struct ShadowIntervalTemplateView {
    pub name: Seq<char>,
    pub description: Option<Seq<char>>,
    pub duration: Duration,
    pub segments: Seq<Segment>,
    pub lap_each_segment: bool,
    pub repeat: Option<Quantity>,
}

impl View for ShadowIntervalTemplate {
    type V = ShadowIntervalTemplateView;

    open spec fn view(&self) -> ShadowIntervalTemplateView {
        ShadowIntervalTemplateView {
            name: self.name@,
            description: text_of(self.description),
            duration: self.duration,
            segments: self.segments@,
            lap_each_segment: self.lap_each_segment,
            repeat: self.repeat,
        }
    }
}

/// The segments that a list of definitions resolves to: the first one that
/// fails, in the order of the list, is the error.
pub open spec fn segments_result(raws: Seq<RawSegment>) -> Result<Seq<Segment>, WorkoutErrorView>
    decreases raws.len(),
{
    if raws.len() == 0 {
        Ok(Seq::empty())
    } else {
        match segments_result(raws.drop_last()) {
            Err(e) => Err(e),
            Ok(segments) => match raw_segment_result(raws.last()) {
                Err(e) => Err(e),
                Ok(segment) => Ok(segments.push(segment)),
            },
        }
    }
}

/// What reading an interval definition gives: its duration is parsed first,
/// then its segments in order.
pub open spec fn shadow_interval_result(raw: RawIntervalTemplate) -> Result<
    ShadowIntervalTemplateView,
    WorkoutErrorView,
> {
    match duration_result(raw.duration@) {
        Err(e) => Err(e),
        Ok(duration) => match segments_result(raw.segments@) {
            Err(e) => Err(e),
            Ok(segments) => Ok(
                ShadowIntervalTemplateView {
                    name: raw.name@,
                    description: text_of(raw.description),
                    duration,
                    segments,
                    lap_each_segment: raw.lap_each_segment,
                    repeat: raw.repeat,
                },
            ),
        },
    }
}

/// The seconds that the segments last, repeated.
pub open spec fn repeated_seconds(segments: Seq<Segment>, repeat: Option<Quantity>) -> nat {
    total_seconds(segments) * repeat_factor(repeat)
}

/// The verdict on a declared duration: it must be that of the segments
/// times the repeat count, and both of these must be durations.
pub open spec fn duration_verdict(
    declared: Duration,
    segments: Seq<Segment>,
    repeat: Option<Quantity>,
) -> Result<(), WorkoutErrorView> {
    if total_seconds(segments) > u32::MAX || repeated_seconds(segments, repeat) > u32::MAX {
        Err(WorkoutErrorView::DurationOverflow)
    } else if declared.0 != repeated_seconds(segments, repeat) {
        Err(
            WorkoutErrorView::DurationMismatch {
                scope: Scope::Interval,
                declared,
                computed: Duration(repeated_seconds(segments, repeat) as u32),
            },
        )
    } else {
        Ok(())
    }
}

impl ShadowIntervalTemplateView {
    /// The seconds that the segments last, repeated.
    pub open spec fn computed_seconds(self) -> nat {
        repeated_seconds(self.segments, self.repeat)
    }

    /// The verdict on a candidate: its declared duration must be that of its
    /// segments times the repeat count, and both must be durations.
    pub open spec fn validation(self) -> Result<(), WorkoutErrorView> {
        duration_verdict(self.duration, self.segments, self.repeat)
    }

    /// The interval that a candidate becomes.
    pub open spec fn built(self) -> IntervalTemplateView {
        IntervalTemplateView {
            name: Some(self.name),
            description: self.description,
            duration: self.duration,
            segments: with_start_times(self.segments),
            lap_each_segment: self.lap_each_segment,
            repeat: self.repeat,
        }
    }
}

/// A prefix of the segments lasts no longer than all of them.
pub proof fn lemma_total_seconds_prefix(segments: Seq<Segment>, k: int)
    requires
        0 <= k <= segments.len(),
    ensures
        total_seconds(segments.take(k)) <= total_seconds(segments),
    decreases segments.len(),
{
    if k == segments.len() {
        assert(segments.take(k) =~= segments);
    } else {
        assert(segments.drop_last().take(k) =~= segments.take(k));
        lemma_total_seconds_prefix(segments.drop_last(), k);
    }
}

/// The total depends on the durations alone.
pub proof fn lemma_total_seconds_by_duration(a: Seq<Segment>, b: Seq<Segment>)
    requires
        a.len() == b.len(),
        forall|i: int| 0 <= i < a.len() ==> a[i].duration == b[i].duration,
    ensures
        total_seconds(a) == total_seconds(b),
    decreases a.len(),
{
    if a.len() > 0 {
        lemma_total_seconds_by_duration(a.drop_last(), b.drop_last());
    }
}

/// Segments that were given their start times are timed, and last as long
/// as before.
pub proof fn lemma_with_start_times(segments: Seq<Segment>)
    requires
        total_seconds(segments) <= u32::MAX,
    ensures
        with_start_times(segments).len() == segments.len(),
        total_seconds(with_start_times(segments)) == total_seconds(segments),
        is_timed(with_start_times(segments)),
{
    let timed = with_start_times(segments);
    lemma_total_seconds_by_duration(timed, segments);
    assert forall|i: int| 0 <= i < timed.len() implies (#[trigger] timed[i]).start_time.0
        == total_seconds(timed.take(i)) by {
        lemma_total_seconds_prefix(segments, i);
        lemma_total_seconds_by_duration(timed.take(i), segments.take(i));
    }
}

/// Segments that pass the verdict on a declared duration make, once they
/// are timed, a consistent interval of that duration.
pub proof fn lemma_verdict_gives_consistent(interval: IntervalTemplateView, segments: Seq<Segment>)
    requires
        duration_verdict(interval.duration, segments, interval.repeat) is Ok,
        interval.segments == with_start_times(segments),
    ensures
        interval.is_consistent(),
{
    lemma_with_start_times(segments);
}

/// A candidate that passes validation becomes a consistent interval.
pub proof fn lemma_valid_candidate_builds_consistent(candidate: ShadowIntervalTemplateView)
    requires
        candidate.validation() is Ok,
    ensures
        candidate.built().is_consistent(),
{
    lemma_with_start_times(candidate.segments);
}

/// The seconds that the segments last, if that is a duration.
pub fn sum_seconds(segments: &Vec<Segment>) -> (r: Option<u32>)
    ensures
        match r {
            Some(total) => total == total_seconds(segments@),
            None => total_seconds(segments@) > u32::MAX,
        },
{
    let mut total: u32 = 0;
    let mut i: usize = 0;
    proof {
        assert(segments@.take(0) =~= Seq::<Segment>::empty());
    }
    while i < segments.len()
        invariant
            0 <= i <= segments@.len(),
            total == total_seconds(segments@.take(i as int)),
        decreases segments@.len() - i,
    {
        proof {
            assert(segments@.take(i + 1).drop_last() =~= segments@.take(i as int));
            lemma_total_seconds_prefix(segments@, i + 1);
        }
        match total.checked_add(segments[i].duration.0) {
            Some(t) => {
                total = t;
            },
            None => {
                return None;
            },
        }
        i += 1;
    }
    proof {
        assert(segments@.take(segments@.len() as int) =~= segments@);
    }
    Some(total)
}

/// Gives each segment the start time at which the segments before it end;
/// `None` where the segments last longer than a duration holds.
pub fn assign_start_times(segments: Vec<Segment>) -> (r: Option<Vec<Segment>>)
    ensures
        match r {
            Some(timed) => total_seconds(segments@) <= u32::MAX && timed@ == with_start_times(
                segments@,
            ),
            None => total_seconds(segments@) > u32::MAX,
        },
{
    let mut timed: Vec<Segment> = Vec::new();
    let mut elapsed: u32 = 0;
    let mut i: usize = 0;
    proof {
        assert(segments@.take(0) =~= Seq::<Segment>::empty());
    }
    while i < segments.len()
        invariant
            0 <= i <= segments@.len(),
            elapsed == total_seconds(segments@.take(i as int)),
            timed@.len() == i,
            forall|j: int| 0 <= j < i ==> #[trigger] timed@[j] == with_start_times(segments@)[j],
        decreases segments@.len() - i,
    {
        let segment = segments[i];
        proof {
            assert(segments@.take(i + 1).drop_last() =~= segments@.take(i as int));
            lemma_total_seconds_prefix(segments@, i + 1);
        }
        timed.push(Segment { start_time: StartTime(elapsed), ..segment });
        match elapsed.checked_add(segment.duration.0) {
            Some(t) => {
                elapsed = t;
            },
            None => {
                return None;
            },
        }
        i += 1;
    }
    proof {
        assert(segments@.take(segments@.len() as int) =~= segments@);
        assert(timed@ =~= with_start_times(segments@));
    }
    Some(timed)
}

/// Checks a declared duration against the segments and the repeat count.
pub fn check_duration(declared: Duration, segments: &Vec<Segment>, repeat: Option<Quantity>) -> (r:
    Result<(), WorkoutError>)
    ensures
        outcome(r) == duration_verdict(declared, segments@, repeat),
{
    let once = match sum_seconds(segments) {
        Some(total) => total,
        None => {
            return Err(WorkoutError::DurationOverflow);
        },
    };
    let times: u32 = match repeat {
        Some(q) => q.0,
        None => 1,
    };
    assert(once * times == repeated_seconds(segments@, repeat));
    match once.checked_mul(times) {
        None => Err(WorkoutError::DurationOverflow),
        Some(computed) => {
            if declared.0 != computed {
                Err(
                    WorkoutError::DurationMismatch {
                        scope: Scope::Interval,
                        declared,
                        computed: Duration(computed),
                    },
                )
            } else {
                Ok(())
            }
        },
    }
}

impl ShadowIntervalTemplate {
    /// Reads an interval definition.
    pub fn from_raw(raw: &RawIntervalTemplate) -> (r: Result<ShadowIntervalTemplate, WorkoutError>)
        ensures
            outcome_view(r) == shadow_interval_result(*raw),
    {
        let duration = match Duration::parse(raw.duration.as_str()) {
            Ok(d) => d,
            Err(e) => {
                return Err(e);
            },
        };
        let mut segments: Vec<Segment> = Vec::new();
        let mut i: usize = 0;
        proof {
            assert(raw.segments@.take(0) =~= Seq::<RawSegment>::empty());
        }
        while i < raw.segments.len()
            invariant
                0 <= i <= raw.segments@.len(),
                duration_result(raw.duration@) == Ok::<Duration, WorkoutErrorView>(duration),
                segments_result(raw.segments@.take(i as int)) == Ok::<
                    Seq<Segment>,
                    WorkoutErrorView,
                >(segments@),
            decreases raw.segments@.len() - i,
        {
            proof {
                assert(raw.segments@.take(i + 1).drop_last() =~= raw.segments@.take(i as int));
            }
            match Segment::from_raw(&raw.segments[i]) {
                Ok(segment) => {
                    segments.push(segment);
                },
                Err(e) => {
                    proof {
                        let tried = raw.segments@.take(i + 1);
                        assert(tried.last() == raw.segments@[i as int]);
                        assert(segments_result(tried) == Err::<Seq<Segment>, WorkoutErrorView>(
                            e@,
                        ));
                        lemma_segments_result_fails(raw.segments@, i + 1);
                    }
                    return Err(e);
                },
            }
            i += 1;
        }
        proof {
            assert(raw.segments@.take(raw.segments@.len() as int) =~= raw.segments@);
        }
        Ok(
            ShadowIntervalTemplate {
                name: raw.name.clone(),
                description: clone_text(&raw.description),
                duration,
                segments,
                lap_each_segment: raw.lap_each_segment,
                repeat: raw.repeat,
            },
        )
    }

    /// Checks the declared duration against the segments and the repeat
    /// count.
    pub fn validate(&self) -> (r: Result<(), WorkoutError>)
        ensures
            outcome(r) == self@.validation(),
    {
        check_duration(self.duration, &self.segments, self.repeat)
    }

    /// Turns the candidate into an interval, with its segments timed. A
    /// candidate that passed `validate` gives a consistent interval.
    pub fn build(self) -> (interval: IntervalTemplate)
        requires
            total_seconds(self.segments@) <= u32::MAX,
        ensures
            interval@ == self@.built(),
            self@.validation() is Ok ==> interval@.is_consistent(),
    {
        proof {
            lemma_with_start_times(self.segments@);
        }
        let segments = match assign_start_times(self.segments) {
            Some(timed) => timed,
            None => Vec::new(),
        };
        IntervalTemplate {
            name: Some(self.name),
            description: self.description,
            duration: self.duration,
            segments,
            lap_each_segment: self.lap_each_segment,
            repeat: self.repeat,
        }
    }
}

/// Once a prefix of the definitions fails, the whole list fails the same
/// way.
pub proof fn lemma_segments_result_fails(raws: Seq<RawSegment>, k: int)
    requires
        0 <= k <= raws.len(),
        segments_result(raws.take(k)) is Err,
    ensures
        segments_result(raws) == segments_result(raws.take(k)),
    decreases raws.len(),
{
    if k == raws.len() {
        assert(raws.take(k) =~= raws);
    } else {
        assert(raws.drop_last().take(k) =~= raws.take(k));
        lemma_segments_result_fails(raws.drop_last(), k);
    }
}

} // verus!
