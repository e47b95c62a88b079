//! The references to intervals that a workout lists: the name of a known
//! interval, an interval written inline, or a known interval with some of
//! its fields overridden. A reference is read from the definition first and
//! resolved against the registry of known intervals afterwards.

use crate::duration::duration_result;
use crate::error::{outcome_view, WorkoutError, WorkoutErrorView};
use crate::interval::{
    assign_start_times, check_duration, duration_verdict, lemma_verdict_gives_consistent,
    IntervalTemplate, IntervalTemplateView,
};
use crate::registry::Registry;
use crate::segment::{
    apply_updates, lemma_apply_updates_len, parse_record_segment, parse_segment,
    record_segment_result, segment_result, total_seconds, update_result, with_start_times,
    Segment, SegmentUpdate,
};
use crate::text::{after_first, chars_of, find_first, string_of, trim, trimmed};
use crate::types::{repeat_factor, Duration, Quantity};
use vstd::prelude::*;

verus! {

/// A reference as a workout definition writes it.
#[derive(Debug, PartialEq, Eq)]
#[allow(inconsistent_fields)]
pub enum RawIntervalReference {
    /// The name of a known interval or, where the text holds an `@`, the
    /// shorthand of a single segment.
    Text(String),
    /// A single segment written out, which may ramp and repeat. The first
    /// three fields hold the text of their values: a duration literal and
    /// two power literals.
    Record {
        duration: String,
        power_start: String,
        power_end: String,
        repeat: Option<Quantity>,
        lap_each_segment: Option<bool>,
    },
    /// A known interval with overrides; each of `segments` has the form
    /// `<index>:<duration>@<power>`.
    Named {
        name: String,
        duration: Option<String>,
        lap_each_segment: Option<bool>,
        repeat: Option<Quantity>,
        segments: Option<Vec<String>>,
    },
}

/// What a workout overrides of the known interval `name`.
#[derive(Debug, PartialEq, Eq)]
pub struct ValidateIntervalTemplate {
    pub name: String,
    pub duration: Option<Duration>,
    pub segments: Option<Vec<SegmentUpdate>>,
    pub lap_each_segment: Option<bool>,
    pub repeat: Option<Quantity>,
}

/// A `ValidateIntervalTemplate` as a mathematical value.
pub struct ValidateIntervalTemplateView {
    pub name: Seq<char>,
    pub duration: Option<Duration>,
    pub segments: Option<Seq<SegmentUpdate>>,
    pub lap_each_segment: Option<bool>,
    pub repeat: Option<Quantity>,
}

impl View for ValidateIntervalTemplate {
    type V = ValidateIntervalTemplateView;

    open spec fn view(&self) -> ValidateIntervalTemplateView {
        ValidateIntervalTemplateView {
            name: self.name@,
            duration: self.duration,
            segments: match self.segments {
                Some(updates) => Some(updates@),
                None => None,
            },
            lap_each_segment: self.lap_each_segment,
            repeat: self.repeat,
        }
    }
}

/// A reference that was read: what is left to do is to look names up.
#[derive(Debug, PartialEq, Eq)]
pub enum IntervalTemplateType {
    /// The name of an interval that the registry must hold.
    Validate(String),
    /// An interval that the registry must hold, with fields to replace.
    ValidateAndUpdate(ValidateIntervalTemplate),
    /// An interval that needs no registry.
    IntervalTemplate(IntervalTemplate),
}

/// An `IntervalTemplateType` as a mathematical value.
pub enum IntervalTemplateTypeView {
    Validate(Seq<char>),
    ValidateAndUpdate(ValidateIntervalTemplateView),
    IntervalTemplate(IntervalTemplateView),
}

impl View for IntervalTemplateType {
    type V = IntervalTemplateTypeView;

    open spec fn view(&self) -> IntervalTemplateTypeView {
        match *self {
            IntervalTemplateType::Validate(name) => IntervalTemplateTypeView::Validate(name@),
            IntervalTemplateType::ValidateAndUpdate(overrides) => {
                IntervalTemplateTypeView::ValidateAndUpdate(overrides@)
            },
            IntervalTemplateType::IntervalTemplate(interval) => {
                IntervalTemplateTypeView::IntervalTemplate(interval@)
            },
        }
    }
}

/// The anonymous interval of one segment.
pub open spec fn single_segment_interval(
    segment: Segment,
    duration: Duration,
    lap_each_segment: bool,
    repeat: Option<Quantity>,
) -> IntervalTemplateView {
    IntervalTemplateView {
        name: None,
        description: None,
        duration,
        segments: seq![segment],
        lap_each_segment,
        repeat,
    }
}

/// The overrides that a list of texts holds: the first text that fails, in
/// the order of the list, is the error.
pub open spec fn updates_result(texts: Seq<String>) -> Result<Seq<SegmentUpdate>, WorkoutErrorView>
    decreases texts.len(),
{
    if texts.len() == 0 {
        Ok(Seq::empty())
    } else {
        match updates_result(texts.drop_last()) {
            Err(e) => Err(e),
            Ok(updates) => match update_result(texts.last()@) {
                Err(e) => Err(e),
                Ok(update) => Ok(updates.push(update)),
            },
        }
    }
}

/// What reading the reference `text` gives: without an `@` it is a name,
/// with the white space around it removed; with one it is the shorthand of
/// a segment, which makes an interval of its own.
pub open spec fn text_reference_result(text: Seq<char>) -> Result<
    IntervalTemplateTypeView,
    WorkoutErrorView,
> {
    if after_first(text, '@') is None {
        Ok(IntervalTemplateTypeView::Validate(trimmed(text)))
    } else {
        match segment_result(text) {
            Err(e) => Err(e),
            Ok(segment) => Ok(
                IntervalTemplateTypeView::IntervalTemplate(
                    single_segment_interval(segment, segment.duration, false, None),
                ),
            ),
        }
    }
}

/// What reading a segment written out gives: an interval of that segment,
/// which lasts the segment's duration times the repeat count.
pub open spec fn record_reference_result(
    duration: Seq<char>,
    power_start: Seq<char>,
    power_end: Seq<char>,
    repeat: Option<Quantity>,
    lap_each_segment: Option<bool>,
) -> Result<IntervalTemplateTypeView, WorkoutErrorView> {
    match record_segment_result(duration, power_start, power_end) {
        Err(e) => Err(e),
        Ok(segment) => {
            if segment.duration.0 * repeat_factor(repeat) > u32::MAX {
                Err(WorkoutErrorView::DurationOverflow)
            } else {
                Ok(
                    IntervalTemplateTypeView::IntervalTemplate(
                        single_segment_interval(
                            segment,
                            Duration((segment.duration.0 * repeat_factor(repeat)) as u32),
                            match lap_each_segment {
                                Some(lap) => lap,
                                None => false,
                            },
                            repeat,
                        ),
                    ),
                )
            }
        },
    }
}

/// What reading a reference with overrides gives: the duration is parsed
/// first, then the segment overrides in order. An empty list of overrides
/// counts as none.
pub open spec fn named_reference_result(
    name: Seq<char>,
    duration: Option<String>,
    lap_each_segment: Option<bool>,
    repeat: Option<Quantity>,
    segments: Option<Vec<String>>,
) -> Result<IntervalTemplateTypeView, WorkoutErrorView> {
    let parsed = match duration {
        Some(text) => match duration_result(text@) {
            Ok(d) => Ok(Some(d)),
            Err(e) => Err(e),
        },
        None => Ok(None),
    };
    let texts = match segments {
        Some(list) => list@,
        None => Seq::empty(),
    };
    match parsed {
        Err(e) => Err(e),
        Ok(d) => match updates_result(texts) {
            Err(e) => Err(e),
            Ok(updates) => Ok(
                IntervalTemplateTypeView::ValidateAndUpdate(
                    ValidateIntervalTemplateView {
                        name,
                        duration: d,
                        segments: if updates.len() != 0 {
                            Some(updates)
                        } else {
                            None
                        },
                        lap_each_segment,
                        repeat,
                    },
                ),
            ),
        },
    }
}

/// What reading a reference of any form gives.
pub open spec fn reference_result(raw: RawIntervalReference) -> Result<
    IntervalTemplateTypeView,
    WorkoutErrorView,
> {
    match raw {
        RawIntervalReference::Text(text) => text_reference_result(text@),
        RawIntervalReference::Record {
            duration,
            power_start,
            power_end,
            repeat,
            lap_each_segment,
        } => record_reference_result(
            duration@,
            power_start@,
            power_end@,
            repeat,
            lap_each_segment,
        ),
        RawIntervalReference::Named { name, duration, lap_each_segment, repeat, segments } => {
            named_reference_result(name@, duration, lap_each_segment, repeat, segments)
        },
    }
}

/// The known intervals as mathematical values, by name.
pub open spec fn templates(registry: Map<Seq<char>, IntervalTemplate>) -> Map<
    Seq<char>,
    IntervalTemplateView,
> {
    registry.map_values(|interval: IntervalTemplate| interval@)
}

/// The known interval with the overrides applied to a copy of it. The
/// fields that the overrides hold replace those of the interval, and the
/// segment overrides are applied in order. The copy is then held to what
/// every interval is held to: its duration must be that of its segments
/// times its repeat count. Where it is, its segments are timed anew.
pub open spec fn overridden(
    known: IntervalTemplateView,
    overrides: ValidateIntervalTemplateView,
) -> Result<IntervalTemplateView, WorkoutErrorView> {
    let updates = match overrides.segments {
        Some(list) => list,
        None => Seq::empty(),
    };
    let duration = match overrides.duration {
        Some(d) => d,
        None => known.duration,
    };
    let repeat = match overrides.repeat {
        Some(q) => Some(q),
        None => known.repeat,
    };
    match apply_updates(known.segments, updates) {
        Err(e) => Err(e),
        Ok(segments) => match duration_verdict(duration, segments, repeat) {
            Err(e) => Err(e),
            Ok(()) => Ok(
                IntervalTemplateView {
                    name: known.name,
                    description: known.description,
                    duration,
                    segments: with_start_times(segments),
                    lap_each_segment: match overrides.lap_each_segment {
                        Some(lap) => lap,
                        None => known.lap_each_segment,
                    },
                    repeat,
                },
            ),
        },
    }
}

/// Every known interval is consistent.
pub open spec fn all_known_consistent(known: Map<Seq<char>, IntervalTemplateView>) -> bool {
    forall|name: Seq<char>| #[trigger] known.contains_key(name) ==> known[name].is_consistent()
}

/// An interval that the reference holds inline is consistent.
pub open spec fn is_consistent_inline(reference: IntervalTemplateTypeView) -> bool {
    reference matches IntervalTemplateTypeView::IntervalTemplate(interval)
        ==> interval.is_consistent()
}

/// The interval that a reference stands for, given the known intervals.
pub open spec fn resolution(
    known: Map<Seq<char>, IntervalTemplateView>,
    reference: IntervalTemplateTypeView,
) -> Result<IntervalTemplateView, WorkoutErrorView> {
    match reference {
        IntervalTemplateTypeView::Validate(name) => {
            if known.contains_key(name) {
                Ok(known[name])
            } else {
                Err(WorkoutErrorView::UnknownInterval(name))
            }
        },
        IntervalTemplateTypeView::IntervalTemplate(interval) => Ok(interval),
        IntervalTemplateTypeView::ValidateAndUpdate(overrides) => {
            if known.contains_key(overrides.name) {
                overridden(known[overrides.name], overrides)
            } else {
                Err(WorkoutErrorView::UnknownInterval(overrides.name))
            }
        },
    }
}

/// A reference that resolves against some known intervals resolves to the
/// same interval against any registry that holds those intervals unchanged.
pub proof fn lemma_resolution_stable(
    known: Map<Seq<char>, IntervalTemplateView>,
    larger: Map<Seq<char>, IntervalTemplateView>,
    reference: IntervalTemplateTypeView,
)
    requires
        resolution(known, reference) is Ok,
        forall|name: Seq<char>| #[trigger]
            known.contains_key(name) ==> larger.contains_key(name) && larger[name] == known[name],
    ensures
        resolution(larger, reference) == resolution(known, reference),
{
}

/// Where the known intervals are consistent, so is the interval that a
/// reference resolves to: a known interval is handed on as it is, an
/// interval written inline is consistent as it is read, and an override is
/// held to its duration before it is handed on.
pub proof fn lemma_resolution_consistent(
    known: Map<Seq<char>, IntervalTemplateView>,
    reference: IntervalTemplateTypeView,
)
    requires
        resolution(known, reference) is Ok,
        all_known_consistent(known),
        is_consistent_inline(reference),
    ensures
        resolution(known, reference)->Ok_0.is_consistent(),
{
    if let IntervalTemplateTypeView::ValidateAndUpdate(overrides) = reference {
        let updates = match overrides.segments {
            Some(list) => list,
            None => Seq::empty(),
        };
        let segments = apply_updates(known[overrides.name].segments, updates)->Ok_0;
        lemma_verdict_gives_consistent(resolution(known, reference)->Ok_0, segments);
    }
}

/// An override gives a consistent interval, whatever it overrides.
pub proof fn lemma_override_consistent(
    known: IntervalTemplateView,
    overrides: ValidateIntervalTemplateView,
)
    ensures
        overridden(known, overrides) matches Ok(interval) ==> interval.is_consistent(),
{
    if let Ok(interval) = overridden(known, overrides) {
        let updates = match overrides.segments {
            Some(list) => list,
            None => Seq::empty(),
        };
        lemma_verdict_gives_consistent(interval, apply_updates(known.segments, updates)->Ok_0);
    }
}

/// An interval that a workout writes inline is consistent as it is read:
/// it lasts what its one segment lasts, times the repeat count, and the
/// segment starts at zero.
pub proof fn lemma_inline_interval_consistent(raw: RawIntervalReference)
    ensures
        reference_result(raw) matches Ok(IntervalTemplateTypeView::IntervalTemplate(interval))
            ==> interval.is_consistent() && interval.name is None && interval.segments.len() == 1,
        reference_result(raw) matches Ok(reference) ==> is_consistent_inline(reference),
{
    if let Ok(IntervalTemplateTypeView::IntervalTemplate(interval)) = reference_result(raw) {
        let segments = interval.segments;
        assert(segments.drop_last() =~= Seq::<Segment>::empty());
        assert(total_seconds(segments) == segments[0].duration.0) by {
            assert(total_seconds(segments.drop_last()) == 0);
        }
        assert(segments[0].start_time.0 == 0);
        assert(interval.duration.0 == total_seconds(segments) * repeat_factor(interval.repeat))
            by (nonlinear_arith)
            requires
                total_seconds(segments) == segments[0].duration.0,
                interval.duration.0 == segments[0].duration.0 * repeat_factor(interval.repeat),
        ;
        assert forall|i: int| 0 <= i < segments.len() implies (#[trigger] segments[i]).start_time.0
            == total_seconds(segments.take(i)) by {
            assert(segments.take(0) =~= Seq::<Segment>::empty());
        }
    }
}

/// An override leaves alone what it does not name: without segment
/// overrides the segments keep their durations and power targets, and the
/// name and description are always those of the known interval. The
/// result is consistent.
pub proof fn lemma_override_keeps_the_rest(
    known: IntervalTemplateView,
    overrides: ValidateIntervalTemplateView,
)
    requires
        overridden(known, overrides) is Ok,
    ensures
        ({
            let result = overridden(known, overrides)->Ok_0;
            &&& result.name == known.name
            &&& result.description == known.description
            &&& result.segments.len() == known.segments.len()
            &&& result.is_consistent()
            &&& overrides.duration is None ==> result.duration == known.duration
            &&& overrides.repeat is None ==> result.repeat == known.repeat
            &&& overrides.lap_each_segment is None ==> result.lap_each_segment
                == known.lap_each_segment
            &&& overrides.segments is None ==> forall|i: int|
                0 <= i < known.segments.len() ==> {
                    &&& (#[trigger] result.segments[i]).duration == known.segments[i].duration
                    &&& result.segments[i].power_start == known.segments[i].power_start
                    &&& result.segments[i].power_end == known.segments[i].power_end
                }
        }),
{
    let updates = match overrides.segments {
        Some(list) => list,
        None => Seq::empty(),
    };
    lemma_apply_updates_len(known.segments, updates);
    lemma_override_consistent(known, overrides);
}

/// Once a prefix of the texts fails, the whole list fails the same way.
pub proof fn lemma_updates_result_fails(texts: Seq<String>, k: int)
    requires
        0 <= k <= texts.len(),
        updates_result(texts.take(k)) is Err,
    ensures
        updates_result(texts) == updates_result(texts.take(k)),
    decreases texts.len(),
{
    if k == texts.len() {
        assert(texts.take(k) =~= texts);
    } else {
        assert(texts.drop_last().take(k) =~= texts.take(k));
        lemma_updates_result_fails(texts.drop_last(), k);
    }
}

/// Once a prefix of the updates fails, the whole list fails the same way.
pub proof fn lemma_apply_updates_fails(
    segments: Seq<Segment>,
    updates: Seq<SegmentUpdate>,
    k: int,
)
    requires
        0 <= k <= updates.len(),
        apply_updates(segments, updates.take(k)) is Err,
    ensures
        apply_updates(segments, updates) == apply_updates(segments, updates.take(k)),
    decreases updates.len(),
{
    if k == updates.len() {
        assert(updates.take(k) =~= updates);
    } else {
        assert(updates.drop_last().take(k) =~= updates.take(k));
        lemma_apply_updates_fails(segments, updates.drop_last(), k);
    }
}

fn parse_updates(texts: &Vec<String>) -> (r: Result<Vec<SegmentUpdate>, WorkoutError>)
    ensures
        match r {
            Ok(updates) => updates_result(texts@) == Ok::<Seq<SegmentUpdate>, WorkoutErrorView>(
                updates@,
            ),
            Err(e) => updates_result(texts@) == Err::<Seq<SegmentUpdate>, WorkoutErrorView>(e@),
        },
{
    let mut updates: Vec<SegmentUpdate> = Vec::new();
    let mut i: usize = 0;
    proof {
        assert(texts@.take(0) =~= Seq::<String>::empty());
    }
    while i < texts.len()
        invariant
            0 <= i <= texts@.len(),
            updates_result(texts@.take(i as int)) == Ok::<Seq<SegmentUpdate>, WorkoutErrorView>(
                updates@,
            ),
        decreases texts@.len() - i,
    {
        proof {
            assert(texts@.take(i + 1).drop_last() =~= texts@.take(i as int));
            assert(texts@.take(i + 1).last() == texts@[i as int]);
        }
        match SegmentUpdate::parse(texts[i].as_str()) {
            Ok(update) => {
                updates.push(update);
            },
            Err(e) => {
                proof {
                    assert(updates_result(texts@.take(i + 1)) == Err::<
                        Seq<SegmentUpdate>,
                        WorkoutErrorView,
                    >(e@));
                    lemma_updates_result_fails(texts@, i + 1);
                }
                return Err(e);
            },
        }
        i += 1;
    }
    proof {
        assert(texts@.take(texts@.len() as int) =~= texts@);
    }
    Ok(updates)
}

fn update_segments(segments: &mut Vec<Segment>, updates: &Vec<SegmentUpdate>) -> (r: Result<
    (),
    WorkoutError,
>)
    ensures
        match r {
            Ok(()) => apply_updates(old(segments)@, updates@) == Ok::<
                Seq<Segment>,
                WorkoutErrorView,
            >(final(segments)@),
            Err(e) => apply_updates(old(segments)@, updates@) == Err::<
                Seq<Segment>,
                WorkoutErrorView,
            >(e@),
        },
{
    let ghost before = segments@;
    let mut i: usize = 0;
    proof {
        assert(updates@.take(0) =~= Seq::<SegmentUpdate>::empty());
    }
    while i < updates.len()
        invariant
            0 <= i <= updates@.len(),
            before == old(segments)@,
            apply_updates(before, updates@.take(i as int)) == Ok::<Seq<Segment>, WorkoutErrorView>(
                segments@,
            ),
        decreases updates@.len() - i,
    {
        let update = updates[i];
        proof {
            assert(updates@.take(i + 1).drop_last() =~= updates@.take(i as int));
            assert(updates@.take(i + 1).last() == update);
        }
        if update.index >= segments.len() {
            proof {
                assert(apply_updates(before, updates@.take(i + 1)) is Err);
                lemma_apply_updates_fails(before, updates@, i + 1);
            }
            return Err(
                WorkoutError::SegmentIndexOutOfRange { index: update.index, len: segments.len() },
            );
        }
        let current = segments[update.index];
        let changed = Segment {
            duration: match update.duration {
                Some(d) => d,
                None => current.duration,
            },
            power_start: match update.power_start {
                Some(p) => p,
                None => current.power_start,
            },
            power_end: match update.power_end {
                Some(p) => p,
                None => current.power_end,
            },
            start_time: current.start_time,
        };
        segments.set(update.index, changed);
        i += 1;
    }
    proof {
        assert(updates@.take(updates@.len() as int) =~= updates@);
    }
    Ok(())
}

impl IntervalTemplateType {
    /// Reads a reference from a workout definition. An interval that the
    /// definition writes inline is consistent as it is read.
    pub fn from_raw(raw: &RawIntervalReference) -> (r: Result<IntervalTemplateType, WorkoutError>)
        ensures
            outcome_view(r) == reference_result(*raw),
            r matches Ok(reference) ==> is_consistent_inline(reference@),
    {
        proof {
            lemma_inline_interval_consistent(*raw);
        }
        match raw {
            RawIntervalReference::Text(text) => {
                let chars = chars_of(text.as_str());
                let s = chars.as_slice();
                if find_first(s, '@').is_none() {
                    return Ok(IntervalTemplateType::Validate(string_of(trim(s))));
                }
                match parse_segment(s) {
                    Err(e) => Err(e),
                    Ok(segment) => {
                        let mut segments: Vec<Segment> = Vec::new();
                        segments.push(segment);
                        assert(segments@ =~= seq![segment]);
                        Ok(
                            IntervalTemplateType::IntervalTemplate(
                                IntervalTemplate {
                                    name: None,
                                    description: None,
                                    duration: segment.duration,
                                    segments,
                                    lap_each_segment: false,
                                    repeat: None,
                                },
                            ),
                        )
                    },
                }
            },
            RawIntervalReference::Record {
                duration,
                power_start,
                power_end,
                repeat,
                lap_each_segment,
            } => {
                let segment = match parse_record_segment(
                    duration.as_str(),
                    power_start.as_str(),
                    power_end.as_str(),
                ) {
                    Ok(segment) => segment,
                    Err(e) => {
                        return Err(e);
                    },
                };
                let times: u32 = match repeat {
                    Some(q) => q.0,
                    None => 1,
                };
                let total = match segment.duration.0.checked_mul(times) {
                    Some(t) => t,
                    None => {
                        return Err(WorkoutError::DurationOverflow);
                    },
                };
                let mut segments: Vec<Segment> = Vec::new();
                segments.push(segment);
                assert(segments@ =~= seq![segment]);
                Ok(
                    IntervalTemplateType::IntervalTemplate(
                        IntervalTemplate {
                            name: None,
                            description: None,
                            duration: Duration(total),
                            segments,
                            lap_each_segment: match lap_each_segment {
                                Some(lap) => *lap,
                                None => false,
                            },
                            repeat: *repeat,
                        },
                    ),
                )
            },
            RawIntervalReference::Named { name, duration, lap_each_segment, repeat, segments } => {
                let parsed = match duration {
                    Some(text) => match Duration::parse(text.as_str()) {
                        Ok(d) => Some(d),
                        Err(e) => {
                            return Err(e);
                        },
                    },
                    None => None,
                };
                let updates = match segments {
                    Some(list) => match parse_updates(list) {
                        Ok(updates) => updates,
                        Err(e) => {
                            return Err(e);
                        },
                    },
                    None => Vec::new(),
                };
                Ok(
                    IntervalTemplateType::ValidateAndUpdate(
                        ValidateIntervalTemplate {
                            name: name.clone(),
                            duration: parsed,
                            segments: if updates.len() != 0 {
                                Some(updates)
                            } else {
                                None
                            },
                            lap_each_segment: *lap_each_segment,
                            repeat: *repeat,
                        },
                    ),
                )
            },
        }
    }

    /// Resolves the reference against the known intervals. The registry is
    /// only read: an override changes a copy, and the copy is held to its
    /// duration. Where the known intervals and the one that the reference
    /// may hold inline are consistent, so is the interval that comes back.
    pub fn resolve(&self, registry: &Registry<IntervalTemplate>) -> (r: Result<
        IntervalTemplate,
        WorkoutError,
    >)
        ensures
            outcome_view(r) == resolution(templates(registry@), self@),
            all_known_consistent(templates(registry@)) && is_consistent_inline(self@) ==> (
            r matches Ok(interval) ==> interval@.is_consistent()),
    {
        proof {
            if resolution(templates(registry@), self@) is Ok && all_known_consistent(
                templates(registry@),
            ) && is_consistent_inline(self@) {
                lemma_resolution_consistent(templates(registry@), self@);
            }
        }
        match self {
            IntervalTemplateType::Validate(name) => match registry.get(name.as_str()) {
                Some(known) => Ok(known.clone()),
                None => Err(WorkoutError::UnknownInterval(name.clone())),
            },
            IntervalTemplateType::IntervalTemplate(interval) => Ok(interval.clone()),
            IntervalTemplateType::ValidateAndUpdate(overrides) => {
                let known = match registry.get(overrides.name.as_str()) {
                    Some(known) => known,
                    None => {
                        return Err(WorkoutError::UnknownInterval(overrides.name.clone()));
                    },
                };
                let mut copy = known.clone();
                let mut segments = copy.segments;
                match &overrides.segments {
                    Some(updates) => match update_segments(&mut segments, updates) {
                        Ok(()) => {},
                        Err(e) => {
                            return Err(e);
                        },
                    },
                    None => {},
                }
                let duration = match overrides.duration {
                    Some(d) => d,
                    None => copy.duration,
                };
                let repeat = match overrides.repeat {
                    Some(q) => Some(q),
                    None => copy.repeat,
                };
                match check_duration(duration, &segments, repeat) {
                    Ok(()) => {},
                    Err(e) => {
                        return Err(e);
                    },
                }
                let timed = match assign_start_times(segments) {
                    Some(timed) => timed,
                    None => {
                        return Err(WorkoutError::DurationOverflow);
                    },
                };
                Ok(
                    IntervalTemplate {
                        name: copy.name,
                        description: copy.description,
                        duration,
                        segments: timed,
                        lap_each_segment: match overrides.lap_each_segment {
                            Some(lap) => lap,
                            None => copy.lap_each_segment,
                        },
                        repeat,
                    },
                )
            },
        }
    }
}

} // verus!
