//! Workout templates: an ordered list of references to intervals with a
//! declared total. A definition is read into a candidate, the candidate's
//! references are resolved against the known intervals, and the declared
//! duration is checked against the sum of what they resolved to.

use crate::duration::duration_result;
use crate::error::{outcome_view, Scope, WorkoutError, WorkoutErrorView};
use crate::interval::{IntervalTemplate, IntervalTemplateView};
use crate::reference::{
    all_known_consistent, is_consistent_inline, lemma_inline_interval_consistent,
    lemma_resolution_consistent, lemma_resolution_stable, reference_result, resolution,
    templates, IntervalTemplateType, IntervalTemplateTypeView, RawIntervalReference,
};
use crate::registry::Registry;
use crate::types::Duration;
use vstd::prelude::*;

verus! {

/// A resolved workout: its intervals, in order, last `duration`.
#[derive(Debug, PartialEq, Eq)]
pub struct WorkoutTemplate {
    pub name: String,
    pub description: String,
    pub duration: Duration,
    pub lap_each_interval: bool,
    pub intervals: Vec<IntervalTemplate>,
}

/// A `WorkoutTemplate` as a mathematical value.
pub struct WorkoutTemplateView {
    pub name: Seq<char>,
    pub description: Seq<char>,
    pub duration: Duration,
    pub lap_each_interval: bool,
    pub intervals: Seq<IntervalTemplateView>,
}

/// The intervals as mathematical values, in order.
pub open spec fn interval_views(intervals: Seq<IntervalTemplate>) -> Seq<IntervalTemplateView> {
    intervals.map_values(|interval: IntervalTemplate| interval@)
}

impl View for WorkoutTemplate {
    type V = WorkoutTemplateView;

    open spec fn view(&self) -> WorkoutTemplateView {
        WorkoutTemplateView {
            name: self.name@,
            description: self.description@,
            duration: self.duration,
            lap_each_interval: self.lap_each_interval,
            intervals: interval_views(self.intervals@),
        }
    }
}

/// The seconds that the intervals last, one after the other; each
/// interval's duration counts as declared, repeats included.
pub open spec fn intervals_seconds(intervals: Seq<IntervalTemplateView>) -> nat
    decreases intervals.len(),
{
    if intervals.len() == 0 {
        0
    } else {
        intervals_seconds(intervals.drop_last()) + intervals.last().duration.0 as nat
    }
}

/// Each of the intervals is consistent: it lasts what its segments and
/// repeat count give, and its segments are timed.
pub open spec fn all_consistent(intervals: Seq<IntervalTemplateView>) -> bool {
    forall|i: int| 0 <= i < intervals.len() ==> (#[trigger] intervals[i]).is_consistent()
}

impl WorkoutTemplateView {
    /// The declared duration is the sum of the intervals' durations, and
    /// each interval is consistent in itself.
    pub open spec fn is_consistent(self) -> bool {
        &&& self.duration.0 == intervals_seconds(self.intervals)
        &&& all_consistent(self.intervals)
    }
}

/// A workout as a definition writes it, before anything is parsed.
#[derive(Debug, PartialEq, Eq)]
pub struct RawWorkoutTemplate {
    pub name: String,
    pub description: String,
    pub duration: String,
    pub lap_each_interval: bool,
    pub intervals: Vec<RawIntervalReference>,
}

/// A candidate workout: parsed, its references not yet resolved.
#[derive(Debug, PartialEq, Eq)]
pub struct ShadowWorkoutTemplate {
    pub name: String,
    pub description: String,
    pub duration: Duration,
    pub lap_each_interval: bool,
    pub intervals: Vec<IntervalTemplateType>,
}

/// A `ShadowWorkoutTemplate` as a mathematical value.
pub struct ShadowWorkoutTemplateView {
    pub name: Seq<char>,
    pub description: Seq<char>,
    pub duration: Duration,
    pub lap_each_interval: bool,
    pub intervals: Seq<IntervalTemplateTypeView>,
}

/// The references as mathematical values, in order.
pub open spec fn reference_views(references: Seq<IntervalTemplateType>) -> Seq<
    IntervalTemplateTypeView,
> {
    references.map_values(|reference: IntervalTemplateType| reference@)
}

impl View for ShadowWorkoutTemplate {
    type V = ShadowWorkoutTemplateView;

    open spec fn view(&self) -> ShadowWorkoutTemplateView {
        ShadowWorkoutTemplateView {
            name: self.name@,
            description: self.description@,
            duration: self.duration,
            lap_each_interval: self.lap_each_interval,
            intervals: reference_views(self.intervals@),
        }
    }
}

/// The references that a list of definitions reads as: the first one that
/// fails, in the order of the list, is the error.
pub open spec fn references_result(raws: Seq<RawIntervalReference>) -> Result<
    Seq<IntervalTemplateTypeView>,
    WorkoutErrorView,
>
    decreases raws.len(),
{
    if raws.len() == 0 {
        Ok(Seq::empty())
    } else {
        match references_result(raws.drop_last()) {
            Err(e) => Err(e),
            Ok(references) => match reference_result(raws.last()) {
                Err(e) => Err(e),
                Ok(reference) => Ok(references.push(reference)),
            },
        }
    }
}

/// What reading a workout definition gives: its duration is parsed first,
/// then its references in order.
pub open spec fn shadow_workout_result(raw: RawWorkoutTemplate) -> Result<
    ShadowWorkoutTemplateView,
    WorkoutErrorView,
> {
    match duration_result(raw.duration@) {
        Err(e) => Err(e),
        Ok(duration) => match references_result(raw.intervals@) {
            Err(e) => Err(e),
            Ok(intervals) => Ok(
                ShadowWorkoutTemplateView {
                    name: raw.name@,
                    description: raw.description@,
                    duration,
                    lap_each_interval: raw.lap_each_interval,
                    intervals,
                },
            ),
        },
    }
}

/// The intervals that the references stand for, in order: the first
/// reference that does not resolve is the error.
pub open spec fn resolve_all(
    known: Map<Seq<char>, IntervalTemplateView>,
    references: Seq<IntervalTemplateTypeView>,
) -> Result<Seq<IntervalTemplateView>, WorkoutErrorView>
    decreases references.len(),
{
    if references.len() == 0 {
        Ok(Seq::empty())
    } else {
        match resolve_all(known, references.drop_last()) {
            Err(e) => Err(e),
            Ok(intervals) => match resolution(known, references.last()) {
                Err(e) => Err(e),
                Ok(interval) => Ok(intervals.push(interval)),
            },
        }
    }
}

/// The references that stand for the given intervals, needing no registry.
pub open spec fn resolved_references(intervals: Seq<IntervalTemplateView>) -> Seq<
    IntervalTemplateTypeView,
> {
    intervals.map_values(
        |interval: IntervalTemplateView| IntervalTemplateTypeView::IntervalTemplate(interval),
    )
}

impl ShadowWorkoutTemplateView {
    /// The verdict on a candidate, given the known intervals: every
    /// reference must resolve, and the declared duration must be the sum of
    /// the resolved intervals' durations. The resolved intervals are the
    /// result.
    pub open spec fn validation(self, known: Map<Seq<char>, IntervalTemplateView>) -> Result<
        Seq<IntervalTemplateView>,
        WorkoutErrorView,
    > {
        match resolve_all(known, self.intervals) {
            Err(e) => Err(e),
            Ok(intervals) => {
                if intervals_seconds(intervals) > u32::MAX {
                    Err(WorkoutErrorView::DurationOverflow)
                } else if self.duration.0 != intervals_seconds(intervals) {
                    Err(
                        WorkoutErrorView::DurationMismatch {
                            scope: Scope::Workout,
                            declared: self.duration,
                            computed: Duration(intervals_seconds(intervals) as u32),
                        },
                    )
                } else {
                    Ok(intervals)
                }
            },
        }
    }

    /// No reference is left that needs the registry.
    pub open spec fn is_resolved(self) -> bool {
        forall|i: int|
            0 <= i < self.intervals.len() ==> #[trigger] self.intervals[i]
                is IntervalTemplate
    }

    /// The workout that a candidate without open references becomes.
    pub open spec fn built(self) -> WorkoutTemplateView {
        WorkoutTemplateView {
            name: self.name,
            description: self.description,
            duration: self.duration,
            lap_each_interval: self.lap_each_interval,
            intervals: Seq::new(
                self.intervals.len(),
                |i: int| self.intervals[i]->IntervalTemplate_0,
            ),
        }
    }
}

/// Once a prefix of the definitions fails, the whole list fails the same
/// way.
pub proof fn lemma_references_result_fails(raws: Seq<RawIntervalReference>, k: int)
    requires
        0 <= k <= raws.len(),
        references_result(raws.take(k)) is Err,
    ensures
        references_result(raws) == references_result(raws.take(k)),
    decreases raws.len(),
{
    if k == raws.len() {
        assert(raws.take(k) =~= raws);
    } else {
        assert(raws.drop_last().take(k) =~= raws.take(k));
        lemma_references_result_fails(raws.drop_last(), k);
    }
}

/// Once a prefix of the references fails to resolve, the whole list fails
/// the same way.
pub proof fn lemma_resolve_all_fails(
    known: Map<Seq<char>, IntervalTemplateView>,
    references: Seq<IntervalTemplateTypeView>,
    k: int,
)
    requires
        0 <= k <= references.len(),
        resolve_all(known, references.take(k)) is Err,
    ensures
        resolve_all(known, references) == resolve_all(known, references.take(k)),
    decreases references.len(),
{
    if k == references.len() {
        assert(references.take(k) =~= references);
    } else {
        assert(references.drop_last().take(k) =~= references.take(k));
        lemma_resolve_all_fails(known, references.drop_last(), k);
    }
}

/// What resolved against some known intervals resolves to the same against
/// any registry that holds those intervals unchanged: a later definition
/// never changes what an earlier workout means.
pub proof fn lemma_resolve_all_stable(
    known: Map<Seq<char>, IntervalTemplateView>,
    larger: Map<Seq<char>, IntervalTemplateView>,
    references: Seq<IntervalTemplateTypeView>,
)
    requires
        resolve_all(known, references) is Ok,
        forall|name: Seq<char>| #[trigger]
            known.contains_key(name) ==> larger.contains_key(name) && larger[name] == known[name],
    ensures
        resolve_all(larger, references) == resolve_all(known, references),
    decreases references.len(),
{
    if references.len() > 0 {
        lemma_resolve_all_stable(known, larger, references.drop_last());
        lemma_resolution_stable(known, larger, references.last());
    }
}

/// The intervals that the references hold inline are consistent.
pub open spec fn inline_consistent(references: Seq<IntervalTemplateTypeView>) -> bool {
    forall|i: int| 0 <= i < references.len() ==> is_consistent_inline(#[trigger] references[i])
}

/// The intervals that a definition writes inline are consistent as they
/// are read.
pub proof fn lemma_references_read_consistent(raws: Seq<RawIntervalReference>)
    ensures
        references_result(raws) matches Ok(references) ==> inline_consistent(references),
    decreases raws.len(),
{
    if raws.len() > 0 {
        lemma_references_read_consistent(raws.drop_last());
        lemma_inline_interval_consistent(raws.last());
    }
}

/// Where the known intervals and those written inline are consistent, so
/// are all the intervals that the references resolve to, overridden ones
/// included.
pub proof fn lemma_resolve_all_consistent(
    known: Map<Seq<char>, IntervalTemplateView>,
    references: Seq<IntervalTemplateTypeView>,
)
    requires
        resolve_all(known, references) is Ok,
        all_known_consistent(known),
        inline_consistent(references),
    ensures
        all_consistent(resolve_all(known, references)->Ok_0),
    decreases references.len(),
{
    if references.len() > 0 {
        let earlier = references.drop_last();
        assert forall|i: int| 0 <= i < earlier.len() implies is_consistent_inline(
            #[trigger] earlier[i],
        ) by {
            assert(earlier[i] == references[i]);
        }
        assert(is_consistent_inline(references.last()));
        lemma_resolve_all_consistent(known, earlier);
        lemma_resolution_consistent(known, references.last());
    }
}

/// A candidate that passed validation, with its references replaced by
/// what they resolved to, becomes a consistent workout of those intervals,
/// provided that the known intervals and those written inline are
/// consistent.
pub proof fn lemma_valid_candidate_builds_consistent(
    candidate: ShadowWorkoutTemplateView,
    known: Map<Seq<char>, IntervalTemplateView>,
)
    requires
        candidate.validation(known) is Ok,
        all_known_consistent(known),
        inline_consistent(candidate.intervals),
    ensures
        ({
            let intervals = candidate.validation(known)->Ok_0;
            let resolved = ShadowWorkoutTemplateView {
                intervals: resolved_references(intervals),
                ..candidate
            };
            &&& resolved.is_resolved()
            &&& resolved.built().intervals == intervals
            &&& resolved.built().is_consistent()
        }),
{
    let intervals = candidate.validation(known)->Ok_0;
    let resolved = ShadowWorkoutTemplateView {
        intervals: resolved_references(intervals),
        ..candidate
    };
    assert(resolved.built().intervals =~= intervals);
    lemma_resolve_all_consistent(known, candidate.intervals);
}

impl ShadowWorkoutTemplate {
    /// Reads a workout definition. The intervals that the definition writes
    /// inline are consistent as they are read.
    pub fn from_raw(raw: &RawWorkoutTemplate) -> (r: Result<ShadowWorkoutTemplate, WorkoutError>)
        ensures
            outcome_view(r) == shadow_workout_result(*raw),
            r matches Ok(candidate) ==> inline_consistent(candidate@.intervals),
    {
        proof {
            lemma_references_read_consistent(raw.intervals@);
        }
        let duration = match Duration::parse(raw.duration.as_str()) {
            Ok(d) => d,
            Err(e) => {
                return Err(e);
            },
        };
        let mut intervals: Vec<IntervalTemplateType> = Vec::new();
        let mut i: usize = 0;
        proof {
            assert(raw.intervals@.take(0) =~= Seq::<RawIntervalReference>::empty());
            assert(reference_views(intervals@) =~= Seq::<IntervalTemplateTypeView>::empty());
        }
        while i < raw.intervals.len()
            invariant
                0 <= i <= raw.intervals@.len(),
                duration_result(raw.duration@) == Ok::<Duration, WorkoutErrorView>(duration),
                references_result(raw.intervals@.take(i as int)) == Ok::<
                    Seq<IntervalTemplateTypeView>,
                    WorkoutErrorView,
                >(reference_views(intervals@)),
            decreases raw.intervals@.len() - i,
        {
            proof {
                assert(raw.intervals@.take(i + 1).drop_last() =~= raw.intervals@.take(i as int));
                assert(raw.intervals@.take(i + 1).last() == raw.intervals@[i as int]);
            }
            let ghost before = intervals@;
            match IntervalTemplateType::from_raw(&raw.intervals[i]) {
                Ok(reference) => {
                    intervals.push(reference);
                    proof {
                        assert(reference_views(intervals@) =~= reference_views(before).push(
                            reference@,
                        ));
                    }
                },
                Err(e) => {
                    proof {
                        assert(references_result(raw.intervals@.take(i + 1)) == Err::<
                            Seq<IntervalTemplateTypeView>,
                            WorkoutErrorView,
                        >(e@));
                        lemma_references_result_fails(raw.intervals@, i + 1);
                    }
                    return Err(e);
                },
            }
            i += 1;
        }
        proof {
            assert(raw.intervals@.take(raw.intervals@.len() as int) =~= raw.intervals@);
        }
        Ok(
            ShadowWorkoutTemplate {
                name: raw.name.clone(),
                description: raw.description.clone(),
                duration,
                lap_each_interval: raw.lap_each_interval,
                intervals,
            },
        )
    }

    /// Resolves the references against the known intervals and checks the
    /// declared duration against their sum. On success each reference is
    /// replaced by the interval it resolved to; on failure the candidate
    /// stays as it was. Where the known intervals and those that the
    /// candidate holds inline are consistent, so is every interval of a
    /// candidate that passed, overridden ones included.
    pub fn validate(&mut self, interval_templates: &Registry<IntervalTemplate>) -> (r: Result<
        (),
        WorkoutError,
    >)
        ensures
            match r {
                Ok(()) => {
                    &&& old(self)@.validation(templates(interval_templates@)) matches Ok(intervals)
                    &&& final(self)@ == ShadowWorkoutTemplateView {
                        intervals: resolved_references(intervals),
                        ..old(self)@
                    }
                    &&& all_known_consistent(templates(interval_templates@)) && inline_consistent(
                        old(self)@.intervals,
                    ) ==> all_consistent(intervals) && inline_consistent(final(self)@.intervals)
                },
                Err(e) => {
                    &&& old(self)@.validation(templates(interval_templates@)) == Err::<
                        Seq<IntervalTemplateView>,
                        WorkoutErrorView,
                    >(e@)
                    &&& final(self)@ == old(self)@
                },
            },
    {
        let ghost known = templates(interval_templates@);
        let ghost references = reference_views(self.intervals@);
        let mut resolved: Vec<IntervalTemplateType> = Vec::new();
        let ghost mut intervals: Seq<IntervalTemplateView> = Seq::empty();
        let mut total: u32 = 0;
        let mut overflow = false;
        let mut i: usize = 0;
        proof {
            assert(references.take(0) =~= Seq::<IntervalTemplateTypeView>::empty());
            assert(reference_views(resolved@) =~= resolved_references(intervals));
        }
        while i < self.intervals.len()
            invariant
                0 <= i <= self.intervals@.len(),
                *self == *old(self),
                known == templates(interval_templates@),
                references == reference_views(self.intervals@),
                resolve_all(known, references.take(i as int)) == Ok::<
                    Seq<IntervalTemplateView>,
                    WorkoutErrorView,
                >(intervals),
                reference_views(resolved@) == resolved_references(intervals),
                overflow ==> intervals_seconds(intervals) > u32::MAX,
                !overflow ==> total == intervals_seconds(intervals),
            decreases self.intervals@.len() - i,
        {
            proof {
                assert(references.take(i + 1).drop_last() =~= references.take(i as int));
                assert(references.take(i + 1).last() == self.intervals@[i as int]@);
            }
            let ghost before = resolved@;
            match self.intervals[i].resolve(interval_templates) {
                Ok(interval) => {
                    if !overflow {
                        match total.checked_add(interval.duration.0) {
                            Some(t) => {
                                total = t;
                            },
                            None => {
                                overflow = true;
                            },
                        }
                    }
                    let ghost earlier = intervals;
                    let ghost added = IntervalTemplateTypeView::IntervalTemplate(interval@);
                    proof {
                        assert(intervals.push(interval@).drop_last() =~= intervals);
                        intervals = intervals.push(interval@);
                    }
                    resolved.push(IntervalTemplateType::IntervalTemplate(interval));
                    proof {
                        assert(reference_views(resolved@) =~= reference_views(before).push(added));
                        assert(resolved_references(intervals) =~= resolved_references(
                            earlier,
                        ).push(added));
                    }
                },
                Err(e) => {
                    proof {
                        assert(resolve_all(known, references.take(i + 1)) == Err::<
                            Seq<IntervalTemplateView>,
                            WorkoutErrorView,
                        >(e@));
                        lemma_resolve_all_fails(known, references, i + 1);
                    }
                    return Err(e);
                },
            }
            i += 1;
        }
        proof {
            assert(references.take(references.len() as int) =~= references);
        }
        if overflow {
            return Err(WorkoutError::DurationOverflow);
        }
        if self.duration.0 != total {
            return Err(
                WorkoutError::DurationMismatch {
                    scope: Scope::Workout,
                    declared: self.duration,
                    computed: Duration(total),
                },
            );
        }
        proof {
            if all_known_consistent(known) && inline_consistent(references) {
                lemma_resolve_all_consistent(known, references);
                assert forall|j: int| 0 <= j < intervals.len() implies is_consistent_inline(
                    #[trigger] resolved_references(intervals)[j],
                ) by {
                    assert(intervals[j].is_consistent());
                }
            }
        }
        self.intervals = resolved;
        Ok(())
    }

    /// Whether no reference is left that needs the registry, so that
    /// `build_workout_template` can take the candidate.
    pub fn is_resolved(&self) -> (resolved: bool)
        ensures
            resolved == self@.is_resolved(),
    {
        let mut i: usize = 0;
        while i < self.intervals.len()
            invariant
                0 <= i <= self.intervals@.len(),
                forall|j: int| 0 <= j < i ==> #[trigger] self@.intervals[j] is IntervalTemplate,
            decreases self.intervals@.len() - i,
        {
            match &self.intervals[i] {
                IntervalTemplateType::IntervalTemplate(_) => {},
                _ => {
                    assert(!(self@.intervals[i as int] is IntervalTemplate));
                    return false;
                },
            }
            i += 1;
        }
        true
    }

    /// Turns a candidate whose references are all resolved into a workout.
    /// Where the intervals that the candidate holds are consistent, so are
    /// those of the workout.
    pub fn build_workout_template(self) -> (workout: WorkoutTemplate)
        requires
            self@.is_resolved(),
        ensures
            workout@ == self@.built(),
            inline_consistent(self@.intervals) ==> all_consistent(workout@.intervals),
    {
        proof {
            if inline_consistent(self@.intervals) {
                assert forall|i: int| 0 <= i < self@.built().intervals.len() implies (
                #[trigger] self@.built().intervals[i]).is_consistent() by {
                    assert(is_consistent_inline(self@.intervals[i]));
                }
            }
        }
        let mut intervals: Vec<IntervalTemplate> = Vec::new();
        let mut i: usize = 0;
        while i < self.intervals.len()
            invariant
                0 <= i <= self.intervals@.len(),
                self@.is_resolved(),
                intervals@.len() == i,
                forall|j: int|
                    0 <= j < i ==> (#[trigger] intervals@[j])@ == self@.built().intervals[j],
            decreases self.intervals@.len() - i,
        {
            assert(self@.intervals[i as int] is IntervalTemplate);
            match &self.intervals[i] {
                IntervalTemplateType::IntervalTemplate(interval) => {
                    intervals.push(interval.clone());
                },
                _ => {},
            }
            i += 1;
        }
        assert(interval_views(intervals@) =~= self@.built().intervals);
        WorkoutTemplate {
            name: self.name,
            description: self.description,
            duration: self.duration,
            lap_each_interval: self.lap_each_interval,
            intervals,
        }
    }
}

} // verus!
