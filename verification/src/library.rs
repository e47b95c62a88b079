//! The library: the intervals and workouts that the definitions of one or
//! more documents resolve to, each under its name. Loading is best effort:
//! an entry that is malformed, inconsistent or a duplicate is skipped and
//! reported, and the rest of the batch is loaded all the same.

use crate::error::{WorkoutError, WorkoutErrorView};
use crate::interval::{
    lemma_with_start_times, shadow_interval_result, IntervalTemplate, IntervalTemplateView,
    RawIntervalTemplate, ShadowIntervalTemplate,
};
use crate::reference::templates;
use crate::registry::Registry;
use crate::workout::{
    lemma_references_read_consistent, lemma_resolve_all_consistent,
    lemma_valid_candidate_builds_consistent, shadow_workout_result, RawWorkoutTemplate,
    ShadowWorkoutTemplate, WorkoutTemplate, WorkoutTemplateView,
};
use vstd::prelude::*;

verus! {

/// The definitions of one document, in the order in which it lists them.
#[derive(Debug, PartialEq, Eq)]
pub struct ShadowLibrary {
    pub intervals: Option<Vec<RawIntervalTemplate>>,
    pub workouts: Option<Vec<RawWorkoutTemplate>>,
}

/// Which kind of entry a diagnostic speaks of.
#[derive(Copy, Clone, Debug, PartialEq, Eq, Structural)]
pub enum EntryKind {
    Interval,
    Workout,
}

/// The report on an entry that was skipped.
#[derive(Debug, PartialEq, Eq)]
pub struct Diagnostic {
    pub kind: EntryKind,
    pub name: String,
    pub error: WorkoutError,
}

/// A `Diagnostic` as a mathematical value.
pub struct DiagnosticView {
    pub kind: EntryKind,
    pub name: Seq<char>,
    pub error: WorkoutErrorView,
}

impl View for Diagnostic {
    type V = DiagnosticView;

    open spec fn view(&self) -> DiagnosticView {
        DiagnosticView { kind: self.kind, name: self.name@, error: self.error@ }
    }
}

/// The diagnostics as mathematical values, in order.
pub open spec fn diagnostic_views(diagnostics: Seq<Diagnostic>) -> Seq<DiagnosticView> {
    diagnostics.map_values(|diagnostic: Diagnostic| diagnostic@)
}

/// The intervals and workouts that were accepted, by name.
pub struct Library {
    intervals: Registry<IntervalTemplate>,
    workouts: Registry<WorkoutTemplate>,
}

/// A `Library` as a mathematical value: two maps from names to entries.
pub struct LibraryView {
    pub intervals: Map<Seq<char>, IntervalTemplateView>,
    pub workouts: Map<Seq<char>, WorkoutTemplateView>,
}

/// The known workouts as mathematical values, by name.
pub open spec fn workout_views(registry: Map<Seq<char>, WorkoutTemplate>) -> Map<
    Seq<char>,
    WorkoutTemplateView,
> {
    registry.map_values(|workout: WorkoutTemplate| workout@)
}

impl LibraryView {
    /// A library without entries.
    pub open spec fn empty() -> LibraryView {
        LibraryView { intervals: Map::empty(), workouts: Map::empty() }
    }

    /// Every entry carries the name it is registered under; every interval,
    /// registered or part of a workout, lasts what its segments and repeat
    /// count give, with its segments timed; and every workout lasts what its
    /// intervals add up to.
    pub open spec fn is_sound(self) -> bool {
        &&& forall|name: Seq<char>| #[trigger]
            self.intervals.contains_key(name) ==> self.intervals[name].name == Some(name)
                && self.intervals[name].is_consistent()
        &&& forall|name: Seq<char>| #[trigger]
            self.workouts.contains_key(name) ==> self.workouts[name].name == name
                && self.workouts[name].is_consistent()
    }
}

/// What becomes of an interval definition that is offered to a library: the
/// interval that is registered, or the reason why it is skipped. A
/// definition is read, then validated, then held against the names that are
/// taken.
pub open spec fn interval_verdict(library: LibraryView, raw: RawIntervalTemplate) -> Result<
    IntervalTemplateView,
    WorkoutErrorView,
> {
    match shadow_interval_result(raw) {
        Err(e) => Err(e),
        Ok(candidate) => match candidate.validation() {
            Err(e) => Err(e),
            Ok(()) => {
                if library.intervals.contains_key(candidate.name) {
                    Err(WorkoutErrorView::DuplicateName(candidate.name))
                } else {
                    Ok(candidate.built())
                }
            },
        },
    }
}

/// What becomes of a workout definition that is offered to a library: the
/// workout that is registered, or the reason why it is skipped. A definition
/// is read, then resolved and validated against the intervals that the
/// library holds at that moment, then held against the names that are taken.
pub open spec fn workout_verdict(library: LibraryView, raw: RawWorkoutTemplate) -> Result<
    WorkoutTemplateView,
    WorkoutErrorView,
> {
    match shadow_workout_result(raw) {
        Err(e) => Err(e),
        Ok(candidate) => match candidate.validation(library.intervals) {
            Err(e) => Err(e),
            Ok(intervals) => {
                if library.workouts.contains_key(candidate.name) {
                    Err(WorkoutErrorView::DuplicateName(candidate.name))
                } else {
                    Ok(
                        WorkoutTemplateView {
                            name: candidate.name,
                            description: candidate.description,
                            duration: candidate.duration,
                            lap_each_interval: candidate.lap_each_interval,
                            intervals,
                        },
                    )
                }
            },
        },
    }
}

/// Where a load stands: the library so far and the reports so far.
pub struct LoadState {
    pub library: LibraryView,
    pub diagnostics: Seq<DiagnosticView>,
}

/// The state after one interval definition was offered.
pub open spec fn offer_interval(state: LoadState, raw: RawIntervalTemplate) -> LoadState {
    match interval_verdict(state.library, raw) {
        Ok(interval) => LoadState {
            library: LibraryView {
                intervals: state.library.intervals.insert(raw.name@, interval),
                workouts: state.library.workouts,
            },
            diagnostics: state.diagnostics,
        },
        Err(error) => LoadState {
            library: state.library,
            diagnostics: state.diagnostics.push(
                DiagnosticView { kind: EntryKind::Interval, name: raw.name@, error },
            ),
        },
    }
}

/// The state after one workout definition was offered.
pub open spec fn offer_workout(state: LoadState, raw: RawWorkoutTemplate) -> LoadState {
    match workout_verdict(state.library, raw) {
        Ok(workout) => LoadState {
            library: LibraryView {
                intervals: state.library.intervals,
                workouts: state.library.workouts.insert(raw.name@, workout),
            },
            diagnostics: state.diagnostics,
        },
        Err(error) => LoadState {
            library: state.library,
            diagnostics: state.diagnostics.push(
                DiagnosticView { kind: EntryKind::Workout, name: raw.name@, error },
            ),
        },
    }
}

/// The state after the interval definitions were offered in order.
pub open spec fn offer_intervals(state: LoadState, raws: Seq<RawIntervalTemplate>) -> LoadState
    decreases raws.len(),
{
    if raws.len() == 0 {
        state
    } else {
        offer_interval(offer_intervals(state, raws.drop_last()), raws.last())
    }
}

/// The state after the workout definitions were offered in order.
pub open spec fn offer_workouts(state: LoadState, raws: Seq<RawWorkoutTemplate>) -> LoadState
    decreases raws.len(),
{
    if raws.len() == 0 {
        state
    } else {
        offer_workout(offer_workouts(state, raws.drop_last()), raws.last())
    }
}

/// The interval definitions of a document; none where it has no such
/// section.
pub open spec fn interval_section(document: ShadowLibrary) -> Seq<RawIntervalTemplate> {
    match document.intervals {
        Some(raws) => raws@,
        None => Seq::empty(),
    }
}

/// The workout definitions of a document; none where it has no such
/// section.
pub open spec fn workout_section(document: ShadowLibrary) -> Seq<RawWorkoutTemplate> {
    match document.workouts {
        Some(raws) => raws@,
        None => Seq::empty(),
    }
}

/// The state after a document was loaded: all its intervals are offered
/// before any of its workouts.
pub open spec fn load_document(state: LoadState, document: ShadowLibrary) -> LoadState {
    offer_workouts(
        offer_intervals(state, interval_section(document)),
        workout_section(document),
    )
}

/// The state after the documents were loaded in order.
pub open spec fn load_documents(state: LoadState, documents: Seq<ShadowLibrary>) -> LoadState
    decreases documents.len(),
{
    if documents.len() == 0 {
        state
    } else {
        load_document(load_documents(state, documents.drop_last()), documents.last())
    }
}

/// Offering an interval definition keeps a sound library sound.
pub proof fn lemma_offer_interval_sound(state: LoadState, raw: RawIntervalTemplate)
    requires
        state.library.is_sound(),
    ensures
        offer_interval(state, raw).library.is_sound(),
{
    if let Ok(candidate) = shadow_interval_result(raw) {
        if candidate.validation() is Ok {
            lemma_with_start_times(candidate.segments);
        }
    }
}

/// Offering a workout definition keeps a sound library sound.
pub proof fn lemma_offer_workout_sound(state: LoadState, raw: RawWorkoutTemplate)
    requires
        state.library.is_sound(),
    ensures
        offer_workout(state, raw).library.is_sound(),
{
    if let Ok(candidate) = shadow_workout_result(raw) {
        if candidate.validation(state.library.intervals) is Ok {
            lemma_references_read_consistent(raw.intervals@);
            lemma_resolve_all_consistent(state.library.intervals, candidate.intervals);
        }
    }
}

/// Loading documents keeps a sound library sound: whatever the documents
/// hold, every entry of the result carries its name and lasts what its parts
/// give.
pub proof fn lemma_load_documents_sound(state: LoadState, documents: Seq<ShadowLibrary>)
    requires
        state.library.is_sound(),
    ensures
        load_documents(state, documents).library.is_sound(),
    decreases documents.len(),
{
    if documents.len() > 0 {
        lemma_load_documents_sound(state, documents.drop_last());
        let before = load_documents(state, documents.drop_last());
        lemma_offer_intervals_sound(before, interval_section(documents.last()));
        lemma_offer_workouts_sound(
            offer_intervals(before, interval_section(documents.last())),
            workout_section(documents.last()),
        );
    }
}

proof fn lemma_offer_intervals_sound(state: LoadState, raws: Seq<RawIntervalTemplate>)
    requires
        state.library.is_sound(),
    ensures
        offer_intervals(state, raws).library.is_sound(),
    decreases raws.len(),
{
    if raws.len() > 0 {
        lemma_offer_intervals_sound(state, raws.drop_last());
        lemma_offer_interval_sound(offer_intervals(state, raws.drop_last()), raws.last());
    }
}

proof fn lemma_offer_workouts_sound(state: LoadState, raws: Seq<RawWorkoutTemplate>)
    requires
        state.library.is_sound(),
    ensures
        offer_workouts(state, raws).library.is_sound(),
    decreases raws.len(),
{
    if raws.len() > 0 {
        lemma_offer_workouts_sound(state, raws.drop_last());
        lemma_offer_workout_sound(offer_workouts(state, raws.drop_last()), raws.last());
    }
}

/// `after` holds every entry of `before`, unchanged, and every report of
/// `before`, in the same place.
pub open spec fn extends(after: LoadState, before: LoadState) -> bool {
    &&& forall|name: Seq<char>| #[trigger]
        before.library.intervals.contains_key(name) ==> after.library.intervals.contains_key(name)
            && after.library.intervals[name] == before.library.intervals[name]
    &&& forall|name: Seq<char>| #[trigger]
        before.library.workouts.contains_key(name) ==> after.library.workouts.contains_key(name)
            && after.library.workouts[name] == before.library.workouts[name]
    &&& before.diagnostics.is_prefix_of(after.diagnostics)
}

/// The first definition of a name stays: offering an interval definition
/// changes no entry that the library holds, and takes none away.
pub proof fn lemma_offer_interval_extends(state: LoadState, raw: RawIntervalTemplate)
    ensures
        extends(offer_interval(state, raw), state),
{
}

/// The first definition of a name stays: offering a workout definition
/// changes no entry that the library holds, and takes none away.
pub proof fn lemma_offer_workout_extends(state: LoadState, raw: RawWorkoutTemplate)
    ensures
        extends(offer_workout(state, raw), state),
{
}

/// Loading is append-only: whatever the documents hold, no entry of the
/// library is changed or removed, and no report is lost.
pub proof fn lemma_load_documents_extends(state: LoadState, documents: Seq<ShadowLibrary>)
    ensures
        extends(load_documents(state, documents), state),
    decreases documents.len(),
{
    if documents.len() > 0 {
        lemma_load_documents_extends(state, documents.drop_last());
        let before = load_documents(state, documents.drop_last());
        let between = offer_intervals(before, interval_section(documents.last()));
        lemma_offer_intervals_extends(before, interval_section(documents.last()));
        lemma_offer_workouts_extends(between, workout_section(documents.last()));
    }
}

proof fn lemma_offer_intervals_extends(state: LoadState, raws: Seq<RawIntervalTemplate>)
    ensures
        extends(offer_intervals(state, raws), state),
    decreases raws.len(),
{
    if raws.len() > 0 {
        lemma_offer_intervals_extends(state, raws.drop_last());
        lemma_offer_interval_extends(offer_intervals(state, raws.drop_last()), raws.last());
    }
}

proof fn lemma_offer_workouts_extends(state: LoadState, raws: Seq<RawWorkoutTemplate>)
    ensures
        extends(offer_workouts(state, raws), state),
    decreases raws.len(),
{
    if raws.len() > 0 {
        lemma_offer_workouts_extends(state, raws.drop_last());
        lemma_offer_workout_extends(offer_workouts(state, raws.drop_last()), raws.last());
    }
}

/// A valid interval definition under a name that is taken is skipped and
/// reported as a duplicate of that name.
pub proof fn lemma_duplicate_interval_reported(state: LoadState, raw: RawIntervalTemplate)
    requires
        state.library.intervals.contains_key(raw.name@),
        shadow_interval_result(raw) matches Ok(candidate) && candidate.validation() is Ok,
    ensures
        offer_interval(state, raw).library == state.library,
        offer_interval(state, raw).diagnostics == state.diagnostics.push(
            DiagnosticView {
                kind: EntryKind::Interval,
                name: raw.name@,
                error: WorkoutErrorView::DuplicateName(raw.name@),
            },
        ),
{
}

/// Of two valid interval definitions with one name, the first is
/// registered where the name was free, and the second is reported as its
/// duplicate.
pub proof fn lemma_first_definition_wins(
    state: LoadState,
    first: RawIntervalTemplate,
    second: RawIntervalTemplate,
)
    requires
        first.name@ == second.name@,
        !state.library.intervals.contains_key(first.name@),
        shadow_interval_result(first) matches Ok(candidate) && candidate.validation() is Ok,
        shadow_interval_result(second) matches Ok(candidate) && candidate.validation() is Ok,
    ensures
        ({
            let after = offer_intervals(state, seq![first, second]);
            &&& after.library.intervals == state.library.intervals.insert(
                first.name@,
                shadow_interval_result(first)->Ok_0.built(),
            )
            &&& after.library.workouts == state.library.workouts
            &&& after.diagnostics == state.diagnostics.push(
                DiagnosticView {
                    kind: EntryKind::Interval,
                    name: second.name@,
                    error: WorkoutErrorView::DuplicateName(second.name@),
                },
            )
        }),
{
    let both = seq![first, second];
    assert(both.drop_last() =~= seq![first]);
    assert(seq![first].drop_last() =~= Seq::<RawIntervalTemplate>::empty());
    assert(offer_intervals(state, Seq::<RawIntervalTemplate>::empty()) == state);
    assert(offer_intervals(state, seq![first]) == offer_interval(state, first));
    lemma_duplicate_interval_reported(offer_interval(state, first), second);
}

impl View for Library {
    type V = LibraryView;

    closed spec fn view(&self) -> LibraryView {
        LibraryView {
            intervals: templates(self.intervals@),
            workouts: workout_views(self.workouts@),
        }
    }
}

impl Library {
    #[verifier::type_invariant]
    spec fn sound(&self) -> bool {
        self@.is_sound()
    }

    /// A library without entries.
    pub fn new() -> (library: Library)
        ensures
            library@ == LibraryView::empty(),
            library@.is_sound(),
    {
        let library = Library { intervals: Registry::new(), workouts: Registry::new() };
        proof {
            assert(library@.intervals =~= Map::<Seq<char>, IntervalTemplateView>::empty());
            assert(library@.workouts =~= Map::<Seq<char>, WorkoutTemplateView>::empty());
        }
        library
    }

    /// The registry of intervals, for reading.
    pub fn intervals(&self) -> (registry: &Registry<IntervalTemplate>)
        ensures
            templates(registry@) == self@.intervals,
            self@.is_sound(),
    {
        proof {
            use_type_invariant(self);
        }
        &self.intervals
    }

    /// The registry of workouts, for reading.
    pub fn workouts(&self) -> (registry: &Registry<WorkoutTemplate>)
        ensures
            workout_views(registry@) == self@.workouts,
            self@.is_sound(),
    {
        proof {
            use_type_invariant(self);
        }
        &self.workouts
    }

    /// Offers one interval definition: it is read, validated and, where its
    /// name is free, registered. Otherwise the library stays as it is and
    /// the reason is returned.
    pub fn add_interval(&mut self, raw: &RawIntervalTemplate) -> (r: Result<(), WorkoutError>)
        ensures
            match r {
                Ok(()) => interval_verdict(old(self)@, *raw) matches Ok(interval) && final(self)@
                    == (LibraryView {
                    intervals: old(self)@.intervals.insert(raw.name@, interval),
                    workouts: old(self)@.workouts,
                }),
                Err(e) => interval_verdict(old(self)@, *raw) == Err::<
                    IntervalTemplateView,
                    WorkoutErrorView,
                >(e@) && final(self)@ == old(self)@,
            },
            final(self)@.is_sound(),
    {
        proof {
            use_type_invariant(&*self);
        }
        let candidate = match ShadowIntervalTemplate::from_raw(raw) {
            Ok(candidate) => candidate,
            Err(e) => {
                return Err(e);
            },
        };
        match candidate.validate() {
            Ok(()) => {},
            Err(e) => {
                return Err(e);
            },
        }
        if self.intervals.contains_key(candidate.name.as_str()) {
            return Err(WorkoutError::DuplicateName(candidate.name));
        }
        let name = candidate.name.clone();
        let interval = candidate.build();
        let ghost before = *self;
        let mut taken = Library::new();
        std::mem::swap(self, &mut taken);
        let Library { mut intervals, workouts } = taken;
        intervals.insert(name, interval);
        proof {
            assert(templates(intervals@) =~= before@.intervals.insert(raw.name@, interval@));
        }
        *self = Library { intervals, workouts };
        Ok(())
    }

    /// Offers one workout definition: it is read, resolved and validated
    /// against the intervals registered so far and, where its name is free,
    /// registered. Otherwise the library stays as it is and the reason is
    /// returned.
    pub fn add_workout(&mut self, raw: &RawWorkoutTemplate) -> (r: Result<(), WorkoutError>)
        ensures
            match r {
                Ok(()) => workout_verdict(old(self)@, *raw) matches Ok(workout) && final(self)@
                    == (LibraryView {
                    intervals: old(self)@.intervals,
                    workouts: old(self)@.workouts.insert(raw.name@, workout),
                }),
                Err(e) => workout_verdict(old(self)@, *raw) == Err::<
                    WorkoutTemplateView,
                    WorkoutErrorView,
                >(e@) && final(self)@ == old(self)@,
            },
            final(self)@.is_sound(),
    {
        proof {
            use_type_invariant(&*self);
        }
        let mut candidate = match ShadowWorkoutTemplate::from_raw(raw) {
            Ok(candidate) => candidate,
            Err(e) => {
                return Err(e);
            },
        };
        let ghost parsed = candidate@;
        match candidate.validate(&self.intervals) {
            Ok(()) => {},
            Err(e) => {
                return Err(e);
            },
        }
        if self.workouts.contains_key(candidate.name.as_str()) {
            return Err(WorkoutError::DuplicateName(candidate.name));
        }
        proof {
            lemma_references_read_consistent(raw.intervals@);
            lemma_valid_candidate_builds_consistent(parsed, self@.intervals);
        }
        let name = candidate.name.clone();
        let workout = candidate.build_workout_template();
        let ghost before = *self;
        let mut taken = Library::new();
        std::mem::swap(self, &mut taken);
        let Library { intervals, mut workouts } = taken;
        workouts.insert(name, workout);
        proof {
            assert(workout_views(workouts@) =~= before@.workouts.insert(raw.name@, workout@));
        }
        *self = Library { intervals, workouts };
        Ok(())
    }

    /// Loads one document into the library, its intervals before its
    /// workouts, and adds a report to `diagnostics` for each entry that was
    /// skipped.
    pub fn load_into(&mut self, document: &ShadowLibrary, diagnostics: &mut Vec<Diagnostic>)
        ensures
            (LoadState {
                library: final(self)@,
                diagnostics: diagnostic_views(final(diagnostics)@),
            }) == load_document(
                LoadState { library: old(self)@, diagnostics: diagnostic_views(old(diagnostics)@) },
                *document,
            ),
            final(self)@.is_sound(),
    {
        let ghost start = LoadState {
            library: self@,
            diagnostics: diagnostic_views(diagnostics@),
        };
        proof {
            use_type_invariant(&*self);
        }
        match &document.intervals {
            Some(raws) => {
                let mut i: usize = 0;
                proof {
                    assert(raws@.take(0) =~= Seq::<RawIntervalTemplate>::empty());
                }
                while i < raws.len()
                    invariant
                        0 <= i <= raws@.len(),
                        self@.is_sound(),
                        (LoadState {
                            library: self@,
                            diagnostics: diagnostic_views(diagnostics@),
                        }) == offer_intervals(start, raws@.take(i as int)),
                    decreases raws@.len() - i,
                {
                    proof {
                        assert(raws@.take(i + 1).drop_last() =~= raws@.take(i as int));
                        assert(raws@.take(i + 1).last() == raws@[i as int]);
                    }
                    let ghost reports = diagnostics@;
                    match self.add_interval(&raws[i]) {
                        Ok(()) => {},
                        Err(error) => {
                            let report = Diagnostic {
                                kind: EntryKind::Interval,
                                name: raws[i].name.clone(),
                                error,
                            };
                            diagnostics.push(report);
                            proof {
                                assert(diagnostic_views(diagnostics@) =~= diagnostic_views(
                                    reports,
                                ).push(report@));
                            }
                        },
                    }
                    i += 1;
                }
                proof {
                    assert(raws@.take(raws@.len() as int) =~= raws@);
                }
            },
            None => {},
        }
        let ghost middle = LoadState {
            library: self@,
            diagnostics: diagnostic_views(diagnostics@),
        };
        match &document.workouts {
            Some(raws) => {
                let mut i: usize = 0;
                proof {
                    assert(raws@.take(0) =~= Seq::<RawWorkoutTemplate>::empty());
                }
                while i < raws.len()
                    invariant
                        0 <= i <= raws@.len(),
                        self@.is_sound(),
                        (LoadState {
                            library: self@,
                            diagnostics: diagnostic_views(diagnostics@),
                        }) == offer_workouts(middle, raws@.take(i as int)),
                    decreases raws@.len() - i,
                {
                    proof {
                        assert(raws@.take(i + 1).drop_last() =~= raws@.take(i as int));
                        assert(raws@.take(i + 1).last() == raws@[i as int]);
                    }
                    let ghost reports = diagnostics@;
                    match self.add_workout(&raws[i]) {
                        Ok(()) => {},
                        Err(error) => {
                            let report = Diagnostic {
                                kind: EntryKind::Workout,
                                name: raws[i].name.clone(),
                                error,
                            };
                            diagnostics.push(report);
                            proof {
                                assert(diagnostic_views(diagnostics@) =~= diagnostic_views(
                                    reports,
                                ).push(report@));
                            }
                        },
                    }
                    i += 1;
                }
                proof {
                    assert(raws@.take(raws@.len() as int) =~= raws@);
                }
            },
            None => {},
        }
    }

    /// Loads one document into the library and returns the reports on the
    /// entries that were skipped, in the order of the document.
    pub fn load(&mut self, document: &ShadowLibrary) -> (diagnostics: Vec<Diagnostic>)
        ensures
            (LoadState { library: final(self)@, diagnostics: diagnostic_views(diagnostics@) })
                == load_document(
                LoadState { library: old(self)@, diagnostics: Seq::empty() },
                *document,
            ),
            final(self)@.is_sound(),
    {
        let mut diagnostics: Vec<Diagnostic> = Vec::new();
        proof {
            assert(diagnostic_views(diagnostics@) =~= Seq::<DiagnosticView>::empty());
        }
        self.load_into(document, &mut diagnostics);
        diagnostics
    }

    /// Builds a library from the documents, loaded in the order given, and
    /// returns it with the reports on the entries that were skipped.
    pub fn build(documents: &Vec<ShadowLibrary>) -> (built: (Library, Vec<Diagnostic>))
        ensures
            (LoadState { library: built.0@, diagnostics: diagnostic_views(built.1@) })
                == load_documents(
                LoadState { library: LibraryView::empty(), diagnostics: Seq::empty() },
                documents@,
            ),
            built.0@.is_sound(),
    {
        let mut library = Library::new();
        let mut diagnostics: Vec<Diagnostic> = Vec::new();
        let ghost start = LoadState { library: LibraryView::empty(), diagnostics: Seq::empty() };
        let mut i: usize = 0;
        proof {
            assert(diagnostic_views(diagnostics@) =~= Seq::<DiagnosticView>::empty());
            assert(documents@.take(0) =~= Seq::<ShadowLibrary>::empty());
        }
        while i < documents.len()
            invariant
                0 <= i <= documents@.len(),
                library@.is_sound(),
                (LoadState { library: library@, diagnostics: diagnostic_views(diagnostics@) })
                    == load_documents(start, documents@.take(i as int)),
            decreases documents@.len() - i,
        {
            proof {
                assert(documents@.take(i + 1).drop_last() =~= documents@.take(i as int));
                assert(documents@.take(i + 1).last() == documents@[i as int]);
            }
            library.load_into(&documents[i], &mut diagnostics);
            i += 1;
        }
        proof {
            assert(documents@.take(documents@.len() as int) =~= documents@);
        }
        (library, diagnostics)
    }
}

} // verus!
