use twobytwenty::error::{Scope, WorkoutError};
use twobytwenty::interval::{IntervalTemplate, RawIntervalTemplate};
use twobytwenty::library::{Diagnostic, EntryKind, Library, ShadowLibrary};
use twobytwenty::power::{Decimal, PowerTarget};
use twobytwenty::reference::RawIntervalReference;
use twobytwenty::segment::RawSegment;
use twobytwenty::types::{Duration, Quantity};
use twobytwenty::workout::RawWorkoutTemplate;

fn interval(name: &str, duration: &str, segments: &[&str]) -> RawIntervalTemplate {
    RawIntervalTemplate {
        name: String::from(name),
        description: Some(String::from("described")),
        duration: String::from(duration),
        segments: segments.iter().map(|s| RawSegment::Literal(String::from(*s))).collect(),
        lap_each_segment: false,
        repeat: None,
    }
}

fn text(literal: &str) -> RawIntervalReference {
    RawIntervalReference::Text(String::from(literal))
}

fn workout(name: &str, duration: &str, intervals: Vec<RawIntervalReference>) -> RawWorkoutTemplate {
    RawWorkoutTemplate {
        name: String::from(name),
        description: String::from("described"),
        duration: String::from(duration),
        lap_each_interval: true,
        intervals,
    }
}

fn report(kind: EntryKind, name: &str, error: WorkoutError) -> Diagnostic {
    Diagnostic { kind, name: String::from(name), error }
}

fn first_document() -> ShadowLibrary {
    ShadowLibrary {
        intervals: Some(vec![
            interval("Warmup", "10m", &["5m@100", "1m@110", "1m@120", "1m@130", "2m@100"]),
            interval("Cooldown", "5m", &["5m@.55"]),
        ]),
        workouts: None,
    }
}

fn second_document() -> ShadowLibrary {
    ShadowLibrary {
        intervals: Some(vec![interval("2by20", "45m", &["20m@.85", "5m@.55", "20m@.85"])]),
        workouts: Some(vec![workout(
            "Metcalfe",
            "1h",
            vec![
                text("Warmup"),
                text("2by20"),
                RawIntervalReference::Record {
                    duration: String::from("5m"),
                    power_start: String::from("0.85"),
                    power_end: String::from("0.55"),
                    repeat: None,
                    lap_each_segment: None,
                },
            ],
        )]),
    }
}

#[test]
fn library_starts_empty() {
    let library = Library::new();
    assert_eq!(library.intervals().len(), 0);
    assert_eq!(library.workouts().len(), 0);
    assert!(library.intervals().get("Warmup").is_none());
}

#[test]
fn workout_refers_to_intervals_of_an_earlier_document() {
    let (library, diagnostics) = Library::build(&vec![first_document(), second_document()]);
    assert_eq!(diagnostics, Vec::new());
    assert_eq!(library.intervals().len(), 3);
    assert_eq!(library.workouts().len(), 1);
    let metcalfe = library.workouts().get("Metcalfe").unwrap();
    assert_eq!(metcalfe.duration, Duration(3600));
    assert_eq!(metcalfe.intervals.len(), 3);
    assert_eq!(metcalfe.intervals[0], *library.intervals().get("Warmup").unwrap());
    assert_eq!(metcalfe.intervals[2].segments.len(), 1);
    assert_eq!(
        metcalfe.intervals[2].segments[0].power_start,
        PowerTarget::Percentage(Decimal { mantissa: 85, scale: 2 })
    );
    assert_eq!(metcalfe.intervals[2].name, None);
}

#[test]
fn workout_cannot_refer_to_an_interval_of_a_later_document() {
    let (library, diagnostics) = Library::build(&vec![second_document(), first_document()]);
    assert_eq!(
        diagnostics,
        vec![report(
            EntryKind::Workout,
            "Metcalfe",
            WorkoutError::UnknownInterval(String::from("Warmup"))
        )]
    );
    assert_eq!(library.intervals().len(), 3);
    assert_eq!(library.workouts().len(), 0);
}

#[test]
fn workout_sees_the_intervals_of_its_own_document() {
    let document = ShadowLibrary {
        intervals: Some(vec![interval("Cooldown", "5m", &["5m@.55"])]),
        workouts: Some(vec![workout("easy", "5m", vec![text("Cooldown")])]),
    };
    let mut library = Library::new();
    assert_eq!(library.load(&document), Vec::new());
    assert_eq!(library.workouts().get("easy").unwrap().intervals[0].name.as_deref(), Some("Cooldown"));
}

#[test]
fn duplicate_interval_is_skipped_and_reported() {
    let document = ShadowLibrary {
        intervals: Some(vec![
            interval("Warmup", "10m", &["10m@100"]),
            interval("Warmup", "5m", &["5m@200"]),
        ]),
        workouts: None,
    };
    let mut library = Library::new();
    let diagnostics = library.load(&document);
    assert_eq!(
        diagnostics,
        vec![report(
            EntryKind::Interval,
            "Warmup",
            WorkoutError::DuplicateName(String::from("Warmup"))
        )]
    );
    assert_eq!(library.intervals().len(), 1);
    let kept = library.intervals().get("Warmup").unwrap();
    assert_eq!(kept.duration, Duration(600));
    assert_eq!(kept.segments[0].power_start, PowerTarget::Watts(100));
}

#[test]
fn duplicate_across_documents_keeps_the_first() {
    let mut library = Library::new();
    assert_eq!(library.load(&first_document()), Vec::new());
    let again = ShadowLibrary {
        intervals: Some(vec![interval("Cooldown", "1m", &["1m@1"])]),
        workouts: None,
    };
    assert_eq!(
        library.load(&again),
        vec![report(
            EntryKind::Interval,
            "Cooldown",
            WorkoutError::DuplicateName(String::from("Cooldown"))
        )]
    );
    assert_eq!(library.intervals().get("Cooldown").unwrap().duration, Duration(300));
    assert_eq!(library.intervals().len(), 2);
}

#[test]
fn duplicate_workout_is_skipped_and_reported() {
    let document = ShadowLibrary {
        intervals: None,
        workouts: Some(vec![
            workout("ride", "10m", vec![text("10m@100")]),
            workout("ride", "20m", vec![text("20m@100")]),
        ]),
    };
    let mut library = Library::new();
    assert_eq!(
        library.load(&document),
        vec![report(EntryKind::Workout, "ride", WorkoutError::DuplicateName(String::from("ride")))]
    );
    assert_eq!(library.workouts().len(), 1);
    assert_eq!(library.workouts().get("ride").unwrap().duration, Duration(600));
}

#[test]
fn invalid_duplicate_reports_what_is_wrong_with_it() {
    let document = ShadowLibrary {
        intervals: Some(vec![
            interval("Warmup", "10m", &["10m@100"]),
            interval("Warmup", "5m", &["4m@200"]),
            interval("Warmup", "5x", &["4m@200"]),
        ]),
        workouts: None,
    };
    let mut library = Library::new();
    assert_eq!(
        library.load(&document),
        vec![
            report(
                EntryKind::Interval,
                "Warmup",
                WorkoutError::DurationMismatch {
                    scope: Scope::Interval,
                    declared: Duration(300),
                    computed: Duration(240),
                }
            ),
            report(
                EntryKind::Interval,
                "Warmup",
                WorkoutError::MalformedDuration(String::from("x"))
            ),
        ]
    );
}

#[test]
fn faulty_entries_do_not_stop_the_load() {
    let document = ShadowLibrary {
        intervals: Some(vec![
            interval("broken", "10m", &["10m"]),
            interval("short", "10m", &["9m@100"]),
            interval("good", "10m", &["10m@100"]),
        ]),
        workouts: Some(vec![
            workout("lost", "10m", vec![text("short")]),
            workout("wrong", "11m", vec![text("good")]),
            workout("fine", "20m", vec![text("good"), text(" good ")]),
        ]),
    };
    let mut library = Library::new();
    let diagnostics = library.load(&document);
    assert_eq!(
        diagnostics,
        vec![
            report(EntryKind::Interval, "broken", WorkoutError::IncompleteSegmentLiteral),
            report(
                EntryKind::Interval,
                "short",
                WorkoutError::DurationMismatch {
                    scope: Scope::Interval,
                    declared: Duration(600),
                    computed: Duration(540),
                }
            ),
            report(
                EntryKind::Workout,
                "lost",
                WorkoutError::UnknownInterval(String::from("short"))
            ),
            report(
                EntryKind::Workout,
                "wrong",
                WorkoutError::DurationMismatch {
                    scope: Scope::Workout,
                    declared: Duration(660),
                    computed: Duration(600),
                }
            ),
        ]
    );
    assert_eq!(library.intervals().len(), 1);
    assert_eq!(library.workouts().len(), 1);
    assert!(library.workouts().contains_key("fine"));
}

#[test]
fn load_into_appends_to_the_reports_it_is_given() {
    let mut library = Library::new();
    let mut diagnostics = vec![report(EntryKind::Workout, "earlier", WorkoutError::DurationOverflow)];
    let document = ShadowLibrary {
        intervals: Some(vec![interval("bad", "1m", &["2m@1"])]),
        workouts: None,
    };
    library.load_into(&document, &mut diagnostics);
    assert_eq!(diagnostics.len(), 2);
    assert_eq!(diagnostics[0].name, "earlier");
    assert_eq!(diagnostics[1].name, "bad");
    assert_eq!(diagnostics[1].kind, EntryKind::Interval);
}

#[test]
fn add_interval_and_add_workout_report_single_entries() {
    let mut library = Library::new();
    assert_eq!(library.add_interval(&interval("Warmup", "10m", &["10m@100"])), Ok(()));
    assert_eq!(
        library.add_interval(&interval("Warmup", "10m", &["10m@100"])),
        Err(WorkoutError::DuplicateName(String::from("Warmup")))
    );
    assert_eq!(
        library.add_workout(&workout("ride", "10m", vec![text("Warmup")])),
        Ok(())
    );
    assert_eq!(
        library.add_workout(&workout("ride", "10m", vec![text("Warmup")])),
        Err(WorkoutError::DuplicateName(String::from("ride")))
    );
    assert_eq!(
        library.add_workout(&workout("other", "10m", vec![text("warmup")])),
        Err(WorkoutError::UnknownInterval(String::from("warmup")))
    );
    assert_eq!(library.intervals().len(), 1);
    assert_eq!(library.workouts().len(), 1);
}

#[test]
fn every_entry_of_a_library_is_consistent() {
    let mut repeated = interval("30on/30off", "10m", &["30s@1.2", "30s@.55"]);
    repeated.repeat = Some(Quantity(10));
    let documents = vec![
        first_document(),
        second_document(),
        ShadowLibrary {
            intervals: Some(vec![repeated]),
            workouts: Some(vec![
                workout(
                    "mixed",
                    "25m",
                    vec![text("Warmup"), text("30on/30off"), text("Cooldown")],
                ),
                workout(
                    "long",
                    "2h10m",
                    vec![RawIntervalReference::Named {
                        name: String::from("2by20"),
                        duration: Some(String::from("2h10m")),
                        lap_each_segment: None,
                        repeat: Some(Quantity(2)),
                        segments: Some(vec![String::from("0:30m@"), String::from("2:30m@1.1")]),
                    }],
                ),
                workout(
                    "broken",
                    "45m",
                    vec![RawIntervalReference::Named {
                        name: String::from("2by20"),
                        duration: None,
                        lap_each_segment: None,
                        repeat: Some(Quantity(2)),
                        segments: None,
                    }],
                ),
            ]),
        },
    ];
    let (library, diagnostics) = Library::build(&documents);
    assert_eq!(
        diagnostics,
        vec![report(
            EntryKind::Workout,
            "broken",
            WorkoutError::DurationMismatch {
                scope: Scope::Interval,
                declared: Duration(2700),
                computed: Duration(5400),
            }
        )]
    );
    let consistent = |interval: &IntervalTemplate| {
        let once: u32 = interval.segments.iter().map(|s| s.duration.0).sum();
        assert_eq!(interval.duration.0, once * interval.repeat.map_or(1, |q| q.0));
        let mut elapsed = 0;
        for segment in &interval.segments {
            assert_eq!(segment.start_time.0, elapsed);
            elapsed += segment.duration.0;
        }
    };
    for name in ["Warmup", "Cooldown", "2by20", "30on/30off"] {
        let interval = library.intervals().get(name).unwrap();
        assert_eq!(interval.name.as_deref(), Some(name));
        consistent(interval);
    }
    for name in ["Metcalfe", "mixed", "long"] {
        let workout = library.workouts().get(name).unwrap();
        assert_eq!(workout.name, name);
        assert_eq!(workout.duration.0, workout.intervals.iter().map(|i| i.duration.0).sum::<u32>());
        workout.intervals.iter().for_each(consistent);
    }
    assert_eq!(library.workouts().len(), 3);
    assert_eq!(library.workouts().get("long").unwrap().intervals[0].repeat, Some(Quantity(2)));
}
