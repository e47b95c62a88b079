use std::convert::TryFrom;
use std::str::FromStr;

use toml::Value;

use twobytwenty::interval::{RawIntervalTemplate, ShadowIntervalTemplate};
use twobytwenty::library::{Library, ShadowLibrary};
use twobytwenty::power::PowerTarget;
use twobytwenty::reference::RawIntervalReference;
use twobytwenty::registry::Registry;
use twobytwenty::segment::{RawSegment, Segment};
use twobytwenty::types::{Duration, Quantity};
use twobytwenty::workout::{RawWorkoutTemplate, ShadowWorkoutTemplate, WorkoutTemplate};

/// A number written as a decimal with a point, never with an exponent.
fn decimal<T: std::fmt::Display>(value: T) -> String {
    let text = value.to_string();
    if text.contains('.') {
        text
    } else {
        text + ".0"
    }
}

/// The power target that a decimal number stands for, through the text that
/// writes the number out.
fn target_of(value: f32) -> PowerTarget {
    decimal(value).parse().unwrap()
}

fn text(table: &Value, key: &str) -> String {
    table.get(key).and_then(Value::as_str).map(String::from).unwrap()
}

fn optional_text(table: &Value, key: &str) -> Option<String> {
    table.get(key).map(|value| value.as_str().map(String::from).unwrap())
}

fn flag(table: &Value, key: &str) -> bool {
    table.get(key).and_then(Value::as_bool).unwrap()
}

fn optional_flag(table: &Value, key: &str) -> Option<bool> {
    table.get(key).map(|value| value.as_bool().unwrap())
}

fn repeat(table: &Value) -> Option<Quantity> {
    table
        .get("repeat")
        .map(|value| Quantity(u32::try_from(value.as_integer().unwrap()).unwrap()))
}

fn power(table: &Value, key: &str) -> String {
    match table.get(key).unwrap() {
        Value::Integer(watts) => watts.to_string(),
        Value::Float(fraction) => decimal(fraction),
        other => panic!("{} is no power target", other),
    }
}

fn raw_segment(value: &Value) -> RawSegment {
    match value {
        Value::String(literal) => RawSegment::Literal(literal.clone()),
        table => RawSegment::Record {
            duration: text(table, "duration"),
            power_start: power(table, "power_start"),
            power_end: power(table, "power_end"),
        },
    }
}

fn raw_interval(table: &Value) -> RawIntervalTemplate {
    RawIntervalTemplate {
        name: text(table, "name"),
        description: optional_text(table, "description"),
        duration: text(table, "duration"),
        segments: table
            .get("segments")
            .and_then(Value::as_array)
            .unwrap()
            .iter()
            .map(raw_segment)
            .collect(),
        lap_each_segment: flag(table, "lap_each_segment"),
        repeat: repeat(table),
    }
}

fn raw_reference(value: &Value) -> RawIntervalReference {
    match value {
        Value::String(literal) => RawIntervalReference::Text(literal.clone()),
        table if table.get("power_start").is_some() => RawIntervalReference::Record {
            duration: text(table, "duration"),
            power_start: power(table, "power_start"),
            power_end: power(table, "power_end"),
            repeat: repeat(table),
            lap_each_segment: optional_flag(table, "lap_each_segment"),
        },
        table => RawIntervalReference::Named {
            name: text(table, "name"),
            duration: optional_text(table, "duration"),
            lap_each_segment: optional_flag(table, "lap_each_segment"),
            repeat: repeat(table),
            segments: table.get("segments").map(|list| {
                list.as_array()
                    .unwrap()
                    .iter()
                    .map(|item| item.as_str().map(String::from).unwrap())
                    .collect()
            }),
        },
    }
}

fn raw_workout(table: &Value) -> RawWorkoutTemplate {
    RawWorkoutTemplate {
        name: text(table, "name"),
        description: text(table, "description"),
        duration: text(table, "duration"),
        lap_each_interval: flag(table, "lap_each_interval"),
        intervals: table
            .get("intervals")
            .and_then(Value::as_array)
            .unwrap()
            .iter()
            .map(raw_reference)
            .collect(),
    }
}

fn document(file: &str) -> ShadowLibrary {
    let tree: Value = toml::from_str(file).unwrap();
    ShadowLibrary {
        intervals: tree
            .get("intervals")
            .map(|list| list.as_array().unwrap().iter().map(raw_interval).collect()),
        workouts: tree
            .get("workouts")
            .map(|list| list.as_array().unwrap().iter().map(raw_workout).collect()),
    }
}

#[test]
fn test_library_update_interval_info() {
    // Sample intervals like they would be read from multiple files.
    let s1 = r#"
        [[ intervals ]]
        name = "Warmup"
        description = "This needs to be optional"
        duration = "10m"
        lap_each_segment = false
        segments = [
          '5m@100',
          '1m@110',
          '1m@120',
          '1m@130',
          '2m@100',
        ]

        [[ intervals ]]
        name = "Cooldown"
        description = "This needs to be optional"
        duration = "5m"
        lap_each_segment = false
        segments = ['5m@.55']
        "#;

    let s2 = r#"
        [[ intervals ]]
        name = "2by20"
        description = "This needs to be optional"
        duration = "45m"
        lap_each_segment = true
        segments = [
          '20m@.85',
          '5m@.55',
          '20m@.85'
        ]

        [[ workouts ]]
        name = "Metcalfe"
        description = "2x20 at tempo"
        duration = "1h20m"
        lap_each_interval = true
        intervals = [
          'Warmup',
          { name = '2by20', duration = '1h5m', segments = ["0:30m@", "2:30m@"]},
          { duration = "5m", power_start = 0.85, power_end = 0.55 },
        ]"#;

    let mut library = Library::new();
    for file in vec![s1, s2].iter() {
        let diagnostics = library.load(&document(file));
        assert!(diagnostics.is_empty());
    }
    assert_eq!(library.intervals().len(), 3);
    assert_eq!(library.workouts().len(), 1);
    let sample_workout = library.workouts().get("Metcalfe").unwrap();
    assert_eq!(
        sample_workout.duration,
        Duration::from_str("1h20m").unwrap()
    );
    assert_eq!(
        sample_workout.intervals[1].segments[0].duration,
        Duration::from_str("30m").unwrap()
    );
    assert_eq!(sample_workout.intervals[0].segments.len(), 5);
    assert_eq!(sample_workout.intervals[1].segments.len(), 3);
    assert_eq!(
        sample_workout.intervals[2].segments[0].power_start,
        target_of(0.85)
    );
}

#[test]
fn test_library() {
    // Sample intervals like they would be read from multiple files.
    let s1 = r#"
        [[ intervals ]]
        name = "Warmup"
        description = "This needs to be optional"
        duration = "10m"
        lap_each_segment = false
        segments = [
          '5m@100',
          '1m@110',
          '1m@120',
          '1m@130',
          '2m@100',
        ]

        [[ intervals ]]
        name = "Cooldown"
        description = "This needs to be optional"
        duration = "5m"
        lap_each_segment = false
        segments = ['5m@.55']
        "#;

    let s2 = r#"
        [[ intervals ]]
        name = "2by20"
        description = "This needs to be optional"
        duration = "45m"
        lap_each_segment = true
        segments = [
          '20m@.85',
          '5m@.55',
          '20m@.85'
        ]

        [[ workouts ]]
        name = "Metcalfe"
        description = "2x20 at tempo"
        duration = "1h"
        lap_each_interval = true
        intervals = [
          'Warmup',
          '2by20',
          { duration = "5m", power_start = 0.85, power_end = 0.55 },
        ]"#;

    let mut library = Library::new();
    for file in vec![s1, s2].iter() {
        let diagnostics = library.load(&document(file));
        assert!(diagnostics.is_empty());
    }
    assert_eq!(library.intervals().len(), 3);
    assert_eq!(library.workouts().len(), 1);
    let sample_workout = library.workouts().get("Metcalfe").unwrap();
    assert_eq!(sample_workout.duration, Duration::from_str("1h").unwrap());
    assert_eq!(sample_workout.intervals[0].segments.len(), 5);
    assert_eq!(sample_workout.intervals[1].segments.len(), 3);
    assert_eq!(
        sample_workout.intervals[2].segments[0].power_start,
        target_of(0.85)
    );
}

#[test]
fn test_library_single_workout() {
    // Sample intervals like they would be read from multiple files.
    let s1 = r#"
        [[ workouts ]]
        name = "Sample workout"
        description = "Test sample"
        duration = "1h"
        lap_each_interval = true
        intervals = [
          '10m@.55',
          '40m@225',
          '10m@.55'
        ]"#;

    let mut workouts: Registry<WorkoutTemplate> = Registry::new();

    let sl = document(s1);
    if let Some(contents) = sl.workouts {
        for raw in contents {
            let shadow_workout = ShadowWorkoutTemplate::from_raw(&raw).unwrap();
            let workout = shadow_workout.build_workout_template();
            workouts.insert(workout.name.clone(), workout);
        }
    }
    assert_eq!(workouts.len(), 1);
    let sample_workout = workouts.get("Sample workout").unwrap();
    assert_eq!(sample_workout.duration, Duration::from_str("1h").unwrap());
    assert_eq!(sample_workout.intervals.len(), 3);
    assert_eq!(
        sample_workout.intervals[0].duration,
        Duration::from_str("10m").unwrap()
    );
    assert_eq!(
        sample_workout.intervals[0].segments[0].power_start,
        target_of(0.55)
    );
}

#[test]
fn test_shadow_interval_template() {
    let it_str = r#"
        name = "Warmup"
        description = "Warming up the legs"
        duration = "10m"
        lap_each_segment = false
        segments = [
          '5m@100',
          '1m@110',
          '1m@120',
          '1m@130',
          '2m@100',
        ]"#;

    let tree: Value = toml::from_str(it_str).unwrap();
    let foo = ShadowIntervalTemplate::from_raw(&raw_interval(&tree)).unwrap();
    assert_eq!(foo.name, String::from("Warmup"));
    assert_eq!(foo.description, Some(String::from("Warming up the legs")));
    assert_eq!(foo.duration, Duration::from_str("10m").unwrap());
    assert!(!foo.lap_each_segment);
    assert_eq!(foo.segments.len(), 5);
}

#[test]
fn test_shadow_interval_template_with_repeat() {
    let it_str = r#"
        name = "30on/30off"
        description = "30s on @ 1.2, 30s off @ .55"
        duration = "10m"
        lap_each_segment = true
        segments = [
          '30s@1.2',
          '30s@.55',
        ]
        repeat = 10
        "#;

    let tree: Value = toml::from_str(it_str).unwrap();
    let foo = ShadowIntervalTemplate::from_raw(&raw_interval(&tree)).unwrap();
    assert!(foo.validate().is_ok());
    assert_eq!(foo.name, String::from("30on/30off"));
    assert_eq!(foo.description, Some(String::from("30s on @ 1.2, 30s off @ .55")));
    assert_eq!(foo.duration, Duration::from_str("10m").unwrap());
    assert!(foo.lap_each_segment);
    assert_eq!(foo.segments.len(), 2);
    assert_eq!(foo.repeat, Some(Quantity(10)));
}

#[test]
fn test_shadow_interval_template_validate() {
    let it_str = r#"
        name = "Warmup"
        description = "Warming up the legs"
        duration = "10m"
        lap_each_segment = false
        segments = [
          '5m@100',
          '1m@110',
          '1m@120',
          '1m@130',
          '2m@100',
        ]"#;

    let tree: Value = toml::from_str(it_str).unwrap();
    let foo = ShadowIntervalTemplate::from_raw(&raw_interval(&tree)).unwrap();
    assert!(foo.validate().is_ok());
}

#[test]
fn test_segment() {
    // Test our use cases for writing out a segment.
    // Whitespace should be ignored.
    let seg_str = r#"
        segments = [
          '2m@.85',
          '3m@150',
          '2m30s @ .85',
          '3m4s @ 150',
          " 1h6m30s@ 150 ",
          { duration = '3m50s', power_start = 200, power_end = 250 },
          { duration = '30s', power_start = 0.55, power_end = 0.85 },
        ]"#;

    let tree: Value = toml::from_str(seg_str).unwrap();
    let segments: Vec<Segment> = tree
        .get("segments")
        .and_then(Value::as_array)
        .unwrap()
        .iter()
        .map(|value| Segment::from_raw(&raw_segment(value)).unwrap())
        .collect();

    assert_eq!(segments.len(), 7);
    assert_eq!(segments[0].duration, Duration(120));
    assert_eq!(segments[0].power_start, target_of(0.85));
    assert_eq!(segments[3].power_end, PowerTarget::Watts(150));
    assert_eq!(segments[4].duration, Duration(3600 + 6 * 60 + 30));
    assert_eq!(segments[5].power_start, PowerTarget::Watts(200));
    assert_eq!(segments[6].power_end, target_of(0.85));
}
