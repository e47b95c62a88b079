//! The decisions of an indoor-cycling trainer, verified: a small language
//! for structured workouts is read, checked and resolved into a library of
//! intervals and workouts, and the rider profiles of the application are
//! kept.
//!
//! A workout definition is written in terms of durations (`1h10m30s`), power
//! targets (`200` watts, or `0.85` of the rider's FTP), segments
//! (`20m@.85`), intervals of segments, and workouts that list intervals by
//! name, inline, or by name with overrides. `library::Library` loads
//! documents of such definitions entry by entry and reports each entry that
//! it has to skip.

pub mod application;
pub mod duration;
pub mod error;
pub mod interval;
pub mod library;
pub mod power;
pub mod reference;
pub mod registry;
pub mod roster;
pub mod segment;
pub mod text;
pub mod types;
pub mod user_profile;
pub mod workout;
