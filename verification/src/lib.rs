//! Core of a weekly schedule notifier: an in-memory schedule kept in sync
//! with a JSON document, and a polling notification state machine that
//! decides when a task's alert fires, at most once per schedule generation.

pub mod alarm;
pub mod clock;
pub mod controller;
pub mod day;
pub mod engine;
pub mod json;
pub mod loader;
pub mod schedule;
pub mod task;
pub mod text;
