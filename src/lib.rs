//! Reconciles several project schedules into one task list, keyed by the
//! work-breakdown-structure (WBS) code of each task.

pub mod text;
pub mod task;
pub mod calendar;
pub mod mspdi;
pub mod import;
pub mod sheet;
pub mod export;
pub mod workset;
pub mod merge;
pub mod laws;
