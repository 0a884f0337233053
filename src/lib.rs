//! Wakuchin research engine: the decisions of a run over many random trials,
//! which counts the trials that a pattern matches and reports progress.

pub mod diff_store;
pub mod hit_counter;
pub mod pattern;
pub mod plan;
pub mod progress;
pub mod render;
pub mod run;
pub mod worker;
pub mod result;
