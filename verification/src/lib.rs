//! Core of a sampling profiler: a bounded staging buffer for captured stack
//! samples, deduplicated function and location tables, the scheduler's state
//! machine, and the profile document that a run produces.

pub mod model;
pub mod profile;
pub mod sample;
pub mod serializer;
pub mod signal_scheduler;
pub mod tables;
pub mod theorems;
