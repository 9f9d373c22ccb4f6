//! Run one external command in every immediate subdirectory of a parent
//! directory, with bounded concurrency, an optional per-invocation timeout,
//! an ignore list of excluded subdirectories, and either streaming text
//! output or one aggregated, path-keyed report.
//!
//! This crate holds the verified orchestration logic: splitting the command
//! line, resolving ignore entries, admitting directory entries, classifying
//! what became of each spawned process, bounding concurrency, aggregating
//! results, and rendering the streaming output. The unverified binary around
//! it performs the filesystem reads, process spawns and channel writes, and
//! feeds their outcomes to these functions as plain values.
pub mod config;
pub mod errors;
pub mod json;
pub mod limiter;
pub mod run;
pub mod stream;
