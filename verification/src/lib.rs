//! Benchmark commands for the internal operations of the Jujutsu version control system.
//!
//! - [`args`]: the commands and their arguments.
//! - [`settings`]: how the benchmark runner is set up.
//! - [`hex_prefix`]: prefixes of commit ids.
//! - [`text`]: files that list revsets, and numbers.
//! - [`report`]: the names of benchmarks and the lines that are printed.
//! - [`session`]: what a command does, step by step.
//! - [`laws`], [`laws_of_calls`], [`laws_of_runs`], [`laws_of_text`], [`laws_of_values`]: what holds
//!   of all of these together.

pub mod args;
pub mod hex_prefix;
pub mod laws;
pub mod laws_of_calls;
pub mod laws_of_runs;
pub mod laws_of_text;
pub mod laws_of_values;
pub mod report;
pub mod session;
pub mod settings;
pub mod text;
