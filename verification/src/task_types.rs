//! Generators for the kinds of generated tasks.
pub mod fuzzer_tasks;
