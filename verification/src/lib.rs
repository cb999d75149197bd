//! The core of a telemetry monitor: the polling state machine, the parser of
//! the sensor log and the statistics behind the per-field report.
pub mod config;
pub mod double;
pub mod error;
pub mod fetch;
pub mod format;
pub mod order;
pub mod parse;
pub mod poll;
pub mod report;
pub mod stats;
pub mod summary;
pub mod text;
