//! Periodic reachability checks of a set of URLs: wall-clock aligned
//! scheduling, classification of probe outcomes, and the encodings of a
//! batch of results for the CSV and JSON-lines logs.

pub mod schedule;
pub mod models;
pub mod checker;
pub mod config;
pub mod csv_log;
pub mod json_lines;
