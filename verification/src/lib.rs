//! Analysis of build-profile reports: extraction of task timing data from
//! semi-structured markup text and derivation of a ranked performance summary.

pub mod models;
pub mod scan;
pub mod duration;
pub mod parser;
pub mod analyzer;
pub mod report;
pub mod laws;
