//! Mesh input and output: where features enter, severities, risk levels,
//! and the summary of detections over a run.

pub mod encoding;
pub mod output;
pub mod summary;

pub use output::{RiskLevel, Severity};
