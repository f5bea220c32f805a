//! Training: labelling rules, adapter wiring, freeze rules, shuffling.

pub mod data;
pub mod init;
pub mod optimizer;
pub mod pipeline;
pub mod sources;
pub mod synthetic;

pub use synthetic::AnomalyType;
