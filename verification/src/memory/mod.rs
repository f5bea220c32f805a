//! Memory: what the causation circuits concluded about an event.

pub mod episodic;

pub use episodic::DiagnosisType;
