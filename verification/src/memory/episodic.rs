//! Diagnoses recorded with episodes of the episodic store.

use vstd::prelude::*;

verus! {

/// What the causation circuits concluded.
#[derive(Debug, Clone, PartialEq, Eq)]
pub enum DiagnosisType {
    KickDetected,
    LossDetected,
    PackOff,
    StickSlip,
    FounderCondition,
    MSEInefficiency,
    FormationChange,
    EquipmentAnomaly(String),
    Unknown,
}

} // verus!
