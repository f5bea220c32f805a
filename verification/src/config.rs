//! Execution mode of the mesh.

use vstd::prelude::*;

verus! {

/// Execution mode of the mesh.
#[derive(Debug, Clone, Copy, PartialEq, Eq, Structural)]
pub enum DegradationMode {
    /// All systems nominal.
    Full,
    /// Reduced accuracy: some circuits frozen or bypassed.
    Degraded,
    /// Minimum viable: only safety-critical detection.
    Minimal,
}

impl Default for DegradationMode {
    fn default() -> (m: Self)
        ensures
            m == DegradationMode::Full,
    {
        DegradationMode::Full
    }
}

} // verus!
