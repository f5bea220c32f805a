//! Circuits: named groups of neurons with a function and a criticality.

use vstd::prelude::*;

verus! {

broadcast use vstd::string::group_string_axioms;

/// Unique identifier for a circuit.
pub type CircuitId = u32;

/// What function a circuit performs.
#[derive(Debug, Clone, Copy, PartialEq, Eq, Structural)]
pub enum CircuitType {
    /// Fast anomaly detection.
    Detection,
    /// Root cause analysis.
    Causation,
    /// Forward state projection.
    Prediction,
    /// Working memory (short/medium/long).
    Memory,
}

/// Safety criticality level, used for the output-level safety override.
#[derive(Debug, Clone, Copy, PartialEq, Eq, Structural)]
pub enum CircuitCriticality {
    /// Safety-critical circuit (detection, causation).
    Safety,
    /// Performance circuit (memory, prediction).
    Performance,
}

/// The structure of a circuit: which neurons it reads and writes, what it
/// does, and whether its weights are frozen.
#[derive(Debug)]
pub struct Circuit {
    /// Unique identifier.
    pub id: CircuitId,
    /// Human-readable name (e.g. "kick_detection").
    pub name: String,
    /// Which neurons this circuit reads and writes.
    pub neuron_indices: Vec<usize>,
    /// Circuit function type.
    pub circuit_type: CircuitType,
    /// Criticality level.
    pub criticality: CircuitCriticality,
    /// Whether this circuit's weights are frozen.
    pub frozen: bool,
}

/// The last `count` positions of a sequence of `n` neuron indices, or all
/// of them when there are fewer: the window a readout looks at.
pub open spec fn readout_start(n: int, count: int) -> int {
    if n > count { n - count } else { 0 }
}

impl Circuit {
    /// Create a new, unfrozen circuit.
    pub fn new(
        id: CircuitId,
        name: &str,
        neuron_indices: Vec<usize>,
        circuit_type: CircuitType,
        criticality: CircuitCriticality,
    ) -> (c: Self)
        ensures
            c.id == id,
            c.name@ == name@,
            c.neuron_indices@ == neuron_indices@,
            c.circuit_type == circuit_type,
            c.criticality == criticality,
            !c.frozen,
    {
        Circuit {
            id,
            name: name.to_string(),
            neuron_indices,
            circuit_type,
            criticality,
            frozen: false,
        }
    }

    /// The readout neurons of this circuit: its last `count` neuron indices,
    /// or all of them when the circuit has fewer.
    pub fn readout_indices(&self, count: usize) -> (r: Vec<usize>)
        ensures
            r@ == self.neuron_indices@.subrange(
                readout_start(self.neuron_indices@.len() as int, count as int),
                self.neuron_indices@.len() as int,
            ),
    {
        let n = self.neuron_indices.len();
        let start = if n > count { n - count } else { 0 };
        let mut r: Vec<usize> = Vec::new();
        let mut k: usize = start;
        while k < n
            invariant
                start <= k <= n,
                n == self.neuron_indices@.len(),
                start == readout_start(n as int, count as int),
                r@ == self.neuron_indices@.subrange(start as int, k as int),
            decreases n - k,
        {
            r.push(self.neuron_indices[k]);
            k += 1;
            assert(r@ =~= self.neuron_indices@.subrange(start as int, k as int));
        }
        r
    }
}

} // verus!
