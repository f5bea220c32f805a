//! Where encoded WITS features enter the mesh.

use vstd::prelude::*;
use crate::circuit::{Circuit, CircuitType};

verus! {

/// Number of normalised WITS features fed to the mesh.
pub const FEATURE_COUNT: usize = 14;

/// The (neuron, feature) pairs of one circuit: its `k`-th neuron receives
/// feature `k`, for every feature the circuit has a neuron for.
pub open spec fn circuit_input_targets(c: Circuit, features: nat) -> Seq<(usize, usize)> {
    let n = if c.neuron_indices@.len() < features { c.neuron_indices@.len() } else { features };
    Seq::new(n, |k: int| (c.neuron_indices@[k], k as usize))
}

/// The (neuron, feature) pairs of all detection circuits, circuit after circuit.
pub open spec fn input_targets_of(circuits: Seq<Circuit>, features: nat) -> Seq<(usize, usize)>
    decreases circuits.len(),
{
    if circuits.len() == 0 {
        Seq::empty()
    } else {
        input_targets_of(circuits.drop_last(), features) + if circuits.last().circuit_type == CircuitType::Detection {
            circuit_input_targets(circuits.last(), features)
        } else {
            Seq::empty()
        }
    }
}

/// The input neurons of the mesh: the first neurons of each detection
/// circuit, where the `k`-th receives feature `k` (of `feature_count`).
/// Returns (neuron index, feature index) pairs in the order they are written.
pub fn input_targets(circuits: &[Circuit], feature_count: usize) -> (r: Vec<(usize, usize)>)
    ensures
        r@ == input_targets_of(circuits@, feature_count as nat),
{
    let mut r: Vec<(usize, usize)> = Vec::new();
    let mut ci: usize = 0;
    proof {
        assert(circuits@.take(0) =~= Seq::<Circuit>::empty());
    }
    while ci < circuits.len()
        invariant
            ci <= circuits@.len(),
            r@ == input_targets_of(circuits@.take(ci as int), feature_count as nat),
        decreases circuits@.len() - ci,
    {
        proof {
            assert(circuits@.take(ci as int + 1).drop_last() =~= circuits@.take(ci as int));
        }
        let circuit = &circuits[ci];
        if circuit.circuit_type == CircuitType::Detection {
            let ghost before = r@;
            let mut i: usize = 0;
            while i < feature_count && i < circuit.neuron_indices.len()
                invariant
                    i <= feature_count,
                    i <= circuit.neuron_indices@.len(),
                    r@ == before + circuit_input_targets(*circuit, feature_count as nat).take(i as int),
                decreases feature_count - i,
            {
                r.push((circuit.neuron_indices[i], i));
                i += 1;
                assert(r@ =~= before + circuit_input_targets(*circuit, feature_count as nat).take(i as int));
            }
            assert(circuit_input_targets(*circuit, feature_count as nat).take(i as int)
                =~= circuit_input_targets(*circuit, feature_count as nat));
        } else {
            assert(r@ + Seq::<(usize, usize)>::empty() =~= r@);
        }
        ci += 1;
    }
    assert(circuits@.take(circuits@.len() as int) =~= circuits@);
    r
}

} // verus!
