//! Overlap zones between circuits.
//!
//! An overlap zone names the neurons shared by exactly two circuits. The
//! learned soft masks that regularise those neurons live with the numeric
//! state of the mesh; this module holds the structure of the zone and the
//! selections made on it.

use vstd::prelude::*;
use crate::circuit::CircuitId;

verus! {

/// The structure of an overlap between exactly two circuits.
#[derive(Debug)]
pub struct OverlapZone {
    /// First circuit sharing neurons in this zone.
    pub circuit_a: CircuitId,
    /// Second circuit sharing neurons in this zone.
    pub circuit_b: CircuitId,
    /// Neuron indices that belong to both circuits.
    pub shared_neuron_indices: Vec<usize>,
}

/// The elements of `s` whose flag is set, in their original order; `flags`
/// is read position by position alongside `s`, and an element with no flag
/// (past the end of `flags`) is left out.
pub open spec fn flagged(s: Seq<usize>, flags: Seq<bool>) -> Seq<usize>
    decreases s.len(),
{
    if s.len() == 0 {
        Seq::empty()
    } else if s.len() - 1 < flags.len() && flags[s.len() - 1] {
        flagged(s.drop_last(), flags).push(s.last())
    } else {
        flagged(s.drop_last(), flags)
    }
}

/// Whether a zone between `a` and `b` joins circuits `x` and `y`, in either order.
pub open spec fn joins(a: CircuitId, b: CircuitId, x: CircuitId, y: CircuitId) -> bool {
    (a == x && b == y) || (a == y && b == x)
}

proof fn lemma_flagged_step(s: Seq<usize>, flags: Seq<bool>, k: int)
    requires
        0 <= k < s.len(),
    ensures
        flagged(s.take(k + 1), flags) == if k < flags.len() && flags[k] {
            flagged(s.take(k), flags).push(s[k])
        } else {
            flagged(s.take(k), flags)
        },
{
    assert(s.take(k + 1).drop_last() =~= s.take(k));
}

/// Keep the elements of `s` whose flag is set, in order; `flags` is read
/// alongside `s`, and elements past the end of `flags` are dropped.
pub fn select_flagged(s: &Vec<usize>, flags: &Vec<bool>) -> (r: Vec<usize>)
    ensures
        r@ == flagged(s@, flags@),
{
    let mut r: Vec<usize> = Vec::new();
    let mut k: usize = 0;
    proof {
        assert(s@.take(0) =~= Seq::<usize>::empty());
    }
    while k < s.len()
        invariant
            k <= s@.len(),
            r@ == flagged(s@.take(k as int), flags@),
        decreases s@.len() - k,
    {
        proof {
            lemma_flagged_step(s@, flags@, k as int);
        }
        if k < flags.len() && flags[k] {
            r.push(s[k]);
        }
        k += 1;
    }
    proof {
        assert(s@.take(s@.len() as int) =~= s@);
    }
    r
}

impl OverlapZone {
    /// Create a new overlap zone between two circuits.
    pub fn new(circuit_a: CircuitId, circuit_b: CircuitId, shared_neuron_indices: Vec<usize>) -> (z: Self)
        ensures
            z.circuit_a == circuit_a,
            z.circuit_b == circuit_b,
            z.shared_neuron_indices@ == shared_neuron_indices@,
    {
        OverlapZone { circuit_a, circuit_b, shared_neuron_indices }
    }

    /// The shared neurons whose flag is set; `active` is read alongside the
    /// shared neurons (a flag per neuron, set where its mask passes the
    /// threshold), and neurons without a flag are left out.
    pub fn active_neuron_indices(&self, active: &Vec<bool>) -> (r: Vec<usize>)
        ensures
            r@ == flagged(self.shared_neuron_indices@, active@),
    {
        select_flagged(&self.shared_neuron_indices, active)
    }

    /// Drop the shared neurons whose flag is not set (pruning).
    pub fn retain_shared(&mut self, keep: &Vec<bool>)
        requires
            keep@.len() == old(self).shared_neuron_indices@.len(),
        ensures
            final(self).shared_neuron_indices@ == flagged(old(self).shared_neuron_indices@, keep@),
            final(self).circuit_a == old(self).circuit_a,
            final(self).circuit_b == old(self).circuit_b,
    {
        let kept = select_flagged(&self.shared_neuron_indices, keep);
        self.shared_neuron_indices = kept;
    }

    /// Check if this zone connects the given pair of circuit IDs (order-independent).
    pub fn connects(&self, a: CircuitId, b: CircuitId) -> (r: bool)
        ensures
            r == joins(self.circuit_a, self.circuit_b, a, b),
    {
        (self.circuit_a == a && self.circuit_b == b) || (self.circuit_a == b && self.circuit_b == a)
    }
}

/// Whether a zone connects two circuits does not depend on the order in
/// which the two circuits are named.
pub proof fn law_connects_order_independent(zone: &OverlapZone, a: CircuitId, b: CircuitId)
    ensures
        joins(zone.circuit_a, zone.circuit_b, a, b) == joins(zone.circuit_a, zone.circuit_b, b, a),
{
}

} // verus!
