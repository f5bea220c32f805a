//! The structure of the overlapping neural mesh: its circuits, overlap
//! zones, per-neuron circuit memberships, input clamps and tick counter.
//!
//! The continuous neuron state is stepped elsewhere; this module keeps the
//! discrete bookkeeping that every step and every topology change relies on.

use vstd::prelude::*;
use crate::circuit::{Circuit, CircuitId};
use crate::overlap::OverlapZone;
use crate::topology::{
    count_in, flat_indices, lemma_count_append, lemma_count_push, memberships_within,
    scan_memberships, TopologyConstraint, TopologyError,
};

verus! {

/// The discrete structure of a mesh of `neuron_count` neurons.
#[derive(Debug)]
pub struct MeshStructure {
    /// Number of neurons in the mesh.
    pub neuron_count: usize,
    /// For each neuron, the number of circuits it currently belongs to.
    pub membership: Vec<u8>,
    /// All circuits (logical groupings), in the order they were added.
    pub circuits: Vec<Circuit>,
    /// Overlap zones between circuit pairs.
    pub overlap_zones: Vec<OverlapZone>,
    /// Topology constraint enforcer.
    pub topology: TopologyConstraint,
    /// Current simulation tick.
    pub tick: u64,
    /// Input-clamped neurons keep their externally set values during steps.
    pub clamped_neurons: Vec<bool>,
}

impl MeshStructure {
    /// The membership record matches the circuits: every neuron's count is
    /// the number of times the circuits name it.
    pub open spec fn wf(&self) -> bool {
        &&& self.membership@.len() == self.neuron_count
        &&& forall|i: int| 0 <= i < self.neuron_count ==>
            #[trigger] self.membership@[i] == count_in(flat_indices(self.circuits@), i as usize)
    }

    /// A mesh of `neuron_count` neurons with no circuits, no zones, no clamps.
    pub fn new(neuron_count: usize) -> (m: Self)
        ensures
            m.wf(),
            m.neuron_count == neuron_count,
            m.circuits@.len() == 0,
            m.overlap_zones@.len() == 0,
            m.topology.max_circuits_per_neuron == 2,
            m.tick == 0,
            m.clamped_neurons@.len() == neuron_count,
            forall|i: int| 0 <= i < neuron_count ==> !#[trigger] m.clamped_neurons@[i],
            forall|i: int| 0 <= i < neuron_count ==> #[trigger] m.membership@[i] == 0,
    {
        let mut membership: Vec<u8> = Vec::new();
        let mut clamped_neurons: Vec<bool> = Vec::new();
        let mut k: usize = 0;
        while k < neuron_count
            invariant
                k <= neuron_count,
                membership@.len() == k,
                clamped_neurons@.len() == k,
                forall|i: int| 0 <= i < k ==> membership@[i] == 0,
                forall|i: int| 0 <= i < k ==> !clamped_neurons@[i],
            decreases neuron_count - k,
        {
            membership.push(0u8);
            clamped_neurons.push(false);
            k += 1;
        }
        let m = MeshStructure {
            neuron_count,
            membership,
            circuits: Vec::new(),
            overlap_zones: Vec::new(),
            topology: TopologyConstraint::new(),
            tick: 0,
            clamped_neurons,
        };
        proof {
            assert(m.circuits@ =~= Seq::<Circuit>::empty());
            assert(flat_indices(m.circuits@) =~= Seq::<usize>::empty());
        }
        m
    }

    /// Add a circuit to the mesh, then validate the whole topology.
    ///
    /// Each in-bounds neuron the circuit names gains one membership per
    /// mention. The circuit is kept even when validation fails; the result
    /// reports the first violation. Membership counts must stay within a
    /// `u8`, and with a limit of 255 no neuron may be counted 256 times by
    /// the validation.
    pub fn add_circuit(&mut self, circuit: Circuit) -> (r: Result<(), TopologyError>)
        requires
            forall|i: usize| i < old(self).neuron_count && i < old(self).membership@.len() ==>
                old(self).membership@[i as int] + count_in(circuit.neuron_indices@, i) <= u8::MAX,
            old(self).topology.max_circuits_per_neuron < u8::MAX || !(scan_memberships(
                flat_indices(old(self).circuits@.push(circuit)),
                old(self).neuron_count,
                old(self).topology.max_circuits_per_neuron,
            ) matches Err(TopologyError::ExcessMembership { .. })),
        ensures
            old(self).wf() ==> final(self).wf(),
            final(self).membership@.len() == old(self).membership@.len(),
            forall|i: int| 0 <= i < old(self).membership@.len() ==>
                #[trigger] final(self).membership@[i] == old(self).membership@[i] + if i < old(self).neuron_count {
                    count_in(circuit.neuron_indices@, i as usize)
                } else {
                    0
                },
            final(self).circuits@ == old(self).circuits@.push(circuit),
            final(self).neuron_count == old(self).neuron_count,
            final(self).overlap_zones@ == old(self).overlap_zones@,
            final(self).topology == old(self).topology,
            final(self).tick == old(self).tick,
            final(self).clamped_neurons@ == old(self).clamped_neurons@,
            r == scan_memberships(flat_indices(final(self).circuits@), final(self).neuron_count,
                final(self).topology.max_circuits_per_neuron),
            r is Ok <==> memberships_within(flat_indices(final(self).circuits@), final(self).neuron_count,
                final(self).topology.max_circuits_per_neuron),
    {
        let n = self.neuron_count;
        let ghost added = circuit.neuron_indices@;
        let mut j: usize = 0;
        proof {
            assert(added.take(0) =~= Seq::<usize>::empty());
        }
        while j < circuit.neuron_indices.len()
            invariant
                j <= added.len(),
                added == circuit.neuron_indices@,
                n == self.neuron_count,
                self.membership@.len() == old(self).membership@.len(),
                self.circuits@ == old(self).circuits@,
                self.neuron_count == old(self).neuron_count,
                self.overlap_zones@ == old(self).overlap_zones@,
                self.topology == old(self).topology,
                self.tick == old(self).tick,
                self.clamped_neurons@ == old(self).clamped_neurons@,
                forall|i: usize| i < n && i < old(self).membership@.len() ==>
                    old(self).membership@[i as int] + count_in(added, i) <= u8::MAX,
                forall|i: int| 0 <= i < self.membership@.len() ==>
                    #[trigger] self.membership@[i] == old(self).membership@[i] + if i < n {
                        count_in(added.take(j as int), i as usize)
                    } else {
                        0
                    },
            decreases added.len() - j,
        {
            let idx = circuit.neuron_indices[j];
            proof {
                assert(added.take(j as int + 1) =~= added.take(j as int).push(idx));
                assert forall|i: int| 0 <= i < self.membership@.len() implies
                    #[trigger] count_in(added.take(j as int + 1), i as usize)
                        == count_in(added.take(j as int), i as usize) + if idx == i as usize { 1nat } else { 0nat } by {
                    lemma_count_push(added.take(j as int), idx, i as usize);
                }
            }
            if idx < n && idx < self.membership.len() {
                proof {
                    let rest = added.skip(j as int + 1);
                    assert(added =~= added.take(j as int + 1) + rest);
                    lemma_count_append(added.take(j as int + 1), rest, idx);
                }
                self.membership.set(idx, self.membership[idx] + 1);
            }
            j += 1;
        }
        proof {
            assert(added.take(j as int) =~= added);
        }
        let ghost old_flat = flat_indices(self.circuits@);
        self.circuits.push(circuit);
        proof {
            assert(self.circuits@.drop_last() =~= old(self).circuits@);
            assert(flat_indices(self.circuits@) == old_flat + added);
            if old(self).wf() {
                assert forall|i: int| 0 <= i < n implies
                    #[trigger] self.membership@[i] == count_in(flat_indices(self.circuits@), i as usize) by {
                    lemma_count_append(old_flat, added, i as usize);
                }
            }
        }
        self.topology.validate(self.neuron_count, self.circuits.as_slice())
    }

    /// The position of the first circuit with the given ID, if any.
    pub fn circuit_position(&self, id: CircuitId) -> (r: Option<usize>)
        ensures
            match r {
                Some(k) => k < self.circuits@.len() && self.circuits@[k as int].id == id
                    && forall|j: int| 0 <= j < k ==> #[trigger] self.circuits@[j].id != id,
                None => forall|j: int| 0 <= j < self.circuits@.len() ==> #[trigger] self.circuits@[j].id != id,
            },
    {
        let mut k: usize = 0;
        while k < self.circuits.len()
            invariant
                k <= self.circuits@.len(),
                forall|j: int| 0 <= j < k ==> #[trigger] self.circuits@[j].id != id,
            decreases self.circuits@.len() - k,
        {
            if self.circuits[k].id == id {
                return Some(k);
            }
            k += 1;
        }
        None
    }

    /// The first circuit with the given ID, if any.
    pub fn circuit_by_id(&self, id: CircuitId) -> (r: Option<&Circuit>)
        ensures
            match r {
                Some(c) => exists|k: int| 0 <= k < self.circuits@.len() && self.circuits@[k].id == id
                    && (forall|j: int| 0 <= j < k ==> #[trigger] self.circuits@[j].id != id)
                    && *c == self.circuits@[k],
                None => forall|j: int| 0 <= j < self.circuits@.len() ==> #[trigger] self.circuits@[j].id != id,
            },
    {
        match self.circuit_position(id) {
            Some(k) => Some(&self.circuits[k]),
            None => None,
        }
    }

    /// Whether neuron `i` is clamped to its externally set value.
    pub fn is_clamped(&self, i: usize) -> (r: bool)
        ensures
            r == (i < self.clamped_neurons@.len() && self.clamped_neurons@[i as int]),
    {
        i < self.clamped_neurons.len() && self.clamped_neurons[i]
    }

    /// Count one more step of the mesh.
    pub fn advance_tick(&mut self)
        requires
            old(self).tick < u64::MAX,
        ensures
            final(self).tick == old(self).tick + 1,
            final(self).circuits@ == old(self).circuits@,
            final(self).membership@ == old(self).membership@,
            final(self).neuron_count == old(self).neuron_count,
            final(self).clamped_neurons@ == old(self).clamped_neurons@,
            final(self).overlap_zones@ == old(self).overlap_zones@,
            final(self).topology == old(self).topology,
    {
        self.tick = self.tick + 1;
    }

    /// Clamp the given neurons, so that they keep their externally set
    /// values during steps. Indices past the clamp record are ignored; the
    /// other clamps stay as they were.
    pub fn clamp_neurons(&mut self, indices: &[usize])
        ensures
            final(self).clamped_neurons@.len() == old(self).clamped_neurons@.len(),
            forall|i: int| 0 <= i < old(self).clamped_neurons@.len() ==>
                #[trigger] final(self).clamped_neurons@[i] == (old(self).clamped_neurons@[i] || indices@.contains(i as usize)),
            final(self).circuits@ == old(self).circuits@,
            final(self).membership@ == old(self).membership@,
            final(self).neuron_count == old(self).neuron_count,
            final(self).overlap_zones@ == old(self).overlap_zones@,
            final(self).topology == old(self).topology,
            final(self).tick == old(self).tick,
    {
        let len = self.clamped_neurons.len();
        let mut k: usize = 0;
        while k < indices.len()
            invariant
                k <= indices@.len(),
                len == self.clamped_neurons@.len(),
                len == old(self).clamped_neurons@.len(),
                forall|i: int| 0 <= i < len ==>
                    #[trigger] self.clamped_neurons@[i] == (old(self).clamped_neurons@[i] || indices@.take(k as int).contains(i as usize)),
                self.circuits@ == old(self).circuits@,
                self.membership@ == old(self).membership@,
                self.neuron_count == old(self).neuron_count,
                self.overlap_zones@ == old(self).overlap_zones@,
                self.topology == old(self).topology,
                self.tick == old(self).tick,
            decreases indices@.len() - k,
        {
            let idx = indices[k];
            proof {
                assert(indices@.take(k as int + 1) =~= indices@.take(k as int).push(idx));
                assert forall|i: int| 0 <= i < len implies
                    #[trigger] indices@.take(k as int + 1).contains(i as usize)
                        == (indices@.take(k as int).contains(i as usize) || idx == i as usize) by {
                    if indices@.take(k as int + 1).contains(i as usize) {
                        let j = choose|j: int| 0 <= j < k + 1 && #[trigger] indices@.take(k as int + 1)[j] == i as usize;
                        if j < k {
                            assert(indices@.take(k as int)[j] == i as usize);
                        }
                    }
                    if indices@.take(k as int).contains(i as usize) {
                        let j = choose|j: int| 0 <= j < k && #[trigger] indices@.take(k as int)[j] == i as usize;
                        assert(indices@.take(k as int + 1)[j] == i as usize);
                    }
                    if idx == i as usize {
                        assert(indices@.take(k as int + 1)[k as int] == i as usize);
                    }
                }
            }
            if idx < len {
                self.clamped_neurons.set(idx, true);
            }
            k += 1;
        }
        proof {
            assert(indices@.take(indices@.len() as int) =~= indices@);
        }
    }

    /// Release every input clamp and restart the tick counter.
    pub fn reset_activations(&mut self)
        ensures
            final(self).tick == 0,
            final(self).clamped_neurons@.len() == old(self).clamped_neurons@.len(),
            forall|i: int| 0 <= i < final(self).clamped_neurons@.len() ==> !#[trigger] final(self).clamped_neurons@[i],
            final(self).circuits@ == old(self).circuits@,
            final(self).membership@ == old(self).membership@,
            final(self).neuron_count == old(self).neuron_count,
            final(self).overlap_zones@ == old(self).overlap_zones@,
            final(self).topology == old(self).topology,
    {
        let len = self.clamped_neurons.len();
        let mut k: usize = 0;
        while k < len
            invariant
                k <= len,
                len == self.clamped_neurons@.len(),
                len == old(self).clamped_neurons@.len(),
                forall|i: int| 0 <= i < k ==> !#[trigger] self.clamped_neurons@[i],
                self.circuits@ == old(self).circuits@,
                self.membership@ == old(self).membership@,
                self.neuron_count == old(self).neuron_count,
                self.overlap_zones@ == old(self).overlap_zones@,
                self.topology == old(self).topology,
            decreases len - k,
        {
            self.clamped_neurons.set(k, false);
            k += 1;
        }
        self.tick = 0;
    }
}

/// In a mesh whose topology validates, no neuron belongs to more circuits
/// than the limit (at most two with the standard constraint).
pub proof fn law_valid_mesh_membership_within_limit(m: &MeshStructure)
    requires
        m.wf(),
        scan_memberships(flat_indices(m.circuits@), m.neuron_count, m.topology.max_circuits_per_neuron) is Ok,
    ensures
        forall|i: int| 0 <= i < m.neuron_count ==> #[trigger] m.membership@[i] <= m.topology.max_circuits_per_neuron,
{
    crate::topology::law_accepted_topology_counts_within_limit(m.circuits@, m.neuron_count, m.topology.max_circuits_per_neuron);
    assert forall|i: int| 0 <= i < m.neuron_count implies #[trigger] m.membership@[i] <= m.topology.max_circuits_per_neuron by {
        assert(count_in(flat_indices(m.circuits@), i as usize) <= m.topology.max_circuits_per_neuron);
    }
}

} // verus!
