//! Which neurons an optimizer step may not touch.

use vstd::prelude::*;
use crate::circuit::{Circuit, CircuitId};

verus! {

/// `id` occurs in `ids`.
pub open spec fn has_id(ids: Seq<CircuitId>, id: CircuitId) -> bool {
    exists|k: int| 0 <= k < ids.len() && ids[k] == id
}

/// A circuit is frozen for a step when it is named in `frozen_ids` or is
/// marked frozen itself.
pub open spec fn circuit_frozen_for(c: Circuit, frozen_ids: Seq<CircuitId>) -> bool {
    has_id(frozen_ids, c.id) || c.frozen
}

/// The neurons of all circuits frozen for a step, circuit after circuit.
pub open spec fn frozen_neurons_of(circuits: Seq<Circuit>, frozen_ids: Seq<CircuitId>) -> Seq<usize>
    decreases circuits.len(),
{
    if circuits.len() == 0 {
        Seq::empty()
    } else {
        frozen_neurons_of(circuits.drop_last(), frozen_ids) + if circuit_frozen_for(circuits.last(), frozen_ids) {
            circuits.last().neuron_indices@
        } else {
            Seq::empty()
        }
    }
}

/// Every neuron of every circuit frozen for a step is one of `count` neurons.
pub open spec fn frozen_in_bounds(circuits: Seq<Circuit>, frozen_ids: Seq<CircuitId>, count: nat) -> bool {
    forall|ci: int, p: int| 0 <= ci < circuits.len() && circuit_frozen_for(circuits[ci], frozen_ids)
        && 0 <= p < circuits[ci].neuron_indices@.len() ==> #[trigger] circuits[ci].neuron_indices@[p] < count
}

fn contains_id(ids: &[CircuitId], id: CircuitId) -> (r: bool)
    ensures
        r == has_id(ids@, id),
{
    let mut k: usize = 0;
    while k < ids.len()
        invariant
            k <= ids@.len(),
            forall|j: int| 0 <= j < k ==> ids@[j] != id,
        decreases ids@.len() - k,
    {
        if ids[k] == id {
            return true;
        }
        k += 1;
    }
    false
}

proof fn lemma_contains_push(s: Seq<usize>, x: usize, i: usize)
    ensures
        s.push(x).contains(i) <==> (s.contains(i) || x == i),
{
    if s.contains(i) {
        let k = choose|k: int| 0 <= k < s.len() && s[k] == i;
        assert(s.push(x)[k] == i);
    }
    if x == i {
        assert(s.push(x)[s.len() as int] == i);
    }
    if s.push(x).contains(i) {
        let k = choose|k: int| 0 <= k < s.push(x).len() && s.push(x)[k] == i;
        if k < s.len() {
            assert(s[k] == i);
        }
    }
}

/// For each of `neuron_count` neurons, whether it belongs to a circuit that
/// is frozen for this step (named in `frozen_ids` or marked frozen).
pub fn frozen_neuron_mask(neuron_count: usize, circuits: &[Circuit], frozen_ids: &[CircuitId]) -> (mask: Vec<bool>)
    requires
        frozen_in_bounds(circuits@, frozen_ids@, neuron_count as nat),
    ensures
        mask@.len() == neuron_count,
        forall|i: int| 0 <= i < neuron_count ==>
            #[trigger] mask@[i] == frozen_neurons_of(circuits@, frozen_ids@).contains(i as usize),
{
    let mut mask: Vec<bool> = Vec::new();
    let mut z: usize = 0;
    while z < neuron_count
        invariant
            z <= neuron_count,
            mask@.len() == z,
            forall|i: int| 0 <= i < z ==> !mask@[i],
        decreases neuron_count - z,
    {
        mask.push(false);
        z += 1;
    }
    proof {
        assert(circuits@.take(0) =~= Seq::<Circuit>::empty());
    }
    let mut ci: usize = 0;
    while ci < circuits.len()
        invariant
            ci <= circuits@.len(),
            frozen_in_bounds(circuits@, frozen_ids@, neuron_count as nat),
            mask@.len() == neuron_count,
            forall|i: int| 0 <= i < neuron_count ==>
                #[trigger] mask@[i] == frozen_neurons_of(circuits@.take(ci as int), frozen_ids@).contains(i as usize),
        decreases circuits@.len() - ci,
    {
        let ghost before = frozen_neurons_of(circuits@.take(ci as int), frozen_ids@);
        proof {
            assert(circuits@.take(ci as int + 1).drop_last() =~= circuits@.take(ci as int));
        }
        let circuit = &circuits[ci];
        if contains_id(frozen_ids, circuit.id) || circuit.frozen {
            let indices = &circuit.neuron_indices;
            let mut j: usize = 0;
            proof {
                assert(before + indices@.take(0) =~= before);
            }
            while j < indices.len()
                invariant
                    j <= indices@.len(),
                    ci < circuits@.len(),
                    indices@ == circuits@[ci as int].neuron_indices@,
                    circuit_frozen_for(circuits@[ci as int], frozen_ids@),
                    frozen_in_bounds(circuits@, frozen_ids@, neuron_count as nat),
                    mask@.len() == neuron_count,
                    forall|i: int| 0 <= i < neuron_count ==>
                        #[trigger] mask@[i] == (before + indices@.take(j as int)).contains(i as usize),
                decreases indices@.len() - j,
            {
                let idx = indices[j];
                proof {
                    assert(circuits@[ci as int].neuron_indices@[j as int] < neuron_count);
                    assert(before + indices@.take(j as int + 1) =~= (before + indices@.take(j as int)).push(idx));
                    assert forall|i: int| 0 <= i < neuron_count implies
                        #[trigger] (before + indices@.take(j as int + 1)).contains(i as usize)
                            == ((before + indices@.take(j as int)).contains(i as usize) || idx == i as usize) by {
                        lemma_contains_push(before + indices@.take(j as int), idx, i as usize);
                    }
                }
                mask[idx] = true;
                j += 1;
            }
            proof {
                assert(indices@.take(j as int) =~= indices@);
            }
        } else {
            proof {
                assert(before + Seq::<usize>::empty() =~= before);
            }
        }
        ci += 1;
    }
    proof {
        assert(circuits@.take(circuits@.len() as int) =~= circuits@);
    }
    mask
}

/// A circuit marked frozen (as every universal circuit is once training
/// ends) has all its neurons frozen in every optimizer step, whatever
/// circuits the step itself names.
pub proof fn law_frozen_circuit_neurons_never_update(
    circuits: Seq<Circuit>,
    frozen_ids: Seq<CircuitId>,
    ci: int,
    p: int,
)
    requires
        0 <= ci < circuits.len(),
        circuits[ci].frozen,
        0 <= p < circuits[ci].neuron_indices@.len(),
    ensures
        frozen_neurons_of(circuits, frozen_ids).contains(circuits[ci].neuron_indices@[p]),
    decreases circuits.len(),
{
    let d = circuits.drop_last();
    let fd = frozen_neurons_of(d, frozen_ids);
    let x = circuits[ci].neuron_indices@[p];
    if ci == circuits.len() - 1 {
        assert(frozen_neurons_of(circuits, frozen_ids)[fd.len() + p] == x);
    } else {
        assert(d[ci] == circuits[ci]);
        law_frozen_circuit_neurons_never_update(d, frozen_ids, ci, p);
        let k = choose|k: int| 0 <= k < fd.len() && fd[k] == x;
        assert(frozen_neurons_of(circuits, frozen_ids)[k] == x);
    }
}

/// The sum of the first `n` entries of `counts`.
pub open spec fn sum_prefix(counts: Seq<usize>, n: int) -> int
    decreases n,
{
    if n <= 0 || n > counts.len() { 0 } else { sum_prefix(counts, n - 1) + counts[n - 1] }
}

proof fn lemma_sum_prefix_nonneg(counts: Seq<usize>, n: int)
    ensures
        0 <= sum_prefix(counts, n),
    decreases n,
{
    if 0 < n <= counts.len() {
        lemma_sum_prefix_nonneg(counts, n - 1);
    }
}

proof fn lemma_sum_prefix_monotone(counts: Seq<usize>, a: int, b: int)
    requires
        0 <= a <= b <= counts.len(),
    ensures
        0 <= sum_prefix(counts, a) <= sum_prefix(counts, b),
    decreases b - a,
{
    if a < b {
        lemma_sum_prefix_monotone(counts, a, b - 1);
    } else {
        lemma_sum_prefix_nonneg(counts, a);
    }
}

/// Where each neuron's parameters start in the flattened optimizer state:
/// neuron `i` owns the `counts[i]` slots from `r[i]` on, right after those
/// of neuron `i - 1`.
pub fn parameter_offsets(counts: &[usize]) -> (r: Vec<usize>)
    requires
        sum_prefix(counts@, counts@.len() as int) <= usize::MAX,
    ensures
        r@.len() == counts@.len(),
        forall|i: int| 0 <= i < counts@.len() ==> #[trigger] r@[i] == sum_prefix(counts@, i),
{
    let mut r: Vec<usize> = Vec::new();
    let mut total: usize = 0;
    let mut i: usize = 0;
    while i < counts.len()
        invariant
            i <= counts@.len(),
            sum_prefix(counts@, counts@.len() as int) <= usize::MAX,
            total == sum_prefix(counts@, i as int),
            r@.len() == i,
            forall|k: int| 0 <= k < i ==> #[trigger] r@[k] == sum_prefix(counts@, k),
        decreases counts@.len() - i,
    {
        proof {
            lemma_sum_prefix_monotone(counts@, i as int + 1, counts@.len() as int);
        }
        r.push(total);
        total = total + counts[i];
        i += 1;
    }
    r
}

/// The slots of the flattened optimizer state are shared out without gap or
/// overlap: each neuron's block ends where the next one's starts, and every
/// block lies below the total.
pub proof fn law_parameter_slots_tile_the_state(counts: Seq<usize>, i: int)
    requires
        0 <= i < counts.len(),
    ensures
        sum_prefix(counts, i) + counts[i] == sum_prefix(counts, i + 1),
        sum_prefix(counts, i + 1) <= sum_prefix(counts, counts.len() as int),
        0 <= sum_prefix(counts, i),
{
    lemma_sum_prefix_monotone(counts, i + 1, counts.len() as int);
    lemma_sum_prefix_monotone(counts, 0, i);
}

} // verus!
