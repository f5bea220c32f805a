//! Freeze rules of the three-stage training pipeline.

use vstd::prelude::*;
use crate::circuit::{Circuit, CircuitId, CircuitType};
use crate::training::optimizer::has_id;

verus! {

/// IDs of all circuits, in order.
pub open spec fn ids_of(circuits: Seq<Circuit>) -> Seq<CircuitId> {
    circuits.map_values(|c: Circuit| c.id)
}

/// IDs of the circuits of type `t`, in order.
pub open spec fn ids_of_type(circuits: Seq<Circuit>, t: CircuitType) -> Seq<CircuitId>
    decreases circuits.len(),
{
    if circuits.len() == 0 {
        Seq::empty()
    } else {
        ids_of_type(circuits.drop_last(), t) + if circuits.last().circuit_type == t {
            seq![circuits.last().id]
        } else {
            Seq::empty()
        }
    }
}

/// The elements of `ids` that do not occur in `group`, in order.
pub open spec fn ids_outside(ids: Seq<CircuitId>, group: Seq<CircuitId>) -> Seq<CircuitId>
    decreases ids.len(),
{
    if ids.len() == 0 {
        Seq::empty()
    } else {
        ids_outside(ids.drop_last(), group) + if has_id(group, ids.last()) {
            Seq::empty()
        } else {
            seq![ids.last()]
        }
    }
}

/// IDs of all circuits, in order.
pub fn all_circuit_ids(circuits: &[Circuit]) -> (r: Vec<CircuitId>)
    ensures
        r@ == ids_of(circuits@),
{
    let mut r: Vec<CircuitId> = Vec::new();
    let mut k: usize = 0;
    while k < circuits.len()
        invariant
            k <= circuits@.len(),
            r@ == ids_of(circuits@.take(k as int)),
        decreases circuits@.len() - k,
    {
        r.push(circuits[k].id);
        k += 1;
        assert(r@ =~= ids_of(circuits@.take(k as int)));
    }
    assert(circuits@.take(circuits@.len() as int) =~= circuits@);
    r
}

/// IDs of the circuits of type `t`, in order.
pub fn circuit_ids_of_type(circuits: &[Circuit], t: CircuitType) -> (r: Vec<CircuitId>)
    ensures
        r@ == ids_of_type(circuits@, t),
{
    let mut r: Vec<CircuitId> = Vec::new();
    let mut k: usize = 0;
    proof {
        assert(circuits@.take(0) =~= Seq::<Circuit>::empty());
    }
    while k < circuits.len()
        invariant
            k <= circuits@.len(),
            r@ == ids_of_type(circuits@.take(k as int), t),
        decreases circuits@.len() - k,
    {
        proof {
            assert(circuits@.take(k as int + 1).drop_last() =~= circuits@.take(k as int));
        }
        if circuits[k].circuit_type == t {
            r.push(circuits[k].id);
        }
        k += 1;
        assert(r@ =~= ids_of_type(circuits@.take(k as int), t));
    }
    assert(circuits@.take(circuits@.len() as int) =~= circuits@);
    r
}

fn contains_id(ids: &Vec<CircuitId>, id: CircuitId) -> (r: bool)
    ensures
        r == has_id(ids@, id),
{
    let mut k: usize = 0;
    while k < ids.len()
        invariant
            k <= ids@.len(),
            forall|j: int| 0 <= j < k ==> ids@[j] != id,
        decreases ids@.len() - k,
    {
        if ids[k] == id {
            return true;
        }
        k += 1;
    }
    false
}

/// The circuits to freeze while training the circuits of type `t`: the IDs
/// of all circuits, in order, except those that a circuit of type `t` has.
pub fn freeze_all_except(circuits: &[Circuit], t: CircuitType) -> (r: Vec<CircuitId>)
    ensures
        r@ == ids_outside(ids_of(circuits@), ids_of_type(circuits@, t)),
{
    let all = all_circuit_ids(circuits);
    let group = circuit_ids_of_type(circuits, t);
    let mut r: Vec<CircuitId> = Vec::new();
    let mut k: usize = 0;
    proof {
        assert(all@.take(0) =~= Seq::<CircuitId>::empty());
    }
    while k < all.len()
        invariant
            k <= all@.len(),
            r@ == ids_outside(all@.take(k as int), group@),
        decreases all@.len() - k,
    {
        proof {
            assert(all@.take(k as int + 1).drop_last() =~= all@.take(k as int));
        }
        if !contains_id(&group, all[k]) {
            r.push(all[k]);
        }
        k += 1;
        assert(r@ =~= ids_outside(all@.take(k as int), group@));
    }
    assert(all@.take(all@.len() as int) =~= all@);
    r
}

proof fn lemma_ids_of_type_has(circuits: Seq<Circuit>, t: CircuitType, k: int)
    requires
        0 <= k < circuits.len(),
        circuits[k].circuit_type == t,
    ensures
        has_id(ids_of_type(circuits, t), circuits[k].id),
    decreases circuits.len(),
{
    let d = circuits.drop_last();
    let g = ids_of_type(circuits, t);
    if k == circuits.len() - 1 {
        assert(g[g.len() - 1] == circuits[k].id);
    } else {
        lemma_ids_of_type_has(d, t, k);
        assert(d[k] == circuits[k]);
        let gd = ids_of_type(d, t);
        let j = choose|j: int| 0 <= j < gd.len() && gd[j] == circuits[k].id;
        assert(g[j] == gd[j]);
    }
}

proof fn lemma_ids_outside_excludes(ids: Seq<CircuitId>, group: Seq<CircuitId>, x: CircuitId)
    requires
        has_id(group, x),
    ensures
        !has_id(ids_outside(ids, group), x),
    decreases ids.len(),
{
    if ids.len() > 0 {
        lemma_ids_outside_excludes(ids.drop_last(), group, x);
        let o = ids_outside(ids, group);
        let od = ids_outside(ids.drop_last(), group);
        if has_id(o, x) {
            let j = choose|j: int| 0 <= j < o.len() && o[j] == x;
            if j < od.len() {
                assert(od[j] == x);
            }
        }
    }
}

/// While the circuits of type `t` train, none of them is frozen by the
/// round's freeze list: every circuit of that type stays trainable.
pub proof fn law_training_round_keeps_its_circuits_trainable(circuits: Seq<Circuit>, t: CircuitType, k: int)
    requires
        0 <= k < circuits.len(),
        circuits[k].circuit_type == t,
    ensures
        !has_id(ids_outside(ids_of(circuits), ids_of_type(circuits, t)), circuits[k].id),
{
    lemma_ids_of_type_has(circuits, t, k);
    lemma_ids_outside_excludes(ids_of(circuits), ids_of_type(circuits, t), circuits[k].id);
}

/// Circuits that stay frozen after training: detection, causation and base
/// prediction (the universal tier). Memory circuits remain plastic.
pub open spec fn universal_type(t: CircuitType) -> bool {
    t != CircuitType::Memory
}

/// After training, freeze every universal circuit (detection, causation,
/// prediction); memory circuits keep their frozen flag as it was.
pub fn freeze_universal_circuits(circuits: &mut Vec<Circuit>)
    ensures
        final(circuits)@.len() == old(circuits)@.len(),
        forall|k: int| 0 <= k < old(circuits)@.len() ==> {
            let c = #[trigger] final(circuits)@[k];
            let o = old(circuits)@[k];
            &&& c.id == o.id
            &&& c.name == o.name
            &&& c.neuron_indices == o.neuron_indices
            &&& c.circuit_type == o.circuit_type
            &&& c.criticality == o.criticality
            &&& c.frozen == (o.frozen || universal_type(o.circuit_type))
        },
{
    let mut k: usize = 0;
    while k < circuits.len()
        invariant
            k <= circuits@.len(),
            circuits@.len() == old(circuits)@.len(),
            forall|j: int| 0 <= j < old(circuits)@.len() ==> {
                let c = #[trigger] circuits@[j];
                let o = old(circuits)@[j];
                &&& c.id == o.id
                &&& c.name == o.name
                &&& c.neuron_indices == o.neuron_indices
                &&& c.circuit_type == o.circuit_type
                &&& c.criticality == o.criticality
                &&& c.frozen == if j < k { o.frozen || universal_type(o.circuit_type) } else { o.frozen }
            },
        decreases circuits@.len() - k,
    {
        match circuits[k].circuit_type {
            CircuitType::Detection | CircuitType::Causation | CircuitType::Prediction => {
                circuits[k].frozen = true;
            },
            CircuitType::Memory => {},
        }
        k += 1;
    }
}

} // verus!
