//! The default mesh layout: 4,736 neurons in 13 circuits.
//!
//! Detection (5 circuits) occupies neurons 0..1024, causation (3) 1024..2048,
//! memory (3) 2048..3584, prediction (2) 3584..4608. Neurons 4608..4736 are
//! reserved for adapters and belong to no circuit.

use vstd::prelude::*;
use crate::circuit::{Circuit, CircuitCriticality, CircuitType};
use crate::mesh::MeshStructure;
use crate::topology::{count_in, flat_indices, memberships_within, scan_memberships};
use crate::training::pipeline::ids_of_type;
use crate::adaptation::production::{diagnosis_for_circuit, mentions_rop, rop_at};
use crate::memory::episodic::DiagnosisType;

verus! {

/// Total neurons in the default mesh.
pub const DEFAULT_NEURON_COUNT: usize = 4736;

/// First neuron reserved for adapters; no circuit uses it or any later one.
pub const ADAPTER_NEURON_START: usize = 4608;

/// The consecutive neuron indices `start, start + 1, ..., end - 1`.
pub open spec fn index_range(start: int, end: int) -> Seq<usize> {
    Seq::new((end - start) as nat, |i: int| (start + i) as usize)
}

/// Neuron range of the default circuit with ID `k`.
pub open spec fn default_block(k: int) -> (int, int) {
    if k == 0 { (0, 204) }
    else if k == 1 { (204, 408) }
    else if k == 2 { (408, 612) }
    else if k == 3 { (612, 816) }
    else if k == 4 { (816, 1024) }
    else if k == 5 { (1024, 1366) }
    else if k == 6 { (1366, 1706) }
    else if k == 7 { (1706, 2048) }
    else if k == 8 { (2048, 2560) }
    else if k == 9 { (2560, 3072) }
    else if k == 10 { (3072, 3584) }
    else if k == 11 { (3584, 4096) }
    else { (4096, 4608) }
}

/// Function of the default circuit with ID `k`.
pub open spec fn default_type(k: int) -> CircuitType {
    if k < 5 { CircuitType::Detection }
    else if k < 8 { CircuitType::Causation }
    else if k < 11 { CircuitType::Memory }
    else { CircuitType::Prediction }
}

/// Criticality of the default circuit with ID `k`.
pub open spec fn default_criticality(k: int) -> CircuitCriticality {
    if k < 8 { CircuitCriticality::Safety } else { CircuitCriticality::Performance }
}

/// Name of the default circuit with ID `k`.
pub open spec fn default_name(k: int) -> Seq<char> {
    if k == 0 { "kick_detection"@ }
    else if k == 1 { "loss_detection"@ }
    else if k == 2 { "packoff_detection"@ }
    else if k == 3 { "stickslip_detect"@ }
    else if k == 4 { "founder_detect"@ }
    else if k == 5 { "torque_causation"@ }
    else if k == 6 { "pressure_causation"@ }
    else if k == 7 { "flow_causation"@ }
    else if k == 8 { "short_term_memory"@ }
    else if k == 9 { "medium_term_memory"@ }
    else if k == 10 { "long_term_memory"@ }
    else if k == 11 { "state_prediction"@ }
    else { "rop_prediction"@ }
}

pub proof fn lemma_range_concat(a: int, b: int, c: int)
    requires
        0 <= a <= b <= c,
    ensures
        index_range(a, b) + index_range(b, c) == index_range(a, c),
{
    assert(index_range(a, b) + index_range(b, c) =~= index_range(a, c));
}

pub proof fn lemma_range_count(a: int, b: int, x: usize)
    requires
        0 <= a <= b <= usize::MAX,
    ensures
        count_in(index_range(a, b), x) == if a <= x < b { 1nat } else { 0nat },
    decreases b - a,
{
    if a == b {
        assert(index_range(a, b) =~= Seq::<usize>::empty());
    } else {
        lemma_range_count(a, b - 1, x);
        assert(index_range(a, b).drop_last() =~= index_range(a, b - 1));
        assert(index_range(a, b).last() == (b - 1) as usize);
    }
}

/// The indices `start..end` as a vector.
pub fn range_indices(start: usize, end: usize) -> (r: Vec<usize>)
    requires
        start <= end,
    ensures
        r@ == index_range(start as int, end as int),
{
    let mut r: Vec<usize> = Vec::new();
    let mut k: usize = start;
    while k < end
        invariant
            start <= k <= end,
            r@ == index_range(start as int, k as int),
        decreases end - k,
    {
        r.push(k);
        k += 1;
        assert(r@ =~= index_range(start as int, k as int));
    }
    r
}

/// Add the circuit over neurons `start..end` to a mesh whose circuits so far
/// tile `0..start`.
fn add_block(
    mesh: &mut MeshStructure,
    id: u32,
    name: &str,
    start: usize,
    end: usize,
    circuit_type: CircuitType,
    criticality: CircuitCriticality,
)
    requires
        old(mesh).wf(),
        old(mesh).neuron_count == DEFAULT_NEURON_COUNT,
        old(mesh).topology.max_circuits_per_neuron == 2,
        flat_indices(old(mesh).circuits@) == index_range(0, start as int),
        start <= end <= ADAPTER_NEURON_START,
    ensures
        final(mesh).wf(),
        final(mesh).neuron_count == DEFAULT_NEURON_COUNT,
        final(mesh).topology == old(mesh).topology,
        final(mesh).tick == old(mesh).tick,
        final(mesh).clamped_neurons@ == old(mesh).clamped_neurons@,
        final(mesh).overlap_zones@ == old(mesh).overlap_zones@,
        flat_indices(final(mesh).circuits@) == index_range(0, end as int),
        final(mesh).circuits@.len() == old(mesh).circuits@.len() + 1,
        forall|j: int| 0 <= j < old(mesh).circuits@.len() ==> #[trigger] final(mesh).circuits@[j] == old(mesh).circuits@[j],
        ({
            let c = final(mesh).circuits@.last();
            &&& c.id == id
            &&& c.name@ == name@
            &&& c.neuron_indices@ == index_range(start as int, end as int)
            &&& c.circuit_type == circuit_type
            &&& c.criticality == criticality
            &&& !c.frozen
        }),
{
    let indices = range_indices(start, end);
    let circuit = Circuit::new(id, name, indices, circuit_type, criticality);
    proof {
        assert forall|i: usize| i < mesh.neuron_count implies
            mesh.membership@[i as int] + count_in(circuit.neuron_indices@, i) <= u8::MAX by {
            lemma_range_count(0, start as int, i);
            lemma_range_count(start as int, end as int, i);
        }
    }
    let r = mesh.add_circuit(circuit);
    proof {
        lemma_range_concat(0, start as int, end as int);
        assert(mesh.circuits@.drop_last() =~= old(mesh).circuits@);
        let all = flat_indices(mesh.circuits@);
        assert(all == index_range(0, end as int));
        assert forall|k: int| 0 <= k < all.len() implies #[trigger] all[k] < DEFAULT_NEURON_COUNT by {}
        assert forall|x: usize| #[trigger] count_in(all, x) <= 2 by {
            lemma_range_count(0, end as int, x);
        }
        assert(memberships_within(all, DEFAULT_NEURON_COUNT, 2));
    }
    r.unwrap();
}

/// How many of the first `k` default circuits have type `t`.
pub open spec fn default_type_count(k: int, t: CircuitType) -> int {
    let clamp = |lo: int, hi: int| if k <= lo { 0 } else if k >= hi { hi - lo } else { k - lo };
    match t {
        CircuitType::Detection => clamp(0, 5),
        CircuitType::Causation => clamp(5, 8),
        CircuitType::Memory => clamp(8, 11),
        CircuitType::Prediction => clamp(11, 13),
    }
}

proof fn lemma_default_type_counts(cs: Seq<Circuit>, k: int, t: CircuitType)
    requires
        0 <= k <= cs.len() <= 13,
        forall|j: int| 0 <= j < cs.len() ==> #[trigger] cs[j].circuit_type == default_type(j),
    ensures
        ids_of_type(cs.take(k), t).len() == default_type_count(k, t),
    decreases k,
{
    if k > 0 {
        lemma_default_type_counts(cs, k - 1, t);
        assert(cs.take(k).drop_last() =~= cs.take(k - 1));
        assert(cs.take(k).last() == cs[k - 1]);
    }
}

/// The default layout has five detection, three causation, three memory and
/// two prediction circuits.
pub proof fn law_default_layout_type_counts(cs: Seq<Circuit>)
    requires
        cs.len() == 13,
        forall|j: int| 0 <= j < cs.len() ==> #[trigger] cs[j].circuit_type == default_type(j),
    ensures
        ids_of_type(cs, CircuitType::Detection).len() == 5,
        ids_of_type(cs, CircuitType::Causation).len() == 3,
        ids_of_type(cs, CircuitType::Memory).len() == 3,
        ids_of_type(cs, CircuitType::Prediction).len() == 2,
{
    assert(cs.take(13) =~= cs);
    lemma_default_type_counts(cs, 13, CircuitType::Detection);
    lemma_default_type_counts(cs, 13, CircuitType::Causation);
    lemma_default_type_counts(cs, 13, CircuitType::Memory);
    lemma_default_type_counts(cs, 13, CircuitType::Prediction);
}

/// The word a detection circuit's name starts with for the anomaly it reports.
pub open spec fn diagnosis_stem(d: DiagnosisType) -> Seq<char> {
    match d {
        DiagnosisType::KickDetected => "kick"@,
        DiagnosisType::LossDetected => "loss"@,
        DiagnosisType::PackOff => "packoff"@,
        DiagnosisType::StickSlip => "stickslip"@,
        DiagnosisType::FounderCondition => "founder"@,
        _ => Seq::empty(),
    }
}

/// Each default detection circuit is named after the anomaly that its
/// detections are reported as: the name of circuit `k` starts with the
/// anomaly of `circuit_idx_to_diagnosis(k)` (kick, loss, packoff,
/// stickslip, founder), and it is a detection circuit.
pub proof fn law_detection_names_match_diagnoses(k: int)
    requires
        0 <= k < 5,
    ensures
        default_type(k) == CircuitType::Detection,
        diagnosis_stem(diagnosis_for_circuit(k)).len() > 0,
        diagnosis_stem(diagnosis_for_circuit(k)).len() <= default_name(k).len(),
        default_name(k).take(diagnosis_stem(diagnosis_for_circuit(k)).len() as int)
            == diagnosis_stem(diagnosis_for_circuit(k)),
{
    reveal_strlit("kick_detection");
    reveal_strlit("loss_detection");
    reveal_strlit("packoff_detection");
    reveal_strlit("stickslip_detect");
    reveal_strlit("founder_detect");
    reveal_strlit("kick");
    reveal_strlit("loss");
    reveal_strlit("packoff");
    reveal_strlit("stickslip");
    reveal_strlit("founder");
    let stem = diagnosis_stem(diagnosis_for_circuit(k));
    assert(default_name(k).take(stem.len() as int) =~= stem);
}

/// Of the two default prediction circuits, the ROP one (ID 12) is the one
/// whose forecasts are labelled as ROP forecasts, and the state one (ID 11)
/// is not.
pub proof fn law_rop_prediction_circuit_forecasts_rop()
    ensures
        default_type(11) == CircuitType::Prediction,
        default_type(12) == CircuitType::Prediction,
        mentions_rop(default_name(12)),
        !mentions_rop(default_name(11)),
{
    reveal_strlit("rop_prediction");
    reveal_strlit("state_prediction");
    assert(rop_at(default_name(12), 0));
    assert forall|i: int| !#[trigger] rop_at(default_name(11), i) by {
        if 0 <= i && i + 3 <= default_name(11).len() {
            assert(default_name(11)[i] != 'r' || default_name(11)[i + 1] != 'o' || default_name(11)[i + 2] != 'p');
        }
    }
}

/// Build the structure of the default 4,736-neuron mesh with all 13 circuits.
pub fn build_default_mesh() -> (m: MeshStructure)
    ensures
        m.wf(),
        m.neuron_count == DEFAULT_NEURON_COUNT,
        m.topology.max_circuits_per_neuron == 2,
        m.tick == 0,
        m.overlap_zones@.len() == 0,
        m.circuits@.len() == 13,
        ids_of_type(m.circuits@, CircuitType::Detection).len() == 5,
        ids_of_type(m.circuits@, CircuitType::Causation).len() == 3,
        ids_of_type(m.circuits@, CircuitType::Memory).len() == 3,
        ids_of_type(m.circuits@, CircuitType::Prediction).len() == 2,
        flat_indices(m.circuits@) == index_range(0, ADAPTER_NEURON_START as int),
        forall|k: int| 0 <= k < 13 ==> {
            let c = #[trigger] m.circuits@[k];
            &&& c.id == k
            &&& c.name@ == default_name(k)
            &&& c.neuron_indices@ == index_range(default_block(k).0, default_block(k).1)
            &&& c.circuit_type == default_type(k)
            &&& c.criticality == default_criticality(k)
            &&& !c.frozen
        },
        forall|i: int| 0 <= i < DEFAULT_NEURON_COUNT ==>
            #[trigger] m.membership@[i] == if i < ADAPTER_NEURON_START { 1u8 } else { 0u8 },
        m.clamped_neurons@.len() == DEFAULT_NEURON_COUNT,
        forall|i: int| 0 <= i < DEFAULT_NEURON_COUNT ==> !#[trigger] m.clamped_neurons@[i],
{
    let mut mesh = MeshStructure::new(DEFAULT_NEURON_COUNT);
    proof {
        assert(index_range(0, 0) =~= Seq::<usize>::empty());
    }
    // Detection block: neurons 0..1024, five circuits.
    add_block(&mut mesh, 0, "kick_detection", 0, 204, CircuitType::Detection, CircuitCriticality::Safety);
    add_block(&mut mesh, 1, "loss_detection", 204, 408, CircuitType::Detection, CircuitCriticality::Safety);
    add_block(&mut mesh, 2, "packoff_detection", 408, 612, CircuitType::Detection, CircuitCriticality::Safety);
    add_block(&mut mesh, 3, "stickslip_detect", 612, 816, CircuitType::Detection, CircuitCriticality::Safety);
    add_block(&mut mesh, 4, "founder_detect", 816, 1024, CircuitType::Detection, CircuitCriticality::Safety);
    // Causation block: neurons 1024..2048, three circuits.
    add_block(&mut mesh, 5, "torque_causation", 1024, 1366, CircuitType::Causation, CircuitCriticality::Safety);
    add_block(&mut mesh, 6, "pressure_causation", 1366, 1706, CircuitType::Causation, CircuitCriticality::Safety);
    add_block(&mut mesh, 7, "flow_causation", 1706, 2048, CircuitType::Causation, CircuitCriticality::Safety);
    // Memory block: neurons 2048..3584, three circuits.
    add_block(&mut mesh, 8, "short_term_memory", 2048, 2560, CircuitType::Memory, CircuitCriticality::Performance);
    add_block(&mut mesh, 9, "medium_term_memory", 2560, 3072, CircuitType::Memory, CircuitCriticality::Performance);
    add_block(&mut mesh, 10, "long_term_memory", 3072, 3584, CircuitType::Memory, CircuitCriticality::Performance);
    // Prediction block: neurons 3584..4608, two circuits.
    add_block(&mut mesh, 11, "state_prediction", 3584, 4096, CircuitType::Prediction, CircuitCriticality::Performance);
    add_block(&mut mesh, 12, "rop_prediction", 4096, 4608, CircuitType::Prediction, CircuitCriticality::Performance);
    // Neurons 4608..4736 are reserved for adapters (not assigned to circuits).
    proof {
        assert forall|i: int| 0 <= i < DEFAULT_NEURON_COUNT implies
            #[trigger] mesh.membership@[i] == if i < ADAPTER_NEURON_START { 1u8 } else { 0u8 } by {
            lemma_range_count(0, ADAPTER_NEURON_START as int, i as usize);
        }
        law_default_layout_type_counts(mesh.circuits@);
    }
    mesh
}

} // verus!
