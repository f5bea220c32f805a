use sairen_mesh::circuit::CircuitType;
use sairen_mesh::layout::{build_default_mesh, ADAPTER_NEURON_START, DEFAULT_NEURON_COUNT};
use sairen_mesh::topology::TopologyConstraint;

#[test]
fn default_mesh_has_correct_neuron_count() {
    let mesh = build_default_mesh();
    assert_eq!(mesh.neuron_count, 4736);
    assert_eq!(mesh.membership.len(), 4736);
    assert_eq!(DEFAULT_NEURON_COUNT, 4736);
}

#[test]
fn default_mesh_has_13_circuits() {
    let mesh = build_default_mesh();
    assert_eq!(mesh.circuits.len(), 13);
}

#[test]
fn detection_circuits_count() {
    let mesh = build_default_mesh();
    let det_count = mesh.circuits.iter().filter(|c| c.circuit_type == CircuitType::Detection).count();
    assert_eq!(det_count, 5);
}

#[test]
fn causation_circuits_count() {
    let mesh = build_default_mesh();
    let count = mesh.circuits.iter().filter(|c| c.circuit_type == CircuitType::Causation).count();
    assert_eq!(count, 3);
}

#[test]
fn memory_circuits_count() {
    let mesh = build_default_mesh();
    let count = mesh.circuits.iter().filter(|c| c.circuit_type == CircuitType::Memory).count();
    assert_eq!(count, 3);
}

#[test]
fn prediction_circuits_count() {
    let mesh = build_default_mesh();
    let count = mesh.circuits.iter().filter(|c| c.circuit_type == CircuitType::Prediction).count();
    assert_eq!(count, 2);
}

#[test]
fn no_neuron_in_more_than_two_circuits() {
    let mesh = build_default_mesh();
    for &count in &mesh.membership {
        assert!(count <= 2);
    }
}

#[test]
fn circuit_ids_are_sequential() {
    let mesh = build_default_mesh();
    for (i, circuit) in mesh.circuits.iter().enumerate() {
        assert_eq!(circuit.id, i as u32);
    }
}

#[test]
fn default_layout_blocks_and_names() {
    let mesh = build_default_mesh();
    let kick = &mesh.circuits[0];
    assert_eq!(kick.name, "kick_detection");
    assert_eq!(kick.neuron_indices, (0..204).collect::<Vec<usize>>());
    let rop = &mesh.circuits[12];
    assert_eq!(rop.name, "rop_prediction");
    assert_eq!(rop.neuron_indices.first(), Some(&4096));
    assert_eq!(rop.neuron_indices.last(), Some(&4607));
    assert_eq!(mesh.circuits[10].name, "long_term_memory");
    assert_eq!(mesh.circuits[10].neuron_indices.len(), 512);
}

#[test]
fn adapter_neurons_are_unassigned() {
    let mesh = build_default_mesh();
    assert_eq!(ADAPTER_NEURON_START, 4608);
    assert!(mesh.membership[..4608].iter().all(|&c| c == 1));
    assert!(mesh.membership[4608..].iter().all(|&c| c == 0));
    let tc = TopologyConstraint::new();
    assert!(tc.validate(mesh.neuron_count, &mesh.circuits).is_ok());
    assert_eq!(tc.membership_counts(mesh.neuron_count, &mesh.circuits), mesh.membership);
}
