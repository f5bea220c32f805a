use sairen_mesh::circuit::{Circuit, CircuitCriticality, CircuitType};
use sairen_mesh::layout::build_default_mesh;
use sairen_mesh::training::optimizer::{frozen_neuron_mask, parameter_offsets};
use sairen_mesh::training::pipeline::{
    all_circuit_ids, circuit_ids_of_type, freeze_all_except, freeze_universal_circuits,
};

#[test]
fn freeze_groups_of_default_layout() {
    let mesh = build_default_mesh();
    assert_eq!(all_circuit_ids(&mesh.circuits), (0..13).collect::<Vec<u32>>());
    assert_eq!(circuit_ids_of_type(&mesh.circuits, CircuitType::Causation), vec![5, 6, 7]);
    assert_eq!(freeze_all_except(&mesh.circuits, CircuitType::Causation), vec![0, 1, 2, 3, 4, 8, 9, 10, 11, 12]);
    assert_eq!(freeze_all_except(&mesh.circuits, CircuitType::Prediction), (0..11).collect::<Vec<u32>>());
}

#[test]
fn post_training_freezes_universal_circuits() {
    let mut mesh = build_default_mesh();
    freeze_universal_circuits(&mut mesh.circuits);
    for c in &mesh.circuits {
        assert_eq!(c.frozen, c.circuit_type != CircuitType::Memory);
    }
    let frozen_count = mesh.circuits.iter().filter(|c| c.frozen).count();
    assert_eq!(frozen_count, 10);
}

#[test]
fn frozen_mask_marks_frozen_circuits() {
    let mut circuits = vec![
        Circuit::new(0, "a", vec![0, 1], CircuitType::Detection, CircuitCriticality::Safety),
        Circuit::new(1, "b", vec![1, 2], CircuitType::Memory, CircuitCriticality::Performance),
        Circuit::new(2, "c", vec![3], CircuitType::Memory, CircuitCriticality::Performance),
    ];
    assert_eq!(frozen_neuron_mask(5, &circuits, &[0]), vec![true, true, false, false, false]);
    circuits[2].frozen = true;
    assert_eq!(frozen_neuron_mask(5, &circuits, &[1]), vec![false, true, true, true, false]);
    assert_eq!(frozen_neuron_mask(5, &circuits, &[]), vec![false, false, false, true, false]);
}

#[test]
fn frozen_universal_core_stays_frozen_in_every_step() {
    let mut mesh = build_default_mesh();
    freeze_universal_circuits(&mut mesh.circuits);
    let mask = frozen_neuron_mask(mesh.neuron_count, &mesh.circuits, &[]);
    assert!(mask[..2048].iter().all(|&m| m));
    assert!(mask[2048..3584].iter().all(|&m| !m));
    assert!(mask[3584..4608].iter().all(|&m| m));
    assert!(mask[4608..].iter().all(|&m| !m));
}

#[test]
fn parameter_slots_follow_each_other() {
    assert_eq!(parameter_offsets(&[3, 0, 2, 5]), vec![0, 3, 3, 5]);
    assert!(parameter_offsets(&[]).is_empty());
}
