use sairen_mesh::circuit::{Circuit, CircuitCriticality, CircuitType};
use sairen_mesh::mesh::MeshStructure;
use sairen_mesh::overlap::OverlapZone;
use sairen_mesh::topology::TopologyError;

#[test]
fn topology_rejects_triple_membership() {
    let mut mesh = MeshStructure::new(10);
    mesh.add_circuit(Circuit::new(0, "a", vec![0, 1, 2], CircuitType::Detection, CircuitCriticality::Safety))
        .unwrap();
    mesh.add_circuit(Circuit::new(1, "b", vec![1, 2, 3], CircuitType::Detection, CircuitCriticality::Safety))
        .unwrap();
    let result =
        mesh.add_circuit(Circuit::new(2, "c", vec![2, 3, 4], CircuitType::Detection, CircuitCriticality::Safety));
    assert!(result.is_err());
}

#[test]
fn overlap_neurons_get_counted() {
    let mut mesh = MeshStructure::new(20);
    mesh.add_circuit(Circuit::new(0, "a", vec![0, 1, 2, 3], CircuitType::Detection, CircuitCriticality::Safety))
        .unwrap();
    mesh.add_circuit(Circuit::new(1, "b", vec![2, 3, 4, 5], CircuitType::Causation, CircuitCriticality::Safety))
        .unwrap();

    assert_eq!(mesh.membership[2], 2);
    assert_eq!(mesh.membership[0], 1);
    assert_eq!(mesh.membership[4], 1);
}

#[test]
fn rejected_circuit_is_still_recorded() {
    let mut mesh = MeshStructure::new(4);
    let r = mesh.add_circuit(Circuit::new(0, "a", vec![1, 6], CircuitType::Memory, CircuitCriticality::Performance));
    assert_eq!(r, Err(TopologyError::NeuronOutOfBounds(6, 4)));
    assert_eq!(mesh.circuits.len(), 1);
    assert_eq!(mesh.membership, vec![0, 1, 0, 0]);
}

#[test]
fn circuit_lookup_by_id() {
    let mut mesh = MeshStructure::new(8);
    mesh.add_circuit(Circuit::new(7, "x", vec![0], CircuitType::Memory, CircuitCriticality::Performance)).unwrap();
    mesh.add_circuit(Circuit::new(3, "y", vec![1], CircuitType::Memory, CircuitCriticality::Performance)).unwrap();
    mesh.add_circuit(Circuit::new(3, "z", vec![2], CircuitType::Memory, CircuitCriticality::Performance)).unwrap();
    assert_eq!(mesh.circuit_by_id(3).map(|c| c.name.as_str()), Some("y"));
    assert_eq!(mesh.circuit_position(7), Some(0));
    assert!(mesh.circuit_by_id(9).is_none());
}

#[test]
fn reset_clears_clamps_and_tick() {
    let mut mesh = MeshStructure::new(3);
    mesh.clamped_neurons[1] = true;
    mesh.advance_tick();
    mesh.advance_tick();
    assert_eq!(mesh.tick, 2);
    assert!(mesh.is_clamped(1));
    assert!(!mesh.is_clamped(5));
    mesh.overlap_zones.push(OverlapZone::new(0, 1, vec![2]));
    mesh.reset_activations();
    assert_eq!(mesh.tick, 0);
    assert!(!mesh.is_clamped(1));
    assert_eq!(mesh.clamped_neurons, vec![false; 3]);
    assert_eq!(mesh.overlap_zones.len(), 1);
}

#[test]
fn step_increments_tick() {
    let mut mesh = MeshStructure::new(20);
    assert_eq!(mesh.tick, 0);
    mesh.advance_tick();
    assert_eq!(mesh.tick, 1);
}

#[test]
fn clamped_inputs_are_released_by_reset() {
    let mut mesh = MeshStructure::new(5);
    mesh.clamp_neurons(&[1, 3, 9]);
    assert_eq!(mesh.clamped_neurons, vec![false, true, false, true, false]);
    assert!(mesh.is_clamped(3));
    assert!(!mesh.is_clamped(9));
    mesh.clamp_neurons(&[0]);
    assert_eq!(mesh.clamped_neurons, vec![true, true, false, true, false]);
    mesh.reset_activations();
    assert!(mesh.clamped_neurons.iter().all(|&c| !c));
    assert_eq!(mesh.tick, 0);
}
