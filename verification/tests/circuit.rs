use sairen_mesh::circuit::{Circuit, CircuitCriticality, CircuitType};

#[test]
fn circuit_creation() {
    let c = Circuit::new(0, "test", vec![0, 1, 2], CircuitType::Detection, CircuitCriticality::Safety);
    assert_eq!(c.id, 0);
    assert_eq!(c.neuron_indices.len(), 3);
    assert!(!c.frozen);
    assert_eq!(c.name, "test");
}

#[test]
fn readout_window_is_last_neurons() {
    let c = Circuit::new(0, "det", (0..10).collect(), CircuitType::Detection, CircuitCriticality::Safety);
    assert_eq!(c.readout_indices(8), vec![2, 3, 4, 5, 6, 7, 8, 9]);
    assert_eq!(c.readout_indices(20), (0..10).collect::<Vec<usize>>());
    assert!(c.readout_indices(0).is_empty());
}
