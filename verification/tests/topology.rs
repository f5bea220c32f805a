use sairen_mesh::circuit::{Circuit, CircuitCriticality, CircuitType};
use sairen_mesh::topology::{TopologyConstraint, TopologyError};

fn make_circuit(id: u32, indices: Vec<usize>) -> Circuit {
    let name = format!("circuit_{id}");
    Circuit::new(id, &name, indices, CircuitType::Detection, CircuitCriticality::Safety)
}

#[test]
fn accepts_valid_topology_no_overlap() {
    let tc = TopologyConstraint::new();
    let circuits = vec![make_circuit(0, vec![0, 1, 2]), make_circuit(1, vec![3, 4, 5])];
    assert!(tc.validate(6, &circuits).is_ok());
}

#[test]
fn accepts_valid_topology_with_overlap() {
    let tc = TopologyConstraint::new();
    let circuits = vec![
        make_circuit(0, vec![0, 1, 2, 3]),
        make_circuit(1, vec![2, 3, 4, 5]), // neurons 2,3 shared
    ];
    assert!(tc.validate(6, &circuits).is_ok());
}

#[test]
fn rejects_three_circuits_per_neuron() {
    let tc = TopologyConstraint::new();
    let circuits = vec![
        make_circuit(0, vec![0, 1, 2]),
        make_circuit(1, vec![1, 2, 3]),
        make_circuit(2, vec![2, 3, 4]), // neuron 2 now in 3 circuits
    ];
    let err = tc.validate(5, &circuits).unwrap_err();
    match err {
        TopologyError::ExcessMembership { neuron_idx, count, max } => {
            assert_eq!(neuron_idx, 2);
            assert_eq!(count, 3);
            assert_eq!(max, 2);
        }
        _ => panic!("Expected ExcessMembership error"),
    }
}

#[test]
fn rejects_out_of_bounds_neuron() {
    let tc = TopologyConstraint::new();
    let circuits = vec![make_circuit(0, vec![0, 1, 99])];
    assert!(matches!(tc.validate(10, &circuits), Err(TopologyError::NeuronOutOfBounds(99, 10))));
}

#[test]
fn membership_counts_correct() {
    let tc = TopologyConstraint::new();
    let circuits = vec![make_circuit(0, vec![0, 1, 2]), make_circuit(1, vec![1, 2, 3])];
    let counts = tc.membership_counts(4, &circuits);
    assert_eq!(counts, vec![1, 2, 2, 1]);
}

#[test]
fn default_constraint_allows_two_circuits() {
    assert_eq!(TopologyConstraint::default().max_circuits_per_neuron, 2);
    assert_eq!(TopologyConstraint::new(), TopologyConstraint::default());
}

#[test]
fn first_violation_in_scan_order_is_reported() {
    let tc = TopologyConstraint::new();
    // Neuron 7 is out of bounds before neuron 0 reaches a third circuit.
    let circuits = vec![
        make_circuit(0, vec![0]),
        make_circuit(1, vec![0, 7]),
        make_circuit(2, vec![0]),
    ];
    assert_eq!(tc.validate(5, &circuits), Err(TopologyError::NeuronOutOfBounds(7, 5)));
    // And the other way round.
    let circuits = vec![
        make_circuit(0, vec![0]),
        make_circuit(1, vec![0]),
        make_circuit(2, vec![0, 7]),
    ];
    assert_eq!(
        tc.validate(5, &circuits),
        Err(TopologyError::ExcessMembership { neuron_idx: 0, count: 3, max: 2 })
    );
}

#[test]
fn duplicate_index_within_one_circuit_counts_twice() {
    let tc = TopologyConstraint::new();
    let circuits = vec![make_circuit(0, vec![4, 4]), make_circuit(1, vec![4])];
    assert_eq!(tc.membership_counts(5, &circuits), vec![0, 0, 0, 0, 3]);
    assert_eq!(
        tc.validate(5, &circuits),
        Err(TopologyError::ExcessMembership { neuron_idx: 4, count: 3, max: 2 })
    );
}

#[test]
fn membership_counts_ignore_out_of_bounds() {
    let tc = TopologyConstraint::new();
    let circuits = vec![make_circuit(0, vec![0, 9, 1])];
    assert_eq!(tc.membership_counts(2, &circuits), vec![1, 1]);
}

#[test]
fn stricter_limit_rejects_shared_neuron() {
    let tc = TopologyConstraint { max_circuits_per_neuron: 1 };
    let circuits = vec![make_circuit(0, vec![0, 1]), make_circuit(1, vec![1])];
    assert_eq!(
        tc.validate(2, &circuits),
        Err(TopologyError::ExcessMembership { neuron_idx: 1, count: 2, max: 1 })
    );
    assert!(tc.validate(2, &[]).is_ok());
}
