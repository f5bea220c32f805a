use sairen_mesh::circuit::{Circuit, CircuitCriticality, CircuitType};
use sairen_mesh::io::encoding::{input_targets, FEATURE_COUNT};
use sairen_mesh::layout::build_default_mesh;
use sairen_mesh::training::init::{default_adapter_indices, initialize_adapters, skip_connection_plan};
use sairen_mesh::training::sources::{admit_source, next_draw, SourcePick};

#[test]
fn default_adapter_indices_nonempty() {
    let mesh = build_default_mesh();
    let (fi, fo, wi, wo) = default_adapter_indices(&mesh.circuits);
    assert!(!fi.is_empty(), "Formation inputs should not be empty");
    assert!(!fo.is_empty(), "Formation outputs should not be empty");
    assert!(!wi.is_empty(), "Well inputs should not be empty");
    assert!(!wo.is_empty(), "Well outputs should not be empty");
}

#[test]
fn default_adapter_windows() {
    let mesh = build_default_mesh();
    let (fi, fo, wi, wo) = default_adapter_indices(&mesh.circuits);
    // Last 32 of each causation circuit.
    assert_eq!(fi.len(), 96);
    assert_eq!(&fi[..2], &[1334, 1335]);
    assert_eq!(*fi.last().unwrap(), 2047);
    // First 32 of each prediction circuit.
    assert_eq!(fo.len(), 64);
    assert_eq!(fo[0], 3584);
    assert_eq!(fo[32], 4096);
    // Last 32 of each detection circuit, first 32 of each memory circuit.
    assert_eq!(wi.len(), 160);
    assert_eq!(wi[0], 172);
    assert_eq!(wo.len(), 96);
    assert_eq!(wo[32], 2560);
}

#[test]
fn adapter_windows_of_small_circuits() {
    let circuits = vec![
        Circuit::new(0, "c", vec![5, 6], CircuitType::Causation, CircuitCriticality::Safety),
        Circuit::new(1, "p", vec![7], CircuitType::Prediction, CircuitCriticality::Performance),
    ];
    let (fi, fo, wi, wo) = default_adapter_indices(&circuits);
    assert_eq!(fi, vec![5, 6]);
    assert_eq!(fo, vec![7]);
    assert!(wi.is_empty() && wo.is_empty());
    let mut mesh = build_default_mesh();
    initialize_adapters(&mut mesh);
    assert_eq!(mesh.circuits.len(), 13);
}

#[test]
fn skip_connections_join_inputs_to_readouts() {
    let mesh = build_default_mesh();
    let mut sources: Vec<Vec<usize>> = vec![Vec::new(); mesh.neuron_count];
    // Readout 203 of the kick circuit already listens to input 0.
    sources[203] = vec![0];
    let plan = skip_connection_plan(&mesh.circuits, sources);
    // 5 detection circuits x 8 readouts x 14 inputs, minus the one that exists.
    assert_eq!(plan.len(), 5 * 8 * 14 - 1);
    assert_eq!(plan[0], (196, 0));
    assert_eq!(plan[13], (196, 13));
    assert!(!plan.contains(&(203, 0)));
    assert!(plan.contains(&(203, 1)));
    assert!(plan.iter().all(|&(r, i)| r != i));
}

#[test]
fn skip_connections_need_more_than_inputs_and_readouts() {
    let small = vec![Circuit::new(0, "d", (0..22).collect(), CircuitType::Detection, CircuitCriticality::Safety)];
    assert!(skip_connection_plan(&small, vec![Vec::new(); 22]).is_empty());
    let big = vec![Circuit::new(0, "d", (0..23).collect(), CircuitType::Detection, CircuitCriticality::Safety)];
    assert_eq!(skip_connection_plan(&big, vec![Vec::new(); 23]).len(), 8 * 14);
}

#[test]
fn skip_connections_skip_self_and_repeats() {
    // A readout that is also an input gets no edge from itself; a readout
    // in two detection circuits is not joined twice to the same input.
    let mut indices: Vec<usize> = (0..23).collect();
    indices[22] = 0; // the last readout is input 0
    let a = Circuit::new(0, "a", indices.clone(), CircuitType::Detection, CircuitCriticality::Safety);
    let plan = skip_connection_plan(&[a], vec![Vec::new(); 23]);
    assert_eq!(plan.iter().filter(|&&(r, _)| r == 0).count(), 13);
    let a2 = Circuit::new(0, "a", (0..23).collect(), CircuitType::Detection, CircuitCriticality::Safety);
    let mut second: Vec<usize> = (0..23).collect();
    second[22] = 22;
    let b2 = Circuit::new(1, "b", second, CircuitType::Detection, CircuitCriticality::Safety);
    let plan = skip_connection_plan(&[a2, b2], vec![Vec::new(); 23]);
    assert_eq!(plan.len(), 8 * 14);
}

#[test]
fn input_targets_cover_first_neurons_of_detection_circuits() {
    let mesh = build_default_mesh();
    let targets = input_targets(&mesh.circuits, FEATURE_COUNT);
    assert_eq!(targets.len(), 5 * 14);
    assert_eq!(targets[0], (0, 0));
    assert_eq!(targets[13], (13, 13));
    assert_eq!(targets[14], (204, 0));
    let small = vec![Circuit::new(0, "d", vec![9, 8], CircuitType::Detection, CircuitCriticality::Safety)];
    assert_eq!(input_targets(&small, FEATURE_COUNT), vec![(9, 0), (8, 1)]);
}

#[test]
fn source_pick_keeps_distinct_valid_sources() {
    let circuit = Circuit::new(0, "c", vec![10, 11, 12], CircuitType::Causation, CircuitCriticality::Safety);
    let mut pick = SourcePick::new(11, 0);
    assert_eq!(next_draw(&pick, 2, 1), Some(false));
    assert!(!admit_source(&mut pick, &circuit, 11, false)); // the neuron itself
    assert!(admit_source(&mut pick, &circuit, 10, false));
    assert!(!admit_source(&mut pick, &circuit, 10, false)); // already taken
    assert!(admit_source(&mut pick, &circuit, 12, false));
    assert_eq!(next_draw(&pick, 2, 1), Some(true));
    assert!(!admit_source(&mut pick, &circuit, 12, true)); // global inside the circuit
    assert!(admit_source(&mut pick, &circuit, 40, true));
    assert_eq!(next_draw(&pick, 2, 1), None);
    assert_eq!(pick.chosen, vec![10, 12, 40]);
    assert_eq!(pick.chosen_global, vec![false, false, true]);
    assert_eq!((pick.local_attempts, pick.global_attempts), (4, 2));
}

#[test]
fn source_draws_stop_after_three_per_wanted_source() {
    let circuit = Circuit::new(0, "c", vec![5, 6], CircuitType::Detection, CircuitCriticality::Safety);
    let mut pick = SourcePick::new(5, 0);
    for _ in 0..3 {
        assert_eq!(next_draw(&pick, 1, 0), Some(false));
        assert!(!admit_source(&mut pick, &circuit, 5, false));
    }
    assert_eq!(next_draw(&pick, 1, 0), None);
    assert!(pick.chosen.is_empty());
}

#[test]
fn wired_neurons_take_no_sources() {
    let pick = SourcePick::new(3, 4);
    assert!(pick.already_wired);
    assert_eq!(next_draw(&pick, 5, 5), None);
}
