use sairen_mesh::overlap::{select_flagged, OverlapZone};

#[test]
fn active_neurons_filtered_by_mask() {
    let zone = OverlapZone::new(0, 1, vec![10, 11, 12, 13, 14]);
    let masks: Vec<f32> = vec![0.1, 0.5, 0.8, 0.2, 0.9];
    let threshold = 0.3f32;
    let active_flags: Vec<bool> = masks.iter().map(|&m| m > threshold).collect();

    let active = zone.active_neuron_indices(&active_flags);
    assert_eq!(active, vec![11, 12, 14]);
}

#[test]
fn connects_is_order_independent() {
    let zone = OverlapZone::new(3, 7, vec![]);
    assert!(zone.connects(3, 7));
    assert!(zone.connects(7, 3));
    assert!(!zone.connects(3, 8));
}

#[test]
fn pruning_keeps_flagged_neurons() {
    let mut zone = OverlapZone::new(2, 5, vec![4, 8, 15, 16]);
    zone.retain_shared(&vec![true, false, false, true]);
    assert_eq!(zone.shared_neuron_indices, vec![4, 16]);
    assert_eq!((zone.circuit_a, zone.circuit_b), (2, 5));
}

#[test]
fn select_flagged_keeps_order() {
    assert_eq!(select_flagged(&vec![9, 1, 9], &vec![true, true, true]), vec![9, 1, 9]);
    assert_eq!(select_flagged(&vec![9, 1, 9], &vec![false, false, false]), Vec::<usize>::new());
}

#[test]
fn neurons_without_a_flag_are_not_active() {
    let zone = OverlapZone::new(0, 1, vec![10, 11, 12, 13]);
    assert_eq!(zone.active_neuron_indices(&vec![true, false, true]), vec![10, 12]);
    assert_eq!(select_flagged(&vec![5, 6], &vec![true, true, true]), vec![5, 6]);
}
