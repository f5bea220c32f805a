use rand::rngs::StdRng;
use rand::SeedableRng;
use sairen_mesh::training::data::{
    anomaly_to_circuit_idx, apply_fisher_yates, causation_labels_for_sample, detection_labels_for_sample, shuffle_indices,
};
use sairen_mesh::training::synthetic::{dataset_entry_kind, mark_anomaly_window, random_onset, AnomalyType};

#[test]
fn detection_labels_normal() {
    let labels = vec![AnomalyType::Normal; 10];
    let det = detection_labels_for_sample(&labels, 0);
    assert_eq!(det.len(), 5);
    assert!(det.iter().all(|(_, t)| !*t));
}

#[test]
fn detection_labels_kick() {
    // A 50-sample kick sequence with onset 10: the kick window is 30 samples.
    let mut labels = vec![AnomalyType::Normal; 50];
    mark_anomaly_window(&mut labels, 10, 30, AnomalyType::Kick);
    let det = detection_labels_for_sample(&labels, 20);
    // Circuit 0 (kick_detection) is on.
    assert!(det[0].1);
    // Others are off.
    assert!(!det[1].1);
}

#[test]
fn causation_labels_packoff() {
    // A 50-sample pack-off sequence with onset 10: the window is 15 samples.
    let mut labels = vec![AnomalyType::Normal; 50];
    mark_anomaly_window(&mut labels, 10, 15, AnomalyType::PackOff);
    let caus = causation_labels_for_sample(&labels, 15);
    // Should have torque and pressure causation entries.
    assert!(!caus.is_empty());
    let has_torque = caus.iter().any(|(ci, _)| *ci == 5);
    let has_pressure = caus.iter().any(|(ci, _)| *ci == 6);
    assert!(has_torque);
    assert!(has_pressure);
}

#[test]
fn shuffle_produces_permutation() {
    let mut rng = StdRng::seed_from_u64(42);
    let indices = shuffle_indices(10, &mut rng);
    assert_eq!(indices.len(), 10);

    let mut sorted = indices.clone();
    sorted.sort();
    assert_eq!(sorted, (0..10).collect::<Vec<_>>());
}

#[test]
fn shuffle_of_small_ranges() {
    let mut rng = StdRng::seed_from_u64(1);
    assert!(shuffle_indices(0, &mut rng).is_empty());
    assert_eq!(shuffle_indices(1, &mut rng), vec![0]);
}

#[test]
fn anomaly_maps_to_detection_circuit() {
    assert_eq!(anomaly_to_circuit_idx(AnomalyType::Kick), Some(0));
    assert_eq!(anomaly_to_circuit_idx(AnomalyType::Loss), Some(1));
    assert_eq!(anomaly_to_circuit_idx(AnomalyType::PackOff), Some(2));
    assert_eq!(anomaly_to_circuit_idx(AnomalyType::StickSlip), Some(3));
    assert_eq!(anomaly_to_circuit_idx(AnomalyType::Founder), Some(4));
    assert_eq!(anomaly_to_circuit_idx(AnomalyType::Normal), None);
}

#[test]
fn detection_labels_past_end_are_normal() {
    let labels = vec![AnomalyType::Founder; 3];
    let det = detection_labels_for_sample(&labels, 3);
    assert_eq!(det, vec![(0, false), (1, false), (2, false), (3, false), (4, false)]);
    let det = detection_labels_for_sample(&labels, 2);
    assert_eq!(det, vec![(0, false), (1, false), (2, false), (3, false), (4, true)]);
}

#[test]
fn causation_labels_for_each_anomaly() {
    let at = |a: AnomalyType| causation_labels_for_sample(&[a], 0);
    assert_eq!(at(AnomalyType::Kick), vec![(7, vec![2])]);
    assert_eq!(at(AnomalyType::Loss), vec![(7, vec![2]), (6, vec![4])]);
    assert_eq!(at(AnomalyType::PackOff), vec![(5, vec![0]), (6, vec![4])]);
    assert_eq!(at(AnomalyType::StickSlip), vec![(5, vec![0, 7])]);
    assert_eq!(at(AnomalyType::Founder), vec![(5, vec![3])]);
    assert!(at(AnomalyType::Normal).is_empty());
    assert!(causation_labels_for_sample(&[AnomalyType::Kick], 1).is_empty());
}

#[test]
fn kick_sequence_has_anomaly_labels() {
    let mut labels = vec![AnomalyType::Normal; 100];
    let end = mark_anomaly_window(&mut labels, 30, 30, AnomalyType::Kick);
    assert_eq!(end, 60);
    let n_kick = labels.iter().filter(|l| **l == AnomalyType::Kick).count();
    assert!(n_kick > 0, "Should have kick labels");
    assert_eq!(n_kick, 30);
    assert_eq!(labels[29], AnomalyType::Normal);
    assert_eq!(labels[30], AnomalyType::Kick);
    assert_eq!(labels[60], AnomalyType::Normal);
}

#[test]
fn anomaly_window_is_cut_at_sequence_end() {
    let mut labels = vec![AnomalyType::Normal; 20];
    assert_eq!(mark_anomaly_window(&mut labels, 15, 40, AnomalyType::Founder), 20);
    assert_eq!(labels.iter().filter(|l| **l == AnomalyType::Founder).count(), 5);
    let mut labels = vec![AnomalyType::Normal; 5];
    assert_eq!(mark_anomaly_window(&mut labels, 9, 3, AnomalyType::Loss), 5);
    assert!(labels.iter().all(|l| *l == AnomalyType::Normal));
}

#[test]
fn dataset_cycles_through_kinds() {
    let kinds: Vec<AnomalyType> = (0..7).map(dataset_entry_kind).collect();
    assert_eq!(
        kinds,
        vec![
            AnomalyType::Normal,
            AnomalyType::Kick,
            AnomalyType::Loss,
            AnomalyType::PackOff,
            AnomalyType::StickSlip,
            AnomalyType::Founder,
            AnomalyType::Normal
        ]
    );
}

#[test]
fn onset_lies_in_middle_third() {
    let mut rng = StdRng::seed_from_u64(42);
    for _ in 0..50 {
        let onset = random_onset(100, &mut rng);
        assert!((33..66).contains(&onset));
    }
    assert_eq!(random_onset(3, &mut rng), 1);
}

#[test]
fn fisher_yates_swaps_from_the_end() {
    assert_eq!(apply_fisher_yates(3, &vec![0, 0]), vec![1, 2, 0]);
    assert_eq!(apply_fisher_yates(4, &vec![3, 2, 1]), vec![0, 1, 2, 3]);
    assert_eq!(apply_fisher_yates(4, &vec![1, 0, 0]), vec![3, 2, 0, 1]);
    assert_eq!(apply_fisher_yates(1, &vec![]), vec![0]);
}
