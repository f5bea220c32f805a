use sairen_mesh::adaptation::production::{
    all_circuit_types_active, causation_param_name, circuit_idx_to_diagnosis, health_check, prediction_label,
};
use sairen_mesh::circuit::{Circuit, CircuitCriticality, CircuitType};
use sairen_mesh::config::DegradationMode;
use sairen_mesh::layout::build_default_mesh;
use sairen_mesh::memory::DiagnosisType;

#[test]
fn health_check_minimal_when_nan() {
    let mesh = build_default_mesh();
    // A neuron state that is NaN makes the states not all finite.
    let states = vec![f32::NAN, 0.0];
    let all_finite = states.iter().all(|x| x.is_finite());
    assert_eq!(health_check(all_finite, &mesh.circuits), DegradationMode::Minimal);
}

#[test]
fn health_check_modes() {
    let mesh = build_default_mesh();
    assert_eq!(health_check(true, &mesh.circuits), DegradationMode::Full);
    // With no circuits, not every circuit type is active.
    assert_eq!(health_check(true, &[]), DegradationMode::Degraded);
    assert_eq!(health_check(false, &[]), DegradationMode::Minimal);
    let only_detection =
        vec![Circuit::new(0, "d", vec![0], CircuitType::Detection, CircuitCriticality::Safety)];
    assert!(!all_circuit_types_active(&only_detection));
    assert!(all_circuit_types_active(&mesh.circuits));
    assert_eq!(DegradationMode::default(), DegradationMode::Full);
}

#[test]
fn detection_circuits_map_to_diagnoses() {
    assert_eq!(circuit_idx_to_diagnosis(0), DiagnosisType::KickDetected);
    assert_eq!(circuit_idx_to_diagnosis(1), DiagnosisType::LossDetected);
    assert_eq!(circuit_idx_to_diagnosis(2), DiagnosisType::PackOff);
    assert_eq!(circuit_idx_to_diagnosis(3), DiagnosisType::StickSlip);
    assert_eq!(circuit_idx_to_diagnosis(4), DiagnosisType::FounderCondition);
    assert_eq!(circuit_idx_to_diagnosis(5), DiagnosisType::Unknown);
}

#[test]
fn causation_readouts_name_parameters() {
    let names: Vec<&str> = (0..8).map(|p| causation_param_name(p).unwrap()).collect();
    assert_eq!(names, vec!["torque", "pressure", "flow_balance", "wob", "spp", "rop", "gas", "rpm"]);
    assert_eq!(causation_param_name(8), None);
}

#[test]
fn prediction_labels_follow_circuit_name() {
    assert_eq!(prediction_label("rop_prediction"), "rop_forecast");
    assert_eq!(prediction_label("state_prediction"), "state_forecast");
    assert_eq!(prediction_label("ro"), "state_forecast");
    assert_eq!(prediction_label("xxrop"), "rop_forecast");
}
