//! Decision rules of the production mesh: which diagnosis a detection
//! circuit stands for, which parameter a causation readout names, and which
//! degradation mode the mesh runs in.

use vstd::prelude::*;
use crate::circuit::{Circuit, CircuitType};
use crate::config::DegradationMode;
use crate::memory::episodic::DiagnosisType;

verus! {

/// Diagnosis reported by the detection circuit at index `idx` of the default layout.
pub open spec fn diagnosis_for_circuit(idx: int) -> DiagnosisType {
    if idx == 0 { DiagnosisType::KickDetected }
    else if idx == 1 { DiagnosisType::LossDetected }
    else if idx == 2 { DiagnosisType::PackOff }
    else if idx == 3 { DiagnosisType::StickSlip }
    else if idx == 4 { DiagnosisType::FounderCondition }
    else { DiagnosisType::Unknown }
}

/// Map a detection circuit index (0-4) to a DiagnosisType.
pub fn circuit_idx_to_diagnosis(idx: usize) -> (d: DiagnosisType)
    ensures
        d == diagnosis_for_circuit(idx as int),
{
    match idx {
        0 => DiagnosisType::KickDetected,
        1 => DiagnosisType::LossDetected,
        2 => DiagnosisType::PackOff,
        3 => DiagnosisType::StickSlip,
        4 => DiagnosisType::FounderCondition,
        _ => DiagnosisType::Unknown,
    }
}

/// Parameter named by readout position `pos` of a causation circuit.
pub open spec fn causation_param(pos: int) -> Seq<char> {
    if pos == 0 { "torque"@ }
    else if pos == 1 { "pressure"@ }
    else if pos == 2 { "flow_balance"@ }
    else if pos == 3 { "wob"@ }
    else if pos == 4 { "spp"@ }
    else if pos == 5 { "rop"@ }
    else if pos == 6 { "gas"@ }
    else { "rpm"@ }
}

/// Number of causal parameters a causation circuit reads out.
pub const CAUSATION_PARAM_COUNT: usize = 8;

/// Name of the causal parameter at readout position `pos` of a causation
/// circuit; its last eight neurons map to torque, pressure, flow_balance,
/// wob, spp, rop, gas, rpm.
pub fn causation_param_name(pos: usize) -> (r: Option<&'static str>)
    ensures
        r is Some <==> pos < CAUSATION_PARAM_COUNT,
        r matches Some(name) ==> name@ == causation_param(pos as int),
{
    match pos {
        0 => Some("torque"),
        1 => Some("pressure"),
        2 => Some("flow_balance"),
        3 => Some("wob"),
        4 => Some("spp"),
        5 => Some("rop"),
        6 => Some("gas"),
        7 => Some("rpm"),
        _ => None,
    }
}

/// Some circuit in `circuits` has type `t`.
pub open spec fn has_type(circuits: Seq<Circuit>, t: CircuitType) -> bool {
    exists|k: int| 0 <= k < circuits.len() && #[trigger] circuits[k].circuit_type == t
}

/// Every circuit type has at least one representative.
pub open spec fn all_types_present(circuits: Seq<Circuit>) -> bool {
    &&& has_type(circuits, CircuitType::Detection)
    &&& has_type(circuits, CircuitType::Causation)
    &&& has_type(circuits, CircuitType::Prediction)
    &&& has_type(circuits, CircuitType::Memory)
}

fn has_circuit_type(circuits: &[Circuit], t: CircuitType) -> (r: bool)
    ensures
        r == has_type(circuits@, t),
{
    let mut k: usize = 0;
    while k < circuits.len()
        invariant
            k <= circuits@.len(),
            forall|j: int| 0 <= j < k ==> #[trigger] circuits@[j].circuit_type != t,
        decreases circuits@.len() - k,
    {
        if circuits[k].circuit_type == t {
            return true;
        }
        k += 1;
    }
    false
}

/// Check if all circuit types have at least one representative.
pub fn all_circuit_types_active(circuits: &[Circuit]) -> (r: bool)
    ensures
        r == all_types_present(circuits@),
{
    has_circuit_type(circuits, CircuitType::Detection)
        && has_circuit_type(circuits, CircuitType::Causation)
        && has_circuit_type(circuits, CircuitType::Prediction)
        && has_circuit_type(circuits, CircuitType::Memory)
}

/// The degradation mode for a mesh whose neuron states are all finite or
/// not, with the given circuits.
pub open spec fn mode_for(all_states_finite: bool, circuits: Seq<Circuit>) -> DegradationMode {
    if !all_states_finite {
        DegradationMode::Minimal
    } else if !all_types_present(circuits) {
        DegradationMode::Degraded
    } else {
        DegradationMode::Full
    }
}

/// Check system health and determine the degradation mode: Minimal when
/// some neuron state is not finite, Degraded when some circuit type has no
/// circuit, Full otherwise.
pub fn health_check(all_states_finite: bool, circuits: &[Circuit]) -> (m: DegradationMode)
    ensures
        m == mode_for(all_states_finite, circuits@),
{
    if !all_states_finite {
        return DegradationMode::Minimal;
    }
    if !all_circuit_types_active(circuits) {
        return DegradationMode::Degraded;
    }
    DegradationMode::Full
}

/// The types are active exactly when every circuit type, whichever it is,
/// has at least one circuit: a list missing any one type (memory among
/// them) is not all active.
pub proof fn law_all_types_active_means_every_type(circuits: Seq<Circuit>)
    ensures
        all_types_present(circuits) <==> forall|t: CircuitType| #[trigger] has_type(circuits, t),
        (exists|t: CircuitType| !#[trigger] has_type(circuits, t)) ==> !all_types_present(circuits),
{
    if all_types_present(circuits) {
        assert forall|t: CircuitType| #[trigger] has_type(circuits, t) by {
            match t {
                CircuitType::Detection => {},
                CircuitType::Causation => {},
                CircuitType::Prediction => {},
                CircuitType::Memory => {},
            }
        }
    }
    if forall|t: CircuitType| #[trigger] has_type(circuits, t) {
        assert(has_type(circuits, CircuitType::Detection));
        assert(has_type(circuits, CircuitType::Causation));
        assert(has_type(circuits, CircuitType::Prediction));
        assert(has_type(circuits, CircuitType::Memory));
    }
}

/// The health check's mode with finite states: Full exactly when every
/// circuit type has a circuit, Degraded exactly when some type has none;
/// with a non-finite state it is always Minimal.
pub proof fn law_health_mode_by_types(circuits: Seq<Circuit>, finite: bool)
    ensures
        mode_for(true, circuits) == DegradationMode::Full <==> forall|t: CircuitType| #[trigger] has_type(circuits, t),
        mode_for(true, circuits) == DegradationMode::Degraded <==> exists|t: CircuitType| !#[trigger] has_type(circuits, t),
        !finite ==> mode_for(finite, circuits) == DegradationMode::Minimal,
        mode_for(finite, circuits) == DegradationMode::Minimal ==> !finite,
{
    law_all_types_active_means_every_type(circuits);
}

/// "rop" starts at position `i` of `s`.
pub open spec fn rop_at(s: Seq<char>, i: int) -> bool {
    0 <= i && i + 3 <= s.len() && s[i] == 'r' && s[i + 1] == 'o' && s[i + 2] == 'p'
}

/// `s` contains the substring "rop".
pub open spec fn mentions_rop(s: Seq<char>) -> bool {
    exists|i: int| #[trigger] rop_at(s, i)
}

/// What a prediction circuit forecasts, by its name: "rop_forecast" for a
/// circuit whose name contains "rop", "state_forecast" otherwise.
pub fn prediction_label(circuit_name: &str) -> (r: &'static str)
    ensures
        r@ == if mentions_rop(circuit_name@) { "rop_forecast"@ } else { "state_forecast"@ },
{
    let n = circuit_name.unicode_len();
    let mut i: usize = 0;
    while i < n && n - i >= 3
        invariant
            i <= n,
            n == circuit_name@.len(),
            forall|j: int| j < i ==> !#[trigger] rop_at(circuit_name@, j),
        decreases n - i,
    {
        if circuit_name.get_char(i) == 'r' && circuit_name.get_char(i + 1) == 'o' && circuit_name.get_char(i + 2) == 'p' {
            assert(rop_at(circuit_name@, i as int));
            return "rop_forecast";
        }
        i += 1;
    }
    "state_forecast"
}

} // verus!
