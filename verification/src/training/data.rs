//! Training data utilities: label conversion and shuffling.

use vstd::prelude::*;
use rand::rngs::StdRng;
use crate::layout::index_range;
use crate::rng::random_below;
use crate::training::synthetic::AnomalyType;
use crate::memory::episodic::DiagnosisType;
use crate::adaptation::production::diagnosis_for_circuit;

verus! {

/// Number of detection circuits that receive a label.
pub const DETECTION_CIRCUITS: usize = 5;

/// Detection circuit of the default layout that watches for `anomaly`.
pub open spec fn anomaly_circuit(anomaly: AnomalyType) -> Option<usize> {
    match anomaly {
        AnomalyType::Kick => Some(0),
        AnomalyType::Loss => Some(1),
        AnomalyType::PackOff => Some(2),
        AnomalyType::StickSlip => Some(3),
        AnomalyType::Founder => Some(4),
        AnomalyType::Normal => None,
    }
}

/// Detection circuit index mapping.
/// Maps anomaly type to detection circuit index in the default layout.
pub fn anomaly_to_circuit_idx(anomaly: AnomalyType) -> (r: Option<usize>)
    ensures
        r == anomaly_circuit(anomaly),
{
    match anomaly {
        AnomalyType::Kick => Some(0),
        AnomalyType::Loss => Some(1),
        AnomalyType::PackOff => Some(2),
        AnomalyType::StickSlip => Some(3),
        AnomalyType::Founder => Some(4),
        AnomalyType::Normal => None,
    }
}

/// The anomaly labelled at `sample_idx`, or Normal past the end of the labels.
pub open spec fn label_at(labels: Seq<AnomalyType>, sample_idx: int) -> AnomalyType {
    if 0 <= sample_idx < labels.len() { labels[sample_idx] } else { AnomalyType::Normal }
}

/// Detection labels for one sample: every detection circuit `c` (0..5) in
/// order, paired with whether its anomaly is active at `sample_idx`.
pub fn detection_labels_for_sample(labels: &[AnomalyType], sample_idx: usize) -> (r: Vec<(usize, bool)>)
    ensures
        r@.len() == DETECTION_CIRCUITS,
        forall|c: int| 0 <= c < DETECTION_CIRCUITS ==> {
            &&& (#[trigger] r@[c]).0 == c
            &&& r@[c].1 == (anomaly_circuit(label_at(labels@, sample_idx as int)) == Some(c as usize))
        },
{
    let mut active: Option<usize> = None;
    if sample_idx < labels.len() {
        active = anomaly_to_circuit_idx(labels[sample_idx]);
    }
    let mut r: Vec<(usize, bool)> = Vec::new();
    let mut c: usize = 0;
    while c < DETECTION_CIRCUITS
        invariant
            c <= DETECTION_CIRCUITS,
            active == anomaly_circuit(label_at(labels@, sample_idx as int)),
            r@.len() == c,
            forall|k: int| 0 <= k < c ==> {
                &&& (#[trigger] r@[k]).0 == k
                &&& r@[k].1 == (active == Some(k as usize))
            },
        decreases DETECTION_CIRCUITS - c,
    {
        let on = match active {
            Some(a) => a == c,
            None => false,
        };
        r.push((c, on));
        c += 1;
    }
    r
}

/// The causal readouts for an anomaly: for each causation circuit of the
/// default layout (5 = torque, 6 = pressure, 7 = flow), the readout
/// positions (0 torque, 1 pressure, 2 flow_balance, 3 wob, 4 spp, 5 rop,
/// 6 gas, 7 rpm) whose target is set.
pub open spec fn causal_readouts(anomaly: AnomalyType) -> Seq<(usize, Seq<usize>)> {
    match anomaly {
        AnomalyType::Kick => seq![(7usize, seq![2usize])],
        AnomalyType::Loss => seq![(7usize, seq![2usize]), (6usize, seq![4usize])],
        AnomalyType::PackOff => seq![(5usize, seq![0usize]), (6usize, seq![4usize])],
        AnomalyType::StickSlip => seq![(5usize, seq![0usize, 7usize])],
        AnomalyType::Founder => seq![(5usize, seq![3usize])],
        AnomalyType::Normal => Seq::empty(),
    }
}

/// The view of a list of (circuit, positions) labels.
pub open spec fn readout_labels_view(r: Seq<(usize, Vec<usize>)>) -> Seq<(usize, Seq<usize>)> {
    r.map_values(|p: (usize, Vec<usize>)| (p.0, p.1@))
}

fn one(a: usize) -> (v: Vec<usize>)
    ensures
        v@ == seq![a],
{
    let mut v = Vec::new();
    v.push(a);
    proof {
        assert(v@ =~= seq![a]);
    }
    v
}

/// Causation labels for one sample: for each causation circuit concerned,
/// the readout positions whose target is set for the anomaly labelled at
/// `sample_idx` (Normal past the end of the labels).
pub fn causation_labels_for_sample(labels: &[AnomalyType], sample_idx: usize) -> (r: Vec<(usize, Vec<usize>)>)
    ensures
        readout_labels_view(r@) == causal_readouts(label_at(labels@, sample_idx as int)),
{
    let anomaly = if sample_idx < labels.len() { labels[sample_idx] } else { AnomalyType::Normal };
    let mut r: Vec<(usize, Vec<usize>)> = Vec::new();
    match anomaly {
        AnomalyType::Kick => {
            // Flow causation: flow_balance is causal.
            r.push((7, one(2)));
        },
        AnomalyType::Loss => {
            // Flow causation: flow_balance is causal.
            r.push((7, one(2)));
            // Pressure causation: SPP changes.
            r.push((6, one(4)));
        },
        AnomalyType::PackOff => {
            // Torque causation: torque is causal.
            r.push((5, one(0)));
            // Pressure causation: SPP is causal.
            r.push((6, one(4)));
        },
        AnomalyType::StickSlip => {
            // Torque causation: torque and RPM.
            let mut v = one(0);
            v.push(7);
            r.push((5, v));
        },
        AnomalyType::Founder => {
            // Torque causation: WOB is causal.
            r.push((5, one(3)));
        },
        AnomalyType::Normal => {},
    }
    proof {
        assert(readout_labels_view(r@) =~~= causal_readouts(anomaly));
    }
    r
}

/// `s` holds each of `0..n` exactly once.
pub open spec fn is_permutation_of_range(s: Seq<usize>, n: nat) -> bool {
    &&& s.len() == n
    &&& forall|k: int| 0 <= k < s.len() ==> #[trigger] s[k] < n
    &&& forall|a: int, b: int| 0 <= a < s.len() && 0 <= b < s.len() && a != b ==> s[a] != s[b]
}

/// Number of swaps (and draws) a Fisher-Yates shuffle of `n` items makes.
pub open spec fn fy_swaps(n: int) -> int {
    if n > 1 { n - 1 } else { 0 }
}

/// Draws a Fisher-Yates shuffle of `n` items can use: the `k`-th draw picks
/// the partner of position `n - 1 - k`, so it is at most `n - 1 - k`.
pub open spec fn valid_draws(draws: Seq<usize>, n: int) -> bool {
    &&& draws.len() == fy_swaps(n)
    &&& forall|k: int| 0 <= k < draws.len() ==> #[trigger] draws[k] <= n - 1 - k
}

/// `s` with the elements at positions `i` and `j` exchanged.
pub open spec fn swap_at(s: Seq<usize>, i: int, j: int) -> Seq<usize> {
    s.update(i, s[j]).update(j, s[i])
}

/// `0..n` after the first `m` Fisher-Yates swaps: the `k`-th swap exchanges
/// position `n - 1 - k` with position `draws[k]`.
pub open spec fn fy_steps(n: int, draws: Seq<usize>, m: int) -> Seq<usize>
    decreases m,
{
    if m <= 0 {
        index_range(0, n)
    } else {
        swap_at(fy_steps(n, draws, m - 1), n - m, draws[m - 1] as int)
    }
}

/// `0..n` shuffled by Fisher-Yates with the given draws: for `i` from
/// `n - 1` down to 1, position `i` is swapped with the next draw.
pub open spec fn fy(n: int, draws: Seq<usize>) -> Seq<usize> {
    fy_steps(n, draws, fy_swaps(n))
}

/// The Fisher-Yates shuffle of `0..n` with the given draws, in order: for
/// `i` from `n - 1` down to 1, swap position `i` with position `draws[n - 1 - i]`.
/// The result is a permutation of `0..n`.
pub fn apply_fisher_yates(n: usize, draws: &Vec<usize>) -> (r: Vec<usize>)
    requires
        valid_draws(draws@, n as int),
    ensures
        r@ == fy(n as int, draws@),
        is_permutation_of_range(r@, n as nat),
{
    let mut indices: Vec<usize> = Vec::new();
    let mut k: usize = 0;
    while k < n
        invariant
            k <= n,
            indices@ == index_range(0, k as int),
        decreases n - k,
    {
        indices.push(k);
        k += 1;
        assert(indices@ =~= index_range(0, k as int));
    }
    let steps: usize = if n > 1 { n - 1 } else { 0 };
    let mut m: usize = 0;
    while m < steps
        invariant
            m <= steps,
            steps == fy_swaps(n as int),
            valid_draws(draws@, n as int),
            indices@ == fy_steps(n as int, draws@, m as int),
            is_permutation_of_range(indices@, n as nat),
        decreases steps - m,
    {
        let i = n - 1 - m;
        let j = draws[m];
        let a = indices[i];
        let b = indices[j];
        indices.set(i, b);
        indices.set(j, a);
        m += 1;
        assert(indices@ =~= fy_steps(n as int, draws@, m as int));
    }
    indices
}

/// Shuffle indices using Fisher-Yates: start from `0..n` and, for `i` from
/// `n - 1` down to 1, swap position `i` with a random position `j <= i`.
/// The result is the Fisher-Yates shuffle of `0..n` with some valid draws,
/// hence a permutation of `0..n`.
pub fn shuffle_indices(n: usize, rng: &mut StdRng) -> (r: Vec<usize>)
    ensures
        exists|d: Seq<usize>| valid_draws(d, n as int) && r@ == fy(n as int, d),
        is_permutation_of_range(r@, n as nat),
{
    let mut draws: Vec<usize> = Vec::new();
    let mut i: usize = n;
    while i > 1
        invariant
            i <= n,
            n >= 1 ==> i >= 1,
            n > 1 ==> draws@.len() == n - i,
            n <= 1 ==> draws@.len() == 0,
            forall|k: int| 0 <= k < draws@.len() ==> #[trigger] draws@[k] <= n - 1 - k,
        decreases i,
    {
        i -= 1;
        // gen_range(0..=i) draws exactly as gen_range(0..i + 1).
        let j = random_below(rng, i + 1);
        draws.push(j);
    }
    let r = apply_fisher_yates(n, &draws);
    assert(valid_draws(draws@, n as int) && r@ == fy(n as int, draws@));
    r
}

/// The diagnosis that names an anomaly.
pub open spec fn anomaly_diagnosis(anomaly: AnomalyType) -> DiagnosisType {
    match anomaly {
        AnomalyType::Kick => DiagnosisType::KickDetected,
        AnomalyType::Loss => DiagnosisType::LossDetected,
        AnomalyType::PackOff => DiagnosisType::PackOff,
        AnomalyType::StickSlip => DiagnosisType::StickSlip,
        AnomalyType::Founder => DiagnosisType::FounderCondition,
        AnomalyType::Normal => DiagnosisType::Unknown,
    }
}

/// The detection circuit trained on an anomaly reports that anomaly's
/// diagnosis in production: training labels and production readout agree.
pub proof fn law_trained_circuit_reports_its_anomaly(anomaly: AnomalyType)
    ensures
        anomaly_circuit(anomaly) matches Some(c) ==> {
            &&& c < DETECTION_CIRCUITS
            &&& diagnosis_for_circuit(c as int) == anomaly_diagnosis(anomaly)
        },
{
}

/// Distinct anomalies are watched by distinct detection circuits, and only
/// normal samples leave every detection circuit unlabelled: a sample's
/// detection labels mark exactly one circuit when it is anomalous, none
/// when it is normal.
pub proof fn law_detection_labels_one_hot(a: AnomalyType, b: AnomalyType)
    ensures
        a != b && anomaly_circuit(a) is Some ==> anomaly_circuit(a) != anomaly_circuit(b),
        anomaly_circuit(a) is None <==> a == AnomalyType::Normal,
{
}

/// Every causal target names a causation circuit of the default layout
/// (5, 6 or 7) and one of its eight readout positions, and no circuit is
/// listed twice for one anomaly.
pub proof fn law_causal_targets_are_causation_readouts(anomaly: AnomalyType)
    ensures
        forall|k: int| 0 <= k < causal_readouts(anomaly).len() ==> {
            let (c, ps) = #[trigger] causal_readouts(anomaly)[k];
            &&& 5 <= c < 8
            &&& forall|j: int| 0 <= j < ps.len() ==> #[trigger] ps[j] < 8
        },
        forall|k: int, l: int| 0 <= k < l < causal_readouts(anomaly).len() ==>
            (#[trigger] causal_readouts(anomaly)[k]).0 != (#[trigger] causal_readouts(anomaly)[l]).0,
        causal_readouts(anomaly).len() == 0 <==> anomaly == AnomalyType::Normal,
{
}

} // verus!
