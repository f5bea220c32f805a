//! Labels of the synthetic training sequences.

use vstd::prelude::*;
use rand::rngs::StdRng;
use crate::rng::random_below;

verus! {

/// Anomaly type for labelling.
#[derive(Debug, Clone, Copy, PartialEq, Eq, Structural)]
pub enum AnomalyType {
    Normal,
    Kick,
    Loss,
    PackOff,
    StickSlip,
    Founder,
}

/// The kind of the `i`-th sequence of a mixed dataset: the six kinds in
/// turn, starting with a normal sequence.
pub open spec fn dataset_kind(i: nat) -> AnomalyType {
    let m = i % 6;
    if m == 0 { AnomalyType::Normal }
    else if m == 1 { AnomalyType::Kick }
    else if m == 2 { AnomalyType::Loss }
    else if m == 3 { AnomalyType::PackOff }
    else if m == 4 { AnomalyType::StickSlip }
    else { AnomalyType::Founder }
}

/// Which kind of sequence the `i`-th sequence of a mixed dataset is.
pub fn dataset_entry_kind(i: usize) -> (k: AnomalyType)
    ensures
        k == dataset_kind(i as nat),
{
    match i % 6 {
        0 => AnomalyType::Normal,
        1 => AnomalyType::Kick,
        2 => AnomalyType::Loss,
        3 => AnomalyType::PackOff,
        4 => AnomalyType::StickSlip,
        _ => AnomalyType::Founder,
    }
}

/// A random anomaly onset for a sequence of `seq_length` samples: in the
/// middle third, `seq_length / 3 + gen_range(0..seq_length / 3)`.
pub fn random_onset(seq_length: usize, rng: &mut StdRng) -> (onset: usize)
    requires
        seq_length >= 3,
    ensures
        seq_length / 3 <= onset < 2 * (seq_length / 3),
{
    let third = seq_length / 3;
    third + random_below(rng, third)
}

/// Label the samples `onset..end` of a sequence with `kind`, where `end`
/// is `onset + duration` cut off at the end of the sequence; returns `end`.
pub fn mark_anomaly_window(labels: &mut Vec<AnomalyType>, onset: usize, duration: usize, kind: AnomalyType) -> (end: usize)
    requires
        onset + duration <= usize::MAX,
    ensures
        end == if onset + duration < old(labels)@.len() { onset + duration } else { old(labels)@.len() as int },
        final(labels)@.len() == old(labels)@.len(),
        forall|i: int| 0 <= i < old(labels)@.len() ==>
            #[trigger] final(labels)@[i] == if onset <= i < end { kind } else { old(labels)@[i] },
{
    let length = labels.len();
    let end = if onset + duration < length { onset + duration } else { length };
    let mut i: usize = onset;
    while i < end
        invariant
            onset <= i,
            end <= length,
            onset >= end ==> i == onset,
            onset < end ==> i <= end,
            length == labels@.len(),
            labels@.len() == old(labels)@.len(),
            forall|j: int| 0 <= j < length ==>
                #[trigger] labels@[j] == if onset <= j < i { kind } else { old(labels)@[j] },
        decreases end - i,
    {
        labels[i] = kind;
        i += 1;
    }
    end
}

} // verus!
