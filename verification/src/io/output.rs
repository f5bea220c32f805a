//! Severity and risk levels of the mesh's output.

use vstd::prelude::*;

verus! {

/// Severity of a detection.
#[derive(Debug, Clone, Copy, PartialEq, Eq, Structural)]
pub enum Severity {
    Low,
    Medium,
    High,
    Critical,
}

/// Overall risk level.
#[derive(Debug, Clone, Copy, PartialEq, Eq, Structural)]
pub enum RiskLevel {
    /// >85% efficiency, no anomalies.
    Green,
    /// Minor anomaly, log it.
    Yellow,
    /// Sustained issue, needs attention.
    Amber,
    /// Hard limit breach, immediate alert.
    Red,
}

/// Rank of a severity: Low < Medium < High < Critical.
pub open spec fn severity_rank(s: Severity) -> nat {
    match s {
        Severity::Low => 0,
        Severity::Medium => 1,
        Severity::High => 2,
        Severity::Critical => 3,
    }
}

/// Rank of a risk level: Green < Yellow < Amber < Red.
pub open spec fn risk_rank(r: RiskLevel) -> nat {
    match r {
        RiskLevel::Green => 0,
        RiskLevel::Yellow => 1,
        RiskLevel::Amber => 2,
        RiskLevel::Red => 3,
    }
}

/// The highest severity rank in `s` (0 when `s` is empty).
pub open spec fn max_severity_rank(s: Seq<Severity>) -> nat
    decreases s.len(),
{
    if s.len() == 0 {
        0
    } else {
        let m = max_severity_rank(s.drop_last());
        let r = severity_rank(s.last());
        if r > m { r } else { m }
    }
}

/// The risk level that a highest severity of rank `rank` calls for.
pub open spec fn risk_for_rank(rank: nat) -> RiskLevel {
    if rank >= 3 {
        RiskLevel::Red
    } else if rank == 2 {
        RiskLevel::Amber
    } else if rank == 1 {
        RiskLevel::Yellow
    } else {
        RiskLevel::Green
    }
}

/// The overall risk of a set of detections with the given severities.
pub open spec fn risk_of(s: Seq<Severity>) -> RiskLevel {
    if s.len() == 0 { RiskLevel::Green } else { risk_for_rank(max_severity_rank(s)) }
}

fn rank_of(s: Severity) -> (r: u8)
    ensures
        r == severity_rank(s),
{
    match s {
        Severity::Low => 0,
        Severity::Medium => 1,
        Severity::High => 2,
        Severity::Critical => 3,
    }
}

proof fn lemma_max_rank_bound(s: Seq<Severity>)
    ensures
        max_severity_rank(s) <= 3,
        forall|k: int| 0 <= k < s.len() ==> severity_rank(#[trigger] s[k]) <= max_severity_rank(s),
        s.len() > 0 ==> exists|k: int| 0 <= k < s.len() && severity_rank(#[trigger] s[k]) == max_severity_rank(s),
    decreases s.len(),
{
    if s.len() > 0 {
        lemma_max_rank_bound(s.drop_last());
        assert forall|k: int| 0 <= k < s.len() implies severity_rank(#[trigger] s[k]) <= max_severity_rank(s) by {
            if k < s.len() - 1 {
                assert(s[k] == s.drop_last()[k]);
            }
        }
        if severity_rank(s.last()) > max_severity_rank(s.drop_last()) {
            assert(severity_rank(s[s.len() - 1]) == max_severity_rank(s));
        } else if s.len() > 1 {
            let k = choose|k: int| 0 <= k < s.drop_last().len() && severity_rank(s.drop_last()[k]) == max_severity_rank(s.drop_last());
            assert(s[k] == s.drop_last()[k]);
        } else {
            assert(severity_rank(s[0]) == max_severity_rank(s));
        }
    }
}

/// Determine the overall risk level from the severities of the detections:
/// Green when there is none, otherwise the level that the highest severity
/// calls for (Critical: Red, High: Amber, Medium: Yellow, Low: Green).
pub fn compute_risk_level(severities: &[Severity]) -> (r: RiskLevel)
    ensures
        r == risk_of(severities@),
{
    if severities.len() == 0 {
        return RiskLevel::Green;
    }
    let mut best: u8 = 0;
    let mut k: usize = 0;
    while k < severities.len()
        invariant
            k <= severities@.len(),
            best == max_severity_rank(severities@.take(k as int)),
        decreases severities@.len() - k,
    {
        proof {
            assert(severities@.take(k as int + 1).drop_last() =~= severities@.take(k as int));
        }
        let r = rank_of(severities[k]);
        if r > best {
            best = r;
        }
        k += 1;
    }
    proof {
        assert(severities@.take(severities@.len() as int) =~= severities@);
    }
    if best >= 3 {
        RiskLevel::Red
    } else if best == 2 {
        RiskLevel::Amber
    } else if best == 1 {
        RiskLevel::Yellow
    } else {
        RiskLevel::Green
    }
}

/// One more detection never lowers the overall risk.
pub proof fn law_risk_monotone(s: Seq<Severity>, x: Severity)
    ensures
        risk_rank(risk_of(s)) <= risk_rank(risk_of(s.push(x))),
{
    assert(s.push(x).drop_last() =~= s);
}

/// The overall risk is at least what each single detection calls for, and
/// equals what the most severe one calls for.
pub proof fn law_risk_dominates_each_detection(s: Seq<Severity>)
    ensures
        forall|k: int| 0 <= k < s.len() ==>
            risk_rank(risk_for_rank(severity_rank(#[trigger] s[k]))) <= risk_rank(risk_of(s)),
        s.len() > 0 ==> exists|k: int| 0 <= k < s.len() && risk_of(s) == risk_for_rank(severity_rank(#[trigger] s[k])),
{
    lemma_max_rank_bound(s);
}

} // verus!
