use sairen_mesh::io::output::{compute_risk_level, RiskLevel, Severity};

#[test]
fn no_detection_is_green() {
    assert_eq!(compute_risk_level(&[]), RiskLevel::Green);
}

#[test]
fn risk_follows_highest_severity() {
    assert_eq!(compute_risk_level(&[Severity::Low]), RiskLevel::Green);
    assert_eq!(compute_risk_level(&[Severity::Low, Severity::Medium]), RiskLevel::Yellow);
    assert_eq!(compute_risk_level(&[Severity::High, Severity::Medium]), RiskLevel::Amber);
    assert_eq!(compute_risk_level(&[Severity::Low, Severity::Critical, Severity::High]), RiskLevel::Red);
}

#[test]
fn adding_a_detection_never_lowers_risk() {
    let rank = |r: RiskLevel| match r {
        RiskLevel::Green => 0,
        RiskLevel::Yellow => 1,
        RiskLevel::Amber => 2,
        RiskLevel::Red => 3,
    };
    let base = vec![Severity::High];
    let before = rank(compute_risk_level(&base));
    for s in [Severity::Low, Severity::Medium, Severity::High, Severity::Critical] {
        let mut more = base.clone();
        more.push(s);
        assert!(rank(compute_risk_level(&more)) >= before);
    }
}
