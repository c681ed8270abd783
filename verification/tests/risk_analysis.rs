use ficant_application::aggregation::FactorDv01;
use ficant_application::decimal::{FixedDecimal, UnitRef};
use ficant_application::error::ApplicationErrorCategory;
use ficant_application::risk_analysis::{PortfolioRiskNamedEvidenceBinding, PortfolioRiskNamedEvidenceKind as Kind};
use ficant_application::risk_analysis::{KeyRateExposureFacts, PortfolioRiskAnalysis};

fn total(factor: &str) -> FactorDv01 {
    FactorDv01 {
        factor_id: factor.to_owned(),
        factor_definition_hash: format!("{factor}-definition").into_bytes(),
        value: FixedDecimal::from_scaled(1_000),
        unit: UnitRef::new("dv01".to_owned(), 1),
    }
}

fn exposure() -> KeyRateExposureFacts {
    KeyRateExposureFacts { totals: vec![total("2y"), total("10y")], input_evidence_hashes: vec![b"node-a".to_vec(), b"node-b".to_vec(), b"other".to_vec()] }
}

fn input(kind: Kind, identity: &str, hash: &[u8]) -> PortfolioRiskNamedEvidenceBinding {
    PortfolioRiskNamedEvidenceBinding { kind, identity: identity.to_owned(), content_hash: hash.to_vec(), observed_at: None, visible_at: None, effective_from: None, effective_to: None }
}

fn inputs() -> Vec<PortfolioRiskNamedEvidenceBinding> {
    vec![
        input(Kind::CurveNodeDefinition, "node-b", b"node-b"),
        input(Kind::FactorDefinition, "2y", b"2y-definition"),
        input(Kind::CurveNodeDefinition, "node-a", b"node-a"),
        input(Kind::FactorDefinition, "10y", b"10y-definition"),
    ]
}

fn category(result: Result<PortfolioRiskAnalysis, ficant_application::error::ApplicationError>) -> ApplicationErrorCategory {
    result.unwrap_err().category()
}

#[test]
fn bound_definitions_are_kept_in_kind_then_identity_order() {
    let analysis = PortfolioRiskAnalysis::new(exposure(), inputs()).unwrap();
    let order: Vec<(Kind, String)> = analysis.actual_inputs().iter().map(|i| (i.kind, i.identity.clone())).collect();
    assert_eq!(
        order,
        vec![
            (Kind::FactorDefinition, "10y".to_owned()),
            (Kind::FactorDefinition, "2y".to_owned()),
            (Kind::CurveNodeDefinition, "node-a".to_owned()),
            (Kind::CurveNodeDefinition, "node-b".to_owned()),
        ]
    );
    assert_eq!(analysis.exposure().totals.len(), 2);
}

#[test]
fn missing_extra_repeated_or_drifted_definitions_break_lineage() {
    let mut missing = inputs();
    missing.remove(1);
    assert_eq!(category(PortfolioRiskAnalysis::new(exposure(), missing)), ApplicationErrorCategory::LineageIncomplete);

    let mut repeated = inputs();
    repeated[2] = input(Kind::CurveNodeDefinition, "node-b", b"node-a");
    assert_eq!(category(PortfolioRiskAnalysis::new(exposure(), repeated)), ApplicationErrorCategory::LineageIncomplete);

    let mut drifted = inputs();
    drifted[1] = input(Kind::FactorDefinition, "2y", b"2y-other");
    assert_eq!(category(PortfolioRiskAnalysis::new(exposure(), drifted)), ApplicationErrorCategory::LineageIncomplete);

    let mut unconsumed = inputs();
    unconsumed[0] = input(Kind::CurveNodeDefinition, "node-b", b"node-z");
    assert_eq!(category(PortfolioRiskAnalysis::new(exposure(), unconsumed)), ApplicationErrorCategory::LineageIncomplete);

    let mut extra = inputs();
    extra.push(input(Kind::CurveNodeDefinition, "node-c", b"other"));
    assert_eq!(category(PortfolioRiskAnalysis::new(exposure(), extra)), ApplicationErrorCategory::LineageIncomplete);

    let empty = KeyRateExposureFacts { totals: Vec::new(), input_evidence_hashes: Vec::new() };
    assert_eq!(category(PortfolioRiskAnalysis::new(empty, Vec::new())), ApplicationErrorCategory::LineageIncomplete);
}
