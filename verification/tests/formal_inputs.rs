use ficant_application::error::ApplicationErrorCategory;
use ficant_application::evidence::{PortfolioCatalogEvidenceBinding, PortfolioCatalogEvidenceRole as Role};
use ficant_application::risk_analysis::{PortfolioRiskNamedEvidenceBinding, PortfolioRiskNamedEvidenceKind};
use ficant_application::formal_inputs::{
    FormalInputEntry, FormalInputKind, FormalInputReference, benchmark_risk_formal_inputs,
    member_risk_formal_inputs, order_formal_inputs, portfolio_scope_formal_inputs,
};
use ficant_application::overview::PositionSnapshotBinding;
use ficant_application::primitives::{Instant, LocalDate, MarketTime, OwnerRef, VersionRef};

fn time(seconds: i64) -> MarketTime {
    MarketTime { instant: Instant { seconds, nanos: 0 }, market_timezone: "UTC".to_owned(), local_trading_date: LocalDate { year: 2025, month: 1, day: 2 } }
}

fn owner() -> OwnerRef {
    OwnerRef::new("tenant".to_owned(), "owner".to_owned())
}

fn binding(role: Role, id: &str) -> PortfolioCatalogEvidenceBinding {
    PortfolioCatalogEvidenceBinding {
        role,
        reference: VersionRef::new(id.to_owned(), 7),
        content_hash: id.as_bytes().to_vec(),
        visible_at: time(5),
        effective_from: time(1),
        effective_to: time(9),
    }
}

fn snapshot(id: &str) -> PositionSnapshotBinding {
    PositionSnapshotBinding { snapshot_id: id.to_owned(), content_hash: id.as_bytes().to_vec(), observed_at: time(3), visible_at: time(4) }
}

fn roles(entries: &[FormalInputEntry]) -> Vec<String> {
    entries.iter().map(|entry| entry.role.clone()).collect()
}

fn named(kind: PortfolioRiskNamedEvidenceKind, identity: &str) -> PortfolioRiskNamedEvidenceBinding {
    PortfolioRiskNamedEvidenceBinding { kind, identity: identity.to_owned(), content_hash: identity.as_bytes().to_vec(), observed_at: None, visible_at: Some(time(2)), effective_from: None, effective_to: None }
}

#[test]
fn scope_inputs_name_every_catalog_binding_and_snapshot() {
    let evidence = vec![
        binding(Role::SelectedGroup, "group"),
        binding(Role::MemberPortfolio, "p1"),
        binding(Role::Benchmark, "bench"),
        binding(Role::MemberPortfolio, "p2"),
        binding(Role::MetricConvention, "conv"),
    ];
    let inputs = portfolio_scope_formal_inputs(&owner(), &evidence, &[snapshot("s1"), snapshot("s2")]);
    assert_eq!(
        roles(&inputs),
        vec![
            "catalog.selected",
            "catalog.member.0000",
            "catalog.benchmark",
            "catalog.member.0001",
            "catalog.metric_convention",
            "position_snapshot.0000",
            "position_snapshot.0001",
        ]
    );
    let kinds: Vec<FormalInputKind> = inputs.iter().map(|entry| entry.kind).collect();
    assert_eq!(
        kinds,
        vec![
            FormalInputKind::PortfolioGroup,
            FormalInputKind::Portfolio,
            FormalInputKind::Benchmark,
            FormalInputKind::Portfolio,
            FormalInputKind::PortfolioMetricConvention,
            FormalInputKind::PositionSnapshot,
            FormalInputKind::PositionSnapshot,
        ]
    );
    match &inputs[1].reference {
        FormalInputReference::Object(reference) => {
            assert_eq!(reference.object_id, "p1");
            assert_eq!(reference.version, Some(7));
            assert_eq!(reference.content_hash, Some(b"p1".to_vec()));
        }
        FormalInputReference::Named(..) => panic!("catalog inputs are objects"),
    }
    assert_eq!(inputs[1].visible_at, Some(time(5)));
    assert_eq!(inputs[1].observed_at, None);
    match &inputs[6].reference {
        FormalInputReference::Object(reference) => {
            assert_eq!(reference.object_id, "s2");
            assert_eq!(reference.version, None);
        }
        FormalInputReference::Named(..) => panic!("snapshot inputs are objects"),
    }
    assert_eq!(inputs[6].observed_at, Some(time(3)));
    assert_eq!(inputs[6].effective_from, None);
}

#[test]
fn risk_inputs_are_numbered_under_their_member() {
    let inputs = vec![named(PortfolioRiskNamedEvidenceKind::FactorDefinition, "factor"), named(PortfolioRiskNamedEvidenceKind::CurveNodeDefinition, "node")];
    let member = member_risk_formal_inputs(&owner(), 3, &inputs);
    assert_eq!(roles(&member), vec!["member.0003.risk.0000", "member.0003.risk.0001"]);
    assert_eq!(member[0].kind, FormalInputKind::FactorDefinition);
    assert_eq!(member[1].kind, FormalInputKind::CurveNodeDefinition);
    assert_eq!(member[1].visible_at, Some(time(2)));
    match &member[1].reference {
        FormalInputReference::Named(identity, hash) => {
            assert_eq!(identity, "node");
            assert_eq!(hash, b"node");
        }
        FormalInputReference::Object(_) => panic!("definitions are named"),
    }
    let wide = member_risk_formal_inputs(&owner(), 12_345, &inputs[..1]);
    assert_eq!(roles(&wide), vec!["member.12345.risk.0000"]);
    let benchmark = benchmark_risk_formal_inputs(&owner(), &inputs);
    assert_eq!(roles(&benchmark), vec!["benchmark.risk.0000", "benchmark.risk.0001"]);
}

#[test]
fn formal_inputs_are_ordered_by_role_and_must_not_repeat_one() {
    let evidence = vec![
        binding(Role::SelectedBook, "book"),
        binding(Role::MemberPortfolio, "p1"),
        binding(Role::Benchmark, "bench"),
        binding(Role::MetricConvention, "conv"),
    ];
    let mut inputs = portfolio_scope_formal_inputs(&owner(), &evidence, &[snapshot("s1")]);
    inputs.extend(benchmark_risk_formal_inputs(&owner(), &[named(PortfolioRiskNamedEvidenceKind::FactorDefinition, "f")]));
    let ordered = order_formal_inputs(inputs.clone()).unwrap();
    assert_eq!(
        roles(&ordered),
        vec![
            "benchmark.risk.0000",
            "catalog.benchmark",
            "catalog.member.0000",
            "catalog.metric_convention",
            "catalog.selected",
            "position_snapshot.0000",
        ]
    );
    let mut repeated = inputs;
    repeated.extend(portfolio_scope_formal_inputs(&owner(), &[], &[snapshot("s9")]));
    assert_eq!(order_formal_inputs(repeated).unwrap_err().category(), ApplicationErrorCategory::LineageIncomplete);
    assert!(order_formal_inputs(Vec::new()).unwrap().is_empty());
}
