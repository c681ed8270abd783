use ficant_application::use_cases::{AnalyticsError, map_analytics_error};
use ficant_application::use_cases::{
    DataSourceAuthorizationFacts, DataSourceAuthorizationResolution, ImportAuthorizationDecision,
    check_import_access, check_import_authorization,
};
use ficant_application::error::{ApplicationError, ApplicationErrorCategory};
use ficant_application::futures::CtdCandidate;
use ficant_application::decimal::FixedDecimal;
use ficant_application::primitives::{OwnerRef, VersionRef};
use ficant_application::use_cases::{
    CalculateFuturesDeliveryBasket, CalculateFuturesHedge, DataSourceUseCase,
    FactorTopologyUseCase, FormalOutputUseCase, FoundationChangeUseCase, GovernedInputUseCase,
    ListPortfolioCatalog, Phase1BusinessLoop, Phase4Submission, PublishUniverseSnapshot,
    StagedSnapshot, authorize_governance_read, basket_ctd, check_authorization_source,
    check_data_source_registration, check_exact_data_source, check_submission_lineage,
    require_exact_target, require_non_empty,
};

fn owner() -> OwnerRef {
    OwnerRef::new("tenant".to_owned(), "owner".to_owned())
}

#[test]
fn use_cases_hold_their_ports() {
    assert_eq!(*DataSourceUseCase::new(1).repository(), 1);
    assert_eq!(*FormalOutputUseCase::new("repo").repository(), "repo");
    assert_eq!(*FactorTopologyUseCase::new(2).repository(), 2);
    assert_eq!(*Phase4Submission::new(3).repository(), 3);
    assert_eq!(*CalculateFuturesHedge::new(4).engine(), 4);
    assert_eq!(*CalculateFuturesDeliveryBasket::new(5).engine(), 5);
    let governed = GovernedInputUseCase::new(6, 7);
    assert_eq!((*governed.authorizations(), *governed.data_sources()), (6, 7));
    assert_eq!(*FoundationChangeUseCase::new(8).repository(), 8);
    let universe = PublishUniverseSnapshot::new(9, 10);
    assert_eq!((*universe.blob_store(), *universe.snapshots()), (9, 10));
    let business = Phase1BusinessLoop::new(1, 2, 3, 4);
    assert_eq!((*business.clock(), *business.id_generator(), *business.blob_store(), *business.transaction_runner()), (1, 2, 3, 4));
    let catalog = ListPortfolioCatalog::new("repository", "codec");
    assert_eq!((*catalog.repository(), *catalog.cursor_codec()), ("repository", "codec"));
}

#[test]
fn staged_snapshots_bind_only_verified_proofs() {
    let staged = StagedSnapshot::from_proof("snapshot", "proof", Ok(())).unwrap();
    assert_eq!((*staged.snapshot(), *staged.staged_proof()), ("snapshot", "proof"));
    let refused = StagedSnapshot::from_proof("snapshot", "proof", Err(ApplicationError::new(ApplicationErrorCategory::HashMismatch, false)));
    assert_eq!(refused.err().unwrap().category(), ApplicationErrorCategory::HashMismatch);
}

#[test]
fn data_source_decisions() {
    assert!(check_data_source_registration(true).is_ok());
    assert_eq!(check_data_source_registration(false).unwrap_err().category(), ApplicationErrorCategory::ValidationFailed);
    let reference = VersionRef::new("source".to_owned(), 2);
    assert!(check_exact_data_source(true, Ok(()), &"source".to_owned(), 2, true, &reference).is_ok());
    assert_eq!(check_exact_data_source(false, Ok(()), &"source".to_owned(), 2, true, &reference).unwrap_err().category(), ApplicationErrorCategory::NotFound);
    let denied = ApplicationError::new(ApplicationErrorCategory::Forbidden, false);
    assert_eq!(check_exact_data_source(true, Err(denied), &"source".to_owned(), 2, true, &reference).unwrap_err(), denied);
    assert_eq!(check_exact_data_source(true, Ok(()), &"source".to_owned(), 3, true, &reference).unwrap_err().category(), ApplicationErrorCategory::ValidationFailed);
    assert!(check_exact_data_source(true, Ok(()), &"source".to_owned(), 2, false, &reference).is_err());
}

#[test]
fn factor_topology_reads_are_never_empty_successes() {
    assert!(require_exact_target(true).is_ok());
    assert_eq!(require_exact_target(false).unwrap_err().category(), ApplicationErrorCategory::NotFound);
    assert_eq!(require_non_empty(vec![1, 2]).unwrap(), vec![1, 2]);
    assert_eq!(require_non_empty(Vec::<u8>::new()).unwrap_err().category(), ApplicationErrorCategory::NotFound);
}

#[test]
fn graph_submission_lineage() {
    let other = OwnerRef::new("tenant".to_owned(), "other".to_owned());
    assert!(check_submission_lineage(&owner(), &owner(), &"run".to_owned(), &"run".to_owned(), &[1, 2], &[1, 2]).is_ok());
    assert_eq!(check_submission_lineage(&other, &owner(), &"run".to_owned(), &"run".to_owned(), &[1], &[1]).unwrap_err().category(), ApplicationErrorCategory::LineageIncomplete);
    assert!(check_submission_lineage(&owner(), &owner(), &"run".to_owned(), &"other".to_owned(), &[1], &[1]).is_err());
    assert!(check_submission_lineage(&owner(), &owner(), &"run".to_owned(), &"run".to_owned(), &[1], &[2]).is_err());
}

#[test]
fn basket_selection_refuses_an_empty_basket() {
    assert_eq!(basket_ctd(&[]).unwrap_err().category(), ApplicationErrorCategory::ValidationFailed);
    let basket = [
        CtdCandidate { implied_repo_rate: FixedDecimal::from_scaled(1), net_basis: FixedDecimal::from_scaled(0), bond_id: "a".to_owned() },
        CtdCandidate { implied_repo_rate: FixedDecimal::from_scaled(2), net_basis: FixedDecimal::from_scaled(0), bond_id: "b".to_owned() },
    ];
    assert_eq!(basket_ctd(&basket).unwrap(), 1);
}

#[test]
fn governance_and_authorization_checks() {
    let scopes = vec!["governance:read".to_owned()];
    assert!(authorize_governance_read(Ok(()), &scopes).is_ok());
    assert_eq!(authorize_governance_read(Ok(()), &[]).unwrap_err().category(), ApplicationErrorCategory::Forbidden);
    let role = ApplicationError::new(ApplicationErrorCategory::Unauthenticated, false);
    assert_eq!(authorize_governance_read(Err(role), &scopes).unwrap_err(), role);
    assert!(check_authorization_source(&owner(), &owner(), &[1], &[1], &"schema".to_owned(), &"schema".to_owned(), &[2], &[2]).is_ok());
    assert_eq!(check_authorization_source(&owner(), &owner(), &[1], &[9], &"schema".to_owned(), &"schema".to_owned(), &[2], &[2]).unwrap_err().category(), ApplicationErrorCategory::ValidationFailed);
    assert!(check_authorization_source(&owner(), &owner(), &[1], &[1], &"schema".to_owned(), &"other".to_owned(), &[2], &[2]).is_err());
}

#[test]
fn analytics_failures_map_to_closed_categories() {
    for error in [
        AnalyticsError::InvalidInput,
        AnalyticsError::AbiMismatch,
        AnalyticsError::BufferTooSmall,
        AnalyticsError::NoBracket,
        AnalyticsError::NotConverged,
        AnalyticsError::NonFinite,
        AnalyticsError::CalendarCoverageMissing,
    ] {
        assert_eq!(map_analytics_error(error), ApplicationError::new(ApplicationErrorCategory::ValidationFailed, false));
    }
    assert_eq!(map_analytics_error(AnalyticsError::Internal), ApplicationError::new(ApplicationErrorCategory::StateConflict, false));
}

fn at(seconds: i64) -> ficant_application::primitives::MarketTime {
    ficant_application::primitives::MarketTime {
        instant: ficant_application::primitives::Instant { seconds, nanos: 0 },
        market_timezone: "UTC".to_owned(),
        local_trading_date: ficant_application::primitives::LocalDate { year: 2025, month: 1, day: 1 },
    }
}

fn authorization() -> DataSourceAuthorizationFacts {
    DataSourceAuthorizationFacts {
        owner: OwnerRef::new("t".to_owned(), "o".to_owned()),
        data_source: VersionRef::new("source".to_owned(), 2),
        import_interface: "PriceSnapshot".to_owned(),
        mapping_id: "mapping".to_owned(),
        mapping_hash: vec![1, 2, 3],
        active: true,
        effective_from: at(100),
        effective_to: at(200),
    }
}

fn decide(resolution: Option<DataSourceAuthorizationResolution>, when: i64) -> ImportAuthorizationDecision {
    let access = check_import_access(Ok(()), &["data-source:import".to_owned()], &"data-source:import".to_owned()).unwrap();
    check_import_authorization(&access, resolution, Ok(()), &"PriceSnapshot".to_owned(), &"mapping".to_owned(), &[1, 2, 3], &at(when))
}

#[test]
fn import_authorization_decides_before_the_source_is_read() {
    let scopes = vec!["data-source:import".to_owned()];
    match decide(Some(DataSourceAuthorizationResolution::Authorized(authorization())), 150) {
        ImportAuthorizationDecision::ReadSource(source) => assert_eq!(source, VersionRef::new("source".to_owned(), 2)),
        other => panic!("unexpected {other:?}"),
    }
    assert!(matches!(decide(Some(DataSourceAuthorizationResolution::Authorized(authorization())), 200), ImportAuthorizationDecision::NotAuthorized(Some(_))));
    assert!(matches!(decide(None, 150), ImportAuthorizationDecision::NotAuthorized(None)));
    let mismatch = DataSourceAuthorizationResolution::OwnerMismatch { data_source: VersionRef::new("other".to_owned(), 1) };
    assert!(matches!(decide(Some(mismatch), 150), ImportAuthorizationDecision::NotAuthorized(Some(_))));
    let scope = "data-source:import".to_owned();
    assert!(check_import_access(Ok(()), &scopes, &scope).is_ok());
    assert_eq!(check_import_access(Ok(()), &[], &scope).unwrap_err().category(), ApplicationErrorCategory::Forbidden);
    let unauthenticated = ApplicationError::new(ApplicationErrorCategory::Unauthenticated, false);
    assert_eq!(check_import_access(Err(unauthenticated), &scopes, &scope).unwrap_err(), unauthenticated);
    let inactive = DataSourceAuthorizationFacts { active: false, ..authorization() };
    assert!(matches!(decide(Some(DataSourceAuthorizationResolution::Authorized(inactive)), 150), ImportAuthorizationDecision::NotAuthorized(Some(_))));
}
