use ficant_application::aggregation::{PortfolioCoverageReason, PortfolioMetricDataMode};
use ficant_application::error::{ApplicationError, ApplicationErrorCategory};
use ficant_application::primitives::VersionRef;
use ficant_application::formal_inputs::{FormalInputKind, FormalInputReference};
use ficant_application::workbench::{
    MarketFactFacts, ValuationAuthorityBinding, p04_fact_input, validate_p04_fact, validate_valuation_binding,
};
use ficant_application::workbench::{
    PortfolioCurrencyMode, PortfolioDefaultContextResult, PortfolioLookThroughMode,
    PortfolioPageCoverageReason, PortfolioPageDataMode, PortfolioPageSelection,
    PortfolioPageState, PortfolioPeriodPreset, PortfolioWorkbenchErrorCode,
    PortfolioWorkbenchPageId, PortfolioWorkbenchSourceError, authorize_page, catalog_page_state,
    currency_code, domain_coverage_reasons, evidence_shape_is_invalid, look_through_code,
    object_subject_matches, overview_page_data_mode, page_code, page_reasons, period_code,
    permissions_for, structure_metrics, trace_id_for_request, typed_error, typed_source_error,
    validate_catalog_read, validate_instrument_read, validate_non_formal_read,
    validate_page_materialization, validate_selection, validate_success_mode,
    default_context_result,
};
use sha2::Digest;

fn error(category: ApplicationErrorCategory, retryable: bool) -> ApplicationError {
    ApplicationError::new(category, retryable)
}

#[test]
fn typed_errors_map_every_category_to_a_closed_code() {
    let cases = [
        (ApplicationErrorCategory::Unauthenticated, PortfolioWorkbenchErrorCode::Unauthenticated, "authentication required"),
        (ApplicationErrorCategory::Forbidden, PortfolioWorkbenchErrorCode::Forbidden, "portfolio access denied"),
        (ApplicationErrorCategory::NotFound, PortfolioWorkbenchErrorCode::NotFound, "portfolio data not found"),
        (ApplicationErrorCategory::AlreadyExists, PortfolioWorkbenchErrorCode::Conflict, "portfolio state conflict"),
        (ApplicationErrorCategory::VersionConflict, PortfolioWorkbenchErrorCode::Conflict, "portfolio state conflict"),
        (ApplicationErrorCategory::ConcurrencyConflict, PortfolioWorkbenchErrorCode::Conflict, "portfolio state conflict"),
        (ApplicationErrorCategory::ImmutableViolation, PortfolioWorkbenchErrorCode::Conflict, "portfolio state conflict"),
        (ApplicationErrorCategory::StateConflict, PortfolioWorkbenchErrorCode::Conflict, "portfolio state conflict"),
        (ApplicationErrorCategory::ValidationFailed, PortfolioWorkbenchErrorCode::Integrity, "portfolio input integrity failure"),
        (ApplicationErrorCategory::HashMismatch, PortfolioWorkbenchErrorCode::Integrity, "portfolio input integrity failure"),
        (ApplicationErrorCategory::LineageIncomplete, PortfolioWorkbenchErrorCode::Integrity, "portfolio input integrity failure"),
        (ApplicationErrorCategory::StorageUnavailable, PortfolioWorkbenchErrorCode::Unavailable, "portfolio service unavailable"),
    ];
    for (category, code, message) in cases {
        let typed = typed_error(&error(category, true), "trace".to_owned());
        assert_eq!(typed.code(), code);
        assert_eq!(typed.safe_message(), message);
        assert_eq!(typed.trace_id(), "trace");
        assert!(typed.retryable());
        assert_ne!(typed.code(), PortfolioWorkbenchErrorCode::Stale);
    }
}

#[test]
fn stale_sources_report_the_stale_code() {
    let typed = typed_source_error(
        &PortfolioWorkbenchSourceError::Stale { retryable: true },
        "t".to_owned(),
    );
    assert_eq!(typed.code(), PortfolioWorkbenchErrorCode::Stale);
    assert_eq!(typed.safe_message(), "portfolio data is stale");
    assert!(typed.retryable());
    let from_app = typed_source_error(
        &PortfolioWorkbenchSourceError::from(error(ApplicationErrorCategory::NotFound, false)),
        "t".to_owned(),
    );
    assert_eq!(from_app.code(), PortfolioWorkbenchErrorCode::NotFound);
    assert!(!from_app.retryable());
}

#[test]
fn page_permissions_are_fixed_and_nested() {
    let p01 = permissions_for(PortfolioWorkbenchPageId::P01);
    let p03 = permissions_for(PortfolioWorkbenchPageId::P03);
    let p04 = permissions_for(PortfolioWorkbenchPageId::P04);
    let d01 = permissions_for(PortfolioWorkbenchPageId::D01);
    assert_eq!(p01, vec!["portfolio:read".to_owned()]);
    assert_eq!(p03, vec!["portfolio:read".to_owned(), "positions:read".to_owned()]);
    assert_eq!(
        p04,
        vec![
            "portfolio:read".to_owned(),
            "positions:read".to_owned(),
            "rates:analyze".to_owned(),
            "facts:read".to_owned(),
            "definitions:read".to_owned(),
        ]
    );
    assert_eq!(d01.len(), 6);
    assert_eq!(d01[5], "artifacts:read");
    assert_eq!(d01, permissions_for(PortfolioWorkbenchPageId::P02));
}

#[test]
fn page_authorization_checks_role_owner_then_scopes() {
    let scopes = vec!["portfolio:read".to_owned(), "positions:read".to_owned()];
    assert!(authorize_page(Ok(()), Ok(()), &scopes, PortfolioWorkbenchPageId::P03).is_ok());
    assert_eq!(
        authorize_page(Ok(()), Ok(()), &scopes, PortfolioWorkbenchPageId::P04)
            .unwrap_err()
            .category(),
        ApplicationErrorCategory::Forbidden
    );
    let role = error(ApplicationErrorCategory::Unauthenticated, false);
    let owner = error(ApplicationErrorCategory::NotFound, false);
    assert_eq!(
        authorize_page(Err(role), Err(owner), &scopes, PortfolioWorkbenchPageId::P01).unwrap_err(),
        role
    );
    assert_eq!(
        authorize_page(Ok(()), Err(owner), &scopes, PortfolioWorkbenchPageId::P01).unwrap_err(),
        owner
    );
}

#[test]
fn only_the_instrument_page_takes_a_selection() {
    let selection = PortfolioPageSelection::new(VersionRef::new("bond".to_owned(), 3));
    assert_eq!(selection.instrument(), &VersionRef::new("bond".to_owned(), 3));
    assert!(validate_selection(PortfolioWorkbenchPageId::P04, Some(&selection)).is_ok());
    assert!(validate_selection(PortfolioWorkbenchPageId::P01, None).is_ok());
    assert_eq!(
        validate_selection(PortfolioWorkbenchPageId::P04, None).unwrap_err().category(),
        ApplicationErrorCategory::ValidationFailed
    );
    assert!(validate_selection(PortfolioWorkbenchPageId::D01, Some(&selection)).is_err());
}

#[test]
fn success_modes_agree_with_coverage() {
    let reason = [PortfolioPageCoverageReason::MissingCriticalField];
    assert!(validate_success_mode(PortfolioPageDataMode::Real, &[]).is_ok());
    assert!(validate_success_mode(PortfolioPageDataMode::Real, &reason).is_err());
    assert!(validate_success_mode(PortfolioPageDataMode::Partial, &reason).is_ok());
    assert!(validate_success_mode(PortfolioPageDataMode::Partial, &[]).is_err());
    assert!(validate_success_mode(PortfolioPageDataMode::Stale, &[]).is_ok());
    assert_eq!(
        validate_success_mode(PortfolioPageDataMode::Error, &[]).unwrap_err().category(),
        ApplicationErrorCategory::HashMismatch
    );
    assert!(validate_instrument_read(PortfolioPageDataMode::Real, &[], 1).is_ok());
    assert!(validate_instrument_read(PortfolioPageDataMode::Real, &[], 0).is_err());
    assert!(validate_catalog_read(PortfolioPageDataMode::Real, 1).is_ok());
    assert!(validate_catalog_read(PortfolioPageDataMode::Partial, 1).is_err());
    assert!(validate_catalog_read(PortfolioPageDataMode::Stale, 0).is_err());
}

#[test]
fn materialization_checks_shape_and_evidence() {
    let reasons = [PortfolioPageCoverageReason::NonBondExcludedFromWeightedAverages];
    assert!(validate_page_materialization(PortfolioWorkbenchPageId::P01, PortfolioPageDataMode::Real, None, 0, 1, false).is_ok());
    assert!(validate_page_materialization(PortfolioWorkbenchPageId::P01, PortfolioPageDataMode::Real, Some(&[]), 0, 1, false).is_err());
    assert!(validate_page_materialization(PortfolioWorkbenchPageId::P01, PortfolioPageDataMode::Real, None, 1, 1, false).is_err());
    assert!(validate_page_materialization(PortfolioWorkbenchPageId::P03, PortfolioPageDataMode::Partial, Some(&reasons), 1, 0, false).is_ok());
    assert!(validate_page_materialization(PortfolioWorkbenchPageId::P03, PortfolioPageDataMode::Partial, None, 1, 0, false).is_err());
    assert!(validate_page_materialization(PortfolioWorkbenchPageId::P03, PortfolioPageDataMode::Partial, Some(&reasons), 0, 0, false).is_err());
    assert!(validate_page_materialization(PortfolioWorkbenchPageId::P03, PortfolioPageDataMode::Partial, Some(&reasons), 1, 0, true).is_err());
    assert!(evidence_shape_is_invalid(PortfolioWorkbenchPageId::P01, 0, 0));
    assert!(!evidence_shape_is_invalid(PortfolioWorkbenchPageId::P02, 2, 0));
}

#[test]
fn page_modes_states_and_codes() {
    assert_eq!(overview_page_data_mode(PortfolioMetricDataMode::Real), PortfolioPageDataMode::Real);
    assert_eq!(overview_page_data_mode(PortfolioMetricDataMode::Partial), PortfolioPageDataMode::Partial);
    assert_eq!(overview_page_data_mode(PortfolioMetricDataMode::Stale), PortfolioPageDataMode::Stale);
    assert_eq!(catalog_page_state(0), PortfolioPageState::Empty);
    assert_eq!(catalog_page_state(4), PortfolioPageState::Ready);
    assert_eq!(page_code(PortfolioWorkbenchPageId::D01), 1);
    assert_eq!(page_code(PortfolioWorkbenchPageId::P04), 5);
    assert_eq!(currency_code(PortfolioCurrencyMode::Cny), 2);
    assert_eq!(look_through_code(PortfolioLookThroughMode::Separate), 3);
    assert_eq!(period_code(PortfolioPeriodPreset::YearToDate), 4);
    let metrics = structure_metrics(1, 2, 3);
    assert_eq!((metrics.book_count, metrics.group_count, metrics.portfolio_count), (1, 2, 3));
}

#[test]
fn coverage_reasons_carry_over_in_order() {
    let reasons = page_reasons(&[
        PortfolioCoverageReason::PositionExcludedFromPortfolioRisk,
        PortfolioCoverageReason::ShortPositionExcludedFromWeightedAverages,
    ]);
    assert_eq!(
        reasons,
        vec![
            PortfolioPageCoverageReason::PositionExcludedFromPortfolioRisk,
            PortfolioPageCoverageReason::ShortPositionExcludedFromWeightedAverages,
        ]
    );
    assert!(domain_coverage_reasons(0).is_empty());
    assert_eq!(domain_coverage_reasons(3), vec![PortfolioPageCoverageReason::MissingCriticalField]);
}

#[test]
fn trace_id_is_the_hex_of_the_first_digest_bytes() {
    let digest = sha2::Sha256::digest(b"request-1");
    let expected: String = digest[..16].iter().map(|b| format!("{b:02x}")).collect();
    let trace = trace_id_for_request("request-1");
    assert_eq!(trace, expected);
    assert_eq!(trace.len(), 32);
    assert_ne!(trace, trace_id_for_request("request-2"));
}

#[test]
fn default_context_result_reports_failures_as_typed_errors() {
    match default_context_result::<u32>(Ok(7), "t".to_owned()) {
        PortfolioDefaultContextResult::Context(context) => assert_eq!(*context, 7),
        PortfolioDefaultContextResult::Error(_) => panic!("expected a context"),
    }
    match default_context_result::<u32>(Err(error(ApplicationErrorCategory::Forbidden, false)), "t".to_owned()) {
        PortfolioDefaultContextResult::Error(typed) => {
            assert_eq!(typed.code(), PortfolioWorkbenchErrorCode::Forbidden)
        }
        PortfolioDefaultContextResult::Context(_) => panic!("expected an error"),
    }
}

#[test]
fn non_formal_reads_need_stable_schema_and_unique_roles() {
    let roles = vec!["subject".to_owned(), "catalog".to_owned()];
    assert!(validate_non_formal_read("schema.v1", &roles).is_ok());
    assert_eq!(validate_non_formal_read(" schema", &roles).unwrap_err().category(), ApplicationErrorCategory::ValidationFailed);
    assert_eq!(validate_non_formal_read("schéma", &roles).unwrap_err().category(), ApplicationErrorCategory::ValidationFailed);
    assert_eq!(validate_non_formal_read("schema", &[]).unwrap_err().category(), ApplicationErrorCategory::ValidationFailed);
    let duplicated = vec!["subject".to_owned(), "catalog".to_owned(), "subject".to_owned()];
    assert_eq!(validate_non_formal_read("schema", &duplicated).unwrap_err().category(), ApplicationErrorCategory::HashMismatch);
}

#[test]
fn subjects_match_by_id_and_exact_version() {
    let subject = VersionRef::new("s".to_owned(), 4);
    assert!(object_subject_matches(&"s".to_owned(), Some(4), &subject));
    assert!(!object_subject_matches(&"s".to_owned(), Some(5), &subject));
    assert!(!object_subject_matches(&"s".to_owned(), None, &subject));
    assert!(!object_subject_matches(&"t".to_owned(), Some(4), &subject));
}

fn fact_time(seconds: i64) -> ficant_application::primitives::MarketTime {
    ficant_application::primitives::MarketTime {
        instant: ficant_application::primitives::Instant { seconds, nanos: 0 },
        market_timezone: "Asia/Shanghai".to_owned(),
        local_trading_date: ficant_application::primitives::LocalDate { year: 2026, month: 8, day: 21 },
    }
}

fn valuation_fact(content_hash: &[u8]) -> MarketFactFacts {
    MarketFactFacts {
        id: "01ARZ3NDEKTSV4RRFFQ69G5FAV".to_owned(),
        source_revision: 1,
        content_hash: content_hash.to_vec(),
        owner: ficant_application::primitives::OwnerRef::new("tenant".to_owned(), "owner".to_owned()),
        instrument: VersionRef::new("bond".to_owned(), 1),
        event_time: fact_time(1_000),
        valuation_value_count: Some(1),
    }
}

#[test]
fn valuation_binding_requires_the_exact_fact_content() {
    let binding = ValuationAuthorityBinding { valuation_id: "01ARZ3NDEKTSV4RRFFQ69G5FAV".to_owned(), source_revision: 1, content_hash: vec![1, 2], value_index: 0 };
    assert!(validate_valuation_binding(&binding, &[valuation_fact(&[1, 2])]).is_ok());
    assert_eq!(validate_valuation_binding(&binding, &[valuation_fact(&[1, 3])]).unwrap_err().category(), ApplicationErrorCategory::HashMismatch);
    assert!(validate_valuation_binding(&binding, &[valuation_fact(&[1, 2]), valuation_fact(&[1, 2])]).is_err());
    let beyond = ValuationAuthorityBinding { value_index: 1, ..binding.clone() };
    assert!(validate_valuation_binding(&beyond, &[valuation_fact(&[1, 2])]).is_err());
    let quote = MarketFactFacts { valuation_value_count: None, ..valuation_fact(&[1, 2]) };
    assert!(validate_valuation_binding(&binding, &[quote]).is_err());
}

#[test]
fn page_facts_lie_inside_the_period() {
    let context = ficant_application::overview::NormalizedPortfolioContext {
        owner: ficant_application::primitives::OwnerRef::new("tenant".to_owned(), "owner".to_owned()),
        subject_ref: VersionRef::new("subject".to_owned(), 1),
        valuation_at: fact_time(2_000),
        knowledge_at: fact_time(3_000),
        period_from: fact_time(500),
        period_to: fact_time(2_000),
        member_portfolios: vec![],
        currency_unit: ficant_application::decimal::UnitRef::new("cny".to_owned(), 1),
    };
    let instrument = VersionRef::new("bond".to_owned(), 1);
    assert!(validate_p04_fact(&context, &instrument, &valuation_fact(&[1])).is_ok());
    let early = MarketFactFacts { event_time: fact_time(499), ..valuation_fact(&[1]) };
    assert_eq!(validate_p04_fact(&context, &instrument, &early).unwrap_err().category(), ApplicationErrorCategory::HashMismatch);
    let late = MarketFactFacts { event_time: fact_time(2_001), ..valuation_fact(&[1]) };
    assert!(validate_p04_fact(&context, &instrument, &late).is_err());
    assert!(validate_p04_fact(&context, &VersionRef::new("bond".to_owned(), 2), &valuation_fact(&[1])).is_err());
}

/// A valuation fact whose content is its value's coefficient; its content hash is the SHA-256
/// of that content, so a changed value changes the hash while id and revision stay.
fn p04_valuation_fact(coefficient: &str) -> MarketFactFacts {
    MarketFactFacts { content_hash: sha2::Sha256::digest(coefficient.as_bytes()).to_vec(), ..valuation_fact(&[]) }
}

#[test]
fn p04_fact_evidence_is_exact_and_content_drift_fails_closed() {
    let fact = p04_valuation_fact("10123");
    let binding = ValuationAuthorityBinding {
        valuation_id: fact.id.clone(),
        source_revision: fact.source_revision,
        content_hash: fact.content_hash.clone(),
        value_index: 0,
    };
    assert!(validate_valuation_binding(&binding, std::slice::from_ref(&fact)).is_ok());

    let owner = ficant_application::primitives::OwnerRef::new("tenant".to_owned(), "owner".to_owned());
    let input = p04_fact_input("fact_0000".to_owned(), FormalInputKind::Fact, &owner, &fact).expect("typed Fact evidence");
    assert_eq!(input.kind, FormalInputKind::Fact);
    assert!(matches!(
        &input.reference,
        FormalInputReference::Object(reference)
            if reference.object_id == fact.id
                && reference.version == Some(1)
                && reference.content_hash.as_ref() == Some(&binding.content_hash)
    ));

    let drifted = p04_valuation_fact("10124");
    assert_eq!(drifted.id, fact.id);
    assert_eq!(drifted.source_revision, fact.source_revision);
    assert_ne!(drifted.content_hash, binding.content_hash);
    assert!(validate_valuation_binding(&binding, &[drifted]).is_err());
}

#[test]
fn p04_fact_input_needs_a_source_revision() {
    let owner = ficant_application::primitives::OwnerRef::new("tenant".to_owned(), "owner".to_owned());
    let unrevised = MarketFactFacts { source_revision: 0, ..p04_valuation_fact("10123") };
    assert_eq!(
        p04_fact_input("fact_0000".to_owned(), FormalInputKind::Fact, &owner, &unrevised).unwrap_err(),
        ficant_application::error::DomainErrorCode::InvalidValue
    );
}
