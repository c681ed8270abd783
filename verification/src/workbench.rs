use vstd::prelude::*;

use crate::aggregation::{PortfolioCoverageReason, PortfolioMetricDataMode};
use crate::digest::{content_digest, sha256};
use crate::error::{
    ApplicationError, ApplicationErrorCategory, ApplicationResult, failure, forbidden, integrity,
    validation,
};
use crate::bytes::text_bytes;
use crate::hex::{encode_hex, hex_text};
use crate::bytes::bytes_equal;
use crate::overview::NormalizedPortfolioContext;
use crate::error::DomainErrorCode;
use crate::formal_inputs::{FormalInputEntry, FormalInputKind, FormalInputReference};
use crate::primitives::{LineageRef, MarketTime, OwnerRef, VersionRef, instant_before, instant_less};
use crate::text::{contains_text, is_stable_text, same_text, stable_text};

verus! {

/// The pages of the portfolio workbench.
#[derive(Clone, Copy, Debug, PartialEq, Eq, Structural)]
pub enum PortfolioWorkbenchPageId {
    D01,
    P01,
    P02,
    P03,
    P04,
}

/// How complete the data behind a page is.
#[derive(Clone, Copy, Debug, PartialEq, Eq, Structural)]
pub enum PortfolioPageDataMode {
    Real,
    Partial,
    Stale,
    Error,
}

/// Whether a page has content to show.
#[derive(Clone, Copy, Debug, PartialEq, Eq, Structural)]
pub enum PortfolioPageState {
    Ready,
    Empty,
    Blocked,
}

/// The closed set of errors a workbench page reports.
#[derive(Clone, Copy, Debug, PartialEq, Eq, Structural)]
pub enum PortfolioWorkbenchErrorCode {
    Unauthenticated,
    Forbidden,
    NotFound,
    Conflict,
    Stale,
    Integrity,
    Unavailable,
}

/// Display currency of a portfolio context.
#[derive(Clone, Copy, Debug, PartialEq, Eq, Structural)]
pub enum PortfolioCurrencyMode {
    Original,
    Cny,
}

/// How fund holdings are looked through.
#[derive(Clone, Copy, Debug, PartialEq, Eq, Structural)]
pub enum PortfolioLookThroughMode {
    Direct,
    Consolidated,
    Separate,
}

/// The preset reporting period of a portfolio context.
#[derive(Clone, Copy, Debug, PartialEq, Eq, Structural)]
pub enum PortfolioPeriodPreset {
    OneDay,
    SevenDays,
    ThirtyDays,
    YearToDate,
    OneYear,
}

/// A failure of a page source: an application error, or data that is stale.
#[derive(Clone, Copy, Debug, PartialEq, Eq, Structural)]
pub enum PortfolioWorkbenchSourceError {
    Application(ApplicationError),
    Stale { retryable: bool },
}

impl From<ApplicationError> for PortfolioWorkbenchSourceError {
    fn from(value: ApplicationError) -> (error: Self) {
        PortfolioWorkbenchSourceError::Application(value)
    }
}

impl vstd::std_specs::convert::FromSpecImpl<ApplicationError> for PortfolioWorkbenchSourceError {
    open spec fn obeys_from_spec() -> bool {
        true
    }

    open spec fn from_spec(v: ApplicationError) -> Self {
        PortfolioWorkbenchSourceError::Application(v)
    }
}

/// The error a page shows: a closed code, a fixed safe message, the request's trace id and
/// whether a retry may help.
#[derive(Clone, Debug, PartialEq, Eq)]
pub struct PortfolioWorkbenchTypedError {
    code: PortfolioWorkbenchErrorCode,
    safe_message: &'static str,
    trace_id: String,
    retryable: bool,
}

impl PortfolioWorkbenchTypedError {
    pub closed spec fn spec_code(&self) -> PortfolioWorkbenchErrorCode {
        self.code
    }

    pub closed spec fn spec_safe_message(&self) -> Seq<char> {
        self.safe_message@
    }

    pub closed spec fn spec_trace_id(&self) -> Seq<char> {
        self.trace_id@
    }

    pub closed spec fn spec_retryable(&self) -> bool {
        self.retryable
    }

    pub fn code(&self) -> (code: PortfolioWorkbenchErrorCode)
        ensures
            code == self.spec_code(),
    {
        self.code
    }

    pub fn safe_message(&self) -> (message: &'static str)
        ensures
            message@ == self.spec_safe_message(),
    {
        self.safe_message
    }

    pub fn trace_id(&self) -> (trace_id: &str)
        ensures
            trace_id@ == self.spec_trace_id(),
    {
        self.trace_id.as_str()
    }

    pub fn retryable(&self) -> (retryable: bool)
        ensures
            retryable == self.spec_retryable(),
    {
        self.retryable
    }
}

/// The page error code of each application error category.
pub open spec fn error_code_for(category: ApplicationErrorCategory) -> PortfolioWorkbenchErrorCode {
    match category {
        ApplicationErrorCategory::Unauthenticated => PortfolioWorkbenchErrorCode::Unauthenticated,
        ApplicationErrorCategory::Forbidden => PortfolioWorkbenchErrorCode::Forbidden,
        ApplicationErrorCategory::NotFound => PortfolioWorkbenchErrorCode::NotFound,
        ApplicationErrorCategory::AlreadyExists
        | ApplicationErrorCategory::VersionConflict
        | ApplicationErrorCategory::ConcurrencyConflict
        | ApplicationErrorCategory::ImmutableViolation
        | ApplicationErrorCategory::StateConflict => PortfolioWorkbenchErrorCode::Conflict,
        ApplicationErrorCategory::ValidationFailed
        | ApplicationErrorCategory::HashMismatch
        | ApplicationErrorCategory::LineageIncomplete => PortfolioWorkbenchErrorCode::Integrity,
        ApplicationErrorCategory::StorageUnavailable => PortfolioWorkbenchErrorCode::Unavailable,
    }
}

/// The fixed safe message of each page error code.
pub open spec fn safe_message_for(code: PortfolioWorkbenchErrorCode) -> Seq<char> {
    match code {
        PortfolioWorkbenchErrorCode::Unauthenticated => "authentication required"@,
        PortfolioWorkbenchErrorCode::Forbidden => "portfolio access denied"@,
        PortfolioWorkbenchErrorCode::NotFound => "portfolio data not found"@,
        PortfolioWorkbenchErrorCode::Conflict => "portfolio state conflict"@,
        PortfolioWorkbenchErrorCode::Stale => "portfolio data is stale"@,
        PortfolioWorkbenchErrorCode::Integrity => "portfolio input integrity failure"@,
        PortfolioWorkbenchErrorCode::Unavailable => "portfolio service unavailable"@,
    }
}

/// The page error that an application error becomes.
pub open spec fn typed_error_of(error: ApplicationError, trace_id: Seq<char>) -> (
    PortfolioWorkbenchErrorCode,
    Seq<char>,
    Seq<char>,
    bool,
) {
    let code = error_code_for(error.category);
    (code, safe_message_for(code), trace_id, error.retryable)
}

/// The page error that a source error becomes.
pub open spec fn typed_source_error_of(error: PortfolioWorkbenchSourceError, trace_id: Seq<char>) -> (
    PortfolioWorkbenchErrorCode,
    Seq<char>,
    Seq<char>,
    bool,
) {
    match error {
        PortfolioWorkbenchSourceError::Application(e) => typed_error_of(e, trace_id),
        PortfolioWorkbenchSourceError::Stale { retryable } => (
            PortfolioWorkbenchErrorCode::Stale,
            safe_message_for(PortfolioWorkbenchErrorCode::Stale),
            trace_id,
            retryable,
        ),
    }
}

impl PortfolioWorkbenchTypedError {
    /// The four observable parts of the error.
    pub open spec fn parts(&self) -> (PortfolioWorkbenchErrorCode, Seq<char>, Seq<char>, bool) {
        (self.spec_code(), self.spec_safe_message(), self.spec_trace_id(), self.spec_retryable())
    }
}

fn safe_message_of(code: PortfolioWorkbenchErrorCode) -> (message: &'static str)
    ensures
        message@ == safe_message_for(code),
{
    match code {
        PortfolioWorkbenchErrorCode::Unauthenticated => "authentication required",
        PortfolioWorkbenchErrorCode::Forbidden => "portfolio access denied",
        PortfolioWorkbenchErrorCode::NotFound => "portfolio data not found",
        PortfolioWorkbenchErrorCode::Conflict => "portfolio state conflict",
        PortfolioWorkbenchErrorCode::Stale => "portfolio data is stale",
        PortfolioWorkbenchErrorCode::Integrity => "portfolio input integrity failure",
        PortfolioWorkbenchErrorCode::Unavailable => "portfolio service unavailable",
    }
}

/// The page error code of an application error category.
pub fn error_code(category: ApplicationErrorCategory) -> (code: PortfolioWorkbenchErrorCode)
    ensures
        code == error_code_for(category),
{
    match category {
        ApplicationErrorCategory::Unauthenticated => PortfolioWorkbenchErrorCode::Unauthenticated,
        ApplicationErrorCategory::Forbidden => PortfolioWorkbenchErrorCode::Forbidden,
        ApplicationErrorCategory::NotFound => PortfolioWorkbenchErrorCode::NotFound,
        ApplicationErrorCategory::AlreadyExists
        | ApplicationErrorCategory::VersionConflict
        | ApplicationErrorCategory::ConcurrencyConflict
        | ApplicationErrorCategory::ImmutableViolation
        | ApplicationErrorCategory::StateConflict => PortfolioWorkbenchErrorCode::Conflict,
        ApplicationErrorCategory::ValidationFailed
        | ApplicationErrorCategory::HashMismatch
        | ApplicationErrorCategory::LineageIncomplete => PortfolioWorkbenchErrorCode::Integrity,
        ApplicationErrorCategory::StorageUnavailable => PortfolioWorkbenchErrorCode::Unavailable,
    }
}

/// Turns an application error into the closed page error, keeping its retry hint.
pub fn typed_error(error: &ApplicationError, trace_id: String) -> (typed: PortfolioWorkbenchTypedError)
    ensures
        typed.parts() == typed_error_of(*error, trace_id@),
{
    let code = error_code(error.category());
    PortfolioWorkbenchTypedError {
        code,
        safe_message: safe_message_of(code),
        trace_id,
        retryable: error.retryable(),
    }
}

/// Turns a page source failure into the closed page error.
pub fn typed_source_error(error: &PortfolioWorkbenchSourceError, trace_id: String) -> (typed:
    PortfolioWorkbenchTypedError)
    ensures
        typed.parts() == typed_source_error_of(*error, trace_id@),
{
    match error {
        PortfolioWorkbenchSourceError::Application(e) => typed_error(e, trace_id),
        PortfolioWorkbenchSourceError::Stale { retryable } => PortfolioWorkbenchTypedError {
            code: PortfolioWorkbenchErrorCode::Stale,
            safe_message: safe_message_of(PortfolioWorkbenchErrorCode::Stale),
            trace_id,
            retryable: *retryable,
        },
    }
}

/// The scopes a principal needs to see each page.
pub open spec fn page_permissions(page_id: PortfolioWorkbenchPageId) -> Seq<Seq<char>> {
    match page_id {
        PortfolioWorkbenchPageId::P01 => seq!["portfolio:read"@],
        PortfolioWorkbenchPageId::P03 => seq!["portfolio:read"@, "positions:read"@],
        PortfolioWorkbenchPageId::P04 => seq![
            "portfolio:read"@,
            "positions:read"@,
            "rates:analyze"@,
            "facts:read"@,
            "definitions:read"@,
        ],
        PortfolioWorkbenchPageId::D01 | PortfolioWorkbenchPageId::P02 => seq![
            "portfolio:read"@,
            "positions:read"@,
            "rates:analyze"@,
            "facts:read"@,
            "definitions:read"@,
            "artifacts:read"@,
        ],
    }
}

/// The texts of a list of strings.
pub open spec fn texts(values: Seq<String>) -> Seq<Seq<char>> {
    values.map_values(|value: String| value@)
}

/// The scopes a principal needs to see the page, in their fixed order.
pub fn permissions_for(page_id: PortfolioWorkbenchPageId) -> (permissions: Vec<String>)
    ensures
        texts(permissions@) == page_permissions(page_id),
{
    let mut values: Vec<String> = Vec::new();
    values.push("portfolio:read".to_owned());
    match page_id {
        PortfolioWorkbenchPageId::P01 => {},
        PortfolioWorkbenchPageId::P03 => {
            values.push("positions:read".to_owned());
        },
        PortfolioWorkbenchPageId::P04 => {
            values.push("positions:read".to_owned());
            values.push("rates:analyze".to_owned());
            values.push("facts:read".to_owned());
            values.push("definitions:read".to_owned());
        },
        PortfolioWorkbenchPageId::D01 | PortfolioWorkbenchPageId::P02 => {
            values.push("positions:read".to_owned());
            values.push("rates:analyze".to_owned());
            values.push("facts:read".to_owned());
            values.push("definitions:read".to_owned());
            values.push("artifacts:read".to_owned());
        },
    }
    assert(texts(values@) =~= page_permissions(page_id));
    values
}

/// Every required scope is among the granted ones.
pub open spec fn all_granted(required: Seq<Seq<char>>, granted: Seq<String>) -> bool {
    forall|i: int|
        0 <= i < required.len() ==> exists|j: int|
            0 <= j < granted.len() && #[trigger] granted[j]@ == #[trigger] required[i]
}

/// The outcome of authorizing a page: the role check's failure first, then the owner
/// check's, then `Forbidden` when a scope the page needs was not granted.
pub open spec fn page_authorization(
    role_check: ApplicationResult<()>,
    owner_check: ApplicationResult<()>,
    granted: Seq<String>,
    page_id: PortfolioWorkbenchPageId,
) -> ApplicationResult<()> {
    match (role_check, owner_check) {
        (Err(e), _) => Err(e),
        (Ok(()), Err(e)) => Err(e),
        (Ok(()), Ok(())) => if all_granted(page_permissions(page_id), granted) {
            Ok(())
        } else {
            Err(failure(ApplicationErrorCategory::Forbidden))
        },
    }
}

/// Authorizes a principal for a page, given the outcome of its researcher-role check, of its
/// access to the owner, and the scopes it was granted.
pub fn authorize_page(
    role_check: ApplicationResult<()>,
    owner_check: ApplicationResult<()>,
    granted_scopes: &[String],
    page_id: PortfolioWorkbenchPageId,
) -> (result: ApplicationResult<()>)
    ensures
        result == page_authorization(role_check, owner_check, granted_scopes@, page_id),
{
    if let Err(e) = role_check {
        return Err(e);
    }
    if let Err(e) = owner_check {
        return Err(e);
    }
    let required = permissions_for(page_id);
    let mut i: usize = 0;
    while i < required.len()
        invariant
            i <= required@.len(),
            role_check is Ok,
            owner_check is Ok,
            texts(required@) == page_permissions(page_id),
            forall|k: int|
                0 <= k < i ==> exists|j: int|
                    0 <= j < granted_scopes@.len() && #[trigger] granted_scopes@[j]@
                        == #[trigger] page_permissions(page_id)[k],
        decreases required.len() - i,
    {
        assert(texts(required@)[i as int] == required@[i as int]@);
        if !contains_text(granted_scopes, &required[i]) {
            proof {
                assert(!all_granted(page_permissions(page_id), granted_scopes@)) by {
                    let r = page_permissions(page_id)[i as int];
                    assert(r == required@[i as int]@);
                    if exists|j: int|
                        0 <= j < granted_scopes@.len() && #[trigger] granted_scopes@[j]@ == r {
                        let j = choose|j: int|
                            0 <= j < granted_scopes@.len() && #[trigger] granted_scopes@[j]@ == r;
                        assert(granted_scopes@[j]@ == required@[i as int]@);
                    }
                }
            }
            assert(!all_granted(page_permissions(page_id), granted_scopes@));
            return Err(forbidden());
        }
        i = i + 1;
    }
    Ok(())
}

/// The instrument a page is about.
#[derive(Clone, Debug, PartialEq, Eq)]
pub struct PortfolioPageSelection {
    instrument: VersionRef,
}

impl PortfolioPageSelection {
    pub closed spec fn spec_instrument(&self) -> VersionRef {
        self.instrument
    }

    pub fn new(instrument: VersionRef) -> (selection: Self)
        ensures
            selection.spec_instrument() == instrument,
    {
        PortfolioPageSelection { instrument }
    }

    pub fn instrument(&self) -> (instrument: &VersionRef)
        ensures
            *instrument == self.spec_instrument(),
    {
        &self.instrument
    }
}

/// Only the instrument page takes, and needs, a selection.
pub fn validate_selection(page_id: PortfolioWorkbenchPageId, selection: Option<
    &PortfolioPageSelection,
>) -> (result: ApplicationResult<()>)
    ensures
        result is Ok <==> ((page_id == PortfolioWorkbenchPageId::P04) == (selection is Some)),
        result matches Err(e) ==> e == failure(ApplicationErrorCategory::ValidationFailed),
{
    let is_instrument_page = match page_id {
        PortfolioWorkbenchPageId::P04 => true,
        _ => false,
    };
    if is_instrument_page != selection.is_some() {
        return Err(validation());
    }
    Ok(())
}

/// Why a position is left out of a page figure.
#[derive(Clone, Copy, Debug, PartialEq, Eq, Structural, PartialOrd, Ord)]
pub enum PortfolioPageCoverageReason {
    ShortPositionExcludedFromWeightedAverages,
    NonBondExcludedFromWeightedAverages,
    MissingBondMetricExcludedFromWeightedAverages,
    PositionExcludedFromPortfolioRisk,
    BenchmarkPositionExcludedFromPortfolioRisk,
    MissingCriticalField,
}

/// The page reason of each aggregation coverage reason.
pub open spec fn page_reason_of(value: PortfolioCoverageReason) -> PortfolioPageCoverageReason {
    match value {
        PortfolioCoverageReason::ShortPositionExcludedFromWeightedAverages => {
            PortfolioPageCoverageReason::ShortPositionExcludedFromWeightedAverages
        },
        PortfolioCoverageReason::NonBondExcludedFromWeightedAverages => {
            PortfolioPageCoverageReason::NonBondExcludedFromWeightedAverages
        },
        PortfolioCoverageReason::MissingBondMetricExcludedFromWeightedAverages => {
            PortfolioPageCoverageReason::MissingBondMetricExcludedFromWeightedAverages
        },
        PortfolioCoverageReason::PositionExcludedFromPortfolioRisk => {
            PortfolioPageCoverageReason::PositionExcludedFromPortfolioRisk
        },
        PortfolioCoverageReason::BenchmarkPositionExcludedFromPortfolioRisk => {
            PortfolioPageCoverageReason::BenchmarkPositionExcludedFromPortfolioRisk
        },
    }
}

impl From<PortfolioCoverageReason> for PortfolioPageCoverageReason {
    fn from(value: PortfolioCoverageReason) -> (reason: Self) {
        match value {
            PortfolioCoverageReason::ShortPositionExcludedFromWeightedAverages => {
                PortfolioPageCoverageReason::ShortPositionExcludedFromWeightedAverages
            },
            PortfolioCoverageReason::NonBondExcludedFromWeightedAverages => {
                PortfolioPageCoverageReason::NonBondExcludedFromWeightedAverages
            },
            PortfolioCoverageReason::MissingBondMetricExcludedFromWeightedAverages => {
                PortfolioPageCoverageReason::MissingBondMetricExcludedFromWeightedAverages
            },
            PortfolioCoverageReason::PositionExcludedFromPortfolioRisk => {
                PortfolioPageCoverageReason::PositionExcludedFromPortfolioRisk
            },
            PortfolioCoverageReason::BenchmarkPositionExcludedFromPortfolioRisk => {
                PortfolioPageCoverageReason::BenchmarkPositionExcludedFromPortfolioRisk
            },
        }
    }
}

impl vstd::std_specs::convert::FromSpecImpl<PortfolioCoverageReason> for PortfolioPageCoverageReason {
    open spec fn obeys_from_spec() -> bool {
        true
    }

    open spec fn from_spec(v: PortfolioCoverageReason) -> Self {
        page_reason_of(v)
    }
}

/// The page reasons of a list of aggregation reasons, in the same order.
pub fn page_reasons(values: &[PortfolioCoverageReason]) -> (reasons: Vec<PortfolioPageCoverageReason>)
    ensures
        reasons@ == values@.map_values(|v: PortfolioCoverageReason| page_reason_of(v)),
{
    let mut reasons: Vec<PortfolioPageCoverageReason> = Vec::new();
    let mut i: usize = 0;
    while i < values.len()
        invariant
            i <= values@.len(),
            reasons@ == values@.subrange(0, i as int).map_values(
                |v: PortfolioCoverageReason| page_reason_of(v),
            ),
        decreases values.len() - i,
    {
        reasons.push(PortfolioPageCoverageReason::from(values[i]));
        assert(values@.subrange(0, i + 1) == values@.subrange(0, i as int).push(values@[i as int]));
        i = i + 1;
    }
    assert(values@.subrange(0, values@.len() as int) == values@);
    reasons
}

/// The reasons of a coverage declaration: one missing-critical-field reason when any record
/// misses a critical field.
pub fn domain_coverage_reasons(missing_critical_field_record_count: u64) -> (reasons: Vec<
    PortfolioPageCoverageReason,
>)
    ensures
        missing_critical_field_record_count == 0 ==> reasons@.len() == 0,
        missing_critical_field_record_count != 0 ==> reasons@ == seq![
            PortfolioPageCoverageReason::MissingCriticalField,
        ],
{
    let mut reasons: Vec<PortfolioPageCoverageReason> = Vec::new();
    if missing_critical_field_record_count != 0 {
        reasons.push(PortfolioPageCoverageReason::MissingCriticalField);
    }
    reasons
}

/// A successful page may be neither ERROR, PARTIAL without a reason, nor REAL with one.
pub open spec fn success_mode_valid(data_mode: PortfolioPageDataMode, reason_count: nat) -> bool {
    !(data_mode == PortfolioPageDataMode::Error || (data_mode == PortfolioPageDataMode::Partial
        && reason_count == 0) || (data_mode == PortfolioPageDataMode::Real && reason_count != 0))
}

/// Checks that a data mode agrees with the coverage reasons of a successful page.
pub fn validate_success_mode(
    data_mode: PortfolioPageDataMode,
    missing_reasons: &[PortfolioPageCoverageReason],
) -> (result: ApplicationResult<()>)
    ensures
        result is Ok <==> success_mode_valid(data_mode, missing_reasons@.len()),
        result matches Err(e) ==> e == failure(ApplicationErrorCategory::HashMismatch),
{
    let invalid = match data_mode {
        PortfolioPageDataMode::Error => true,
        PortfolioPageDataMode::Partial => missing_reasons.len() == 0,
        PortfolioPageDataMode::Real => missing_reasons.len() != 0,
        PortfolioPageDataMode::Stale => false,
    };
    if invalid {
        return Err(integrity());
    }
    Ok(())
}

/// The page data mode of an aggregation data mode.
pub open spec fn page_mode_of(mode: PortfolioMetricDataMode) -> PortfolioPageDataMode {
    match mode {
        PortfolioMetricDataMode::Real => PortfolioPageDataMode::Real,
        PortfolioMetricDataMode::Partial => PortfolioPageDataMode::Partial,
        PortfolioMetricDataMode::Stale => PortfolioPageDataMode::Stale,
    }
}

/// The page data mode of an overview computed in the given aggregation mode.
pub fn overview_page_data_mode(mode: PortfolioMetricDataMode) -> (page_mode: PortfolioPageDataMode)
    ensures
        page_mode == page_mode_of(mode),
{
    match mode {
        PortfolioMetricDataMode::Real => PortfolioPageDataMode::Real,
        PortfolioMetricDataMode::Partial => PortfolioPageDataMode::Partial,
        PortfolioMetricDataMode::Stale => PortfolioPageDataMode::Stale,
    }
}

/// The catalog page is empty exactly when it lists no portfolio.
pub fn catalog_page_state(portfolio_count: u64) -> (state: PortfolioPageState)
    ensures
        state == (if portfolio_count == 0 {
            PortfolioPageState::Empty
        } else {
            PortfolioPageState::Ready
        }),
{
    if portfolio_count == 0 {
        PortfolioPageState::Empty
    } else {
        PortfolioPageState::Ready
    }
}

/// A catalog read is neither ERROR nor PARTIAL and carries read evidence.
pub fn validate_catalog_read(data_mode: PortfolioPageDataMode, non_formal_read_count: usize) -> (result:
    ApplicationResult<()>)
    ensures
        result is Ok <==> (data_mode != PortfolioPageDataMode::Error && data_mode
            != PortfolioPageDataMode::Partial && non_formal_read_count > 0),
        result matches Err(e) ==> e == failure(ApplicationErrorCategory::HashMismatch),
{
    let rejected_mode = match data_mode {
        PortfolioPageDataMode::Error | PortfolioPageDataMode::Partial => true,
        _ => false,
    };
    if rejected_mode || non_formal_read_count == 0 {
        return Err(integrity());
    }
    Ok(())
}

/// An instrument read has a valid success mode for its coverage and formal evidence.
pub fn validate_instrument_read(
    data_mode: PortfolioPageDataMode,
    missing_reasons: &[PortfolioPageCoverageReason],
    formal_evidence_count: usize,
) -> (result: ApplicationResult<()>)
    ensures
        result is Ok <==> (success_mode_valid(data_mode, missing_reasons@.len())
            && formal_evidence_count > 0),
        result matches Err(e) ==> e == failure(ApplicationErrorCategory::HashMismatch),
{
    validate_success_mode(data_mode, missing_reasons)?;
    if formal_evidence_count == 0 {
        return Err(integrity());
    }
    Ok(())
}

/// The catalog page carries only non-formal reads; every other page carries formal evidence.
pub open spec fn evidence_shape_invalid(
    page_id: PortfolioWorkbenchPageId,
    formal_count: nat,
    non_formal_count: nat,
) -> bool {
    match page_id {
        PortfolioWorkbenchPageId::P01 => formal_count != 0 || non_formal_count == 0,
        _ => formal_count == 0,
    }
}

/// Whether a page's evidence is of the wrong class for the page.
pub fn evidence_shape_is_invalid(
    page_id: PortfolioWorkbenchPageId,
    formal_count: usize,
    non_formal_count: usize,
) -> (invalid: bool)
    ensures
        invalid == evidence_shape_invalid(page_id, formal_count as nat, non_formal_count as nat),
{
    match page_id {
        PortfolioWorkbenchPageId::P01 => formal_count != 0 || non_formal_count == 0,
        _ => formal_count == 0,
    }
}

/// The catalog page has no coverage; every other page has one with a valid success mode.
pub open spec fn coverage_shape_invalid(
    page_id: PortfolioWorkbenchPageId,
    data_mode: PortfolioPageDataMode,
    coverage: Option<Seq<PortfolioPageCoverageReason>>,
) -> bool {
    match (page_id, coverage) {
        (PortfolioWorkbenchPageId::P01, None) => false,
        (PortfolioWorkbenchPageId::P01, Some(_)) => true,
        (_, None) => true,
        (_, Some(reasons)) => !success_mode_valid(data_mode, reasons.len()),
    }
}

/// Whether evidence names the page's subject: the same object at the same version.
pub fn object_subject_matches(object_id: &String, version: Option<u64>, subject: &VersionRef) -> (matches:
    bool)
    ensures
        matches == (object_id@ == subject.id@ && version == Some(subject.version)),
{
    match version {
        Some(v) => v == subject.version && object_id.eq(&subject.id),
        None => false,
    }
}

/// Checks a page materialization: not ERROR, coverage of the right shape, evidence of the
/// right class, and no evidence of another owner or subject.
pub fn validate_page_materialization(
    page_id: PortfolioWorkbenchPageId,
    data_mode: PortfolioPageDataMode,
    coverage: Option<&[PortfolioPageCoverageReason]>,
    formal_count: usize,
    non_formal_count: usize,
    evidence_drift: bool,
) -> (result: ApplicationResult<()>)
    ensures
        result is Ok <==> !(data_mode == PortfolioPageDataMode::Error || coverage_shape_invalid(
            page_id,
            data_mode,
            match coverage {
                Some(c) => Some(c@),
                None => None,
            },
        ) || evidence_shape_invalid(page_id, formal_count as nat, non_formal_count as nat)
            || evidence_drift),
        result matches Err(e) ==> e == failure(ApplicationErrorCategory::HashMismatch),
{
    let catalog_page = match page_id {
        PortfolioWorkbenchPageId::P01 => true,
        _ => false,
    };
    let coverage_invalid = match coverage {
        None => !catalog_page,
        Some(reasons) => catalog_page || validate_success_mode(data_mode, reasons).is_err(),
    };
    let error_mode = match data_mode {
        PortfolioPageDataMode::Error => true,
        _ => false,
    };
    if error_mode || coverage_invalid || evidence_shape_is_invalid(
        page_id,
        formal_count,
        non_formal_count,
    ) || evidence_drift {
        return Err(integrity());
    }
    Ok(())
}

/// Counts of the catalog hierarchy shown on the catalog page.
#[derive(Clone, Debug, PartialEq, Eq)]
pub struct StructureMetrics {
    pub book_count: u64,
    pub group_count: u64,
    pub portfolio_count: u64,
}

/// The catalog page: the catalog listing and the counts of its hierarchy.
#[derive(Clone, Debug, PartialEq, Eq)]
pub struct P01Projection<Catalog> {
    pub catalog: Catalog,
    pub structure: StructureMetrics,
}

/// The counts of a catalog listing with the given numbers of books, groups and portfolios.
pub fn structure_metrics(book_count: usize, group_count: usize, portfolio_count: usize) -> (metrics:
    StructureMetrics)
    ensures
        metrics.book_count == book_count,
        metrics.group_count == group_count,
        metrics.portfolio_count == portfolio_count,
{
    StructureMetrics {
        book_count: book_count as u64,
        group_count: group_count as u64,
        portfolio_count: portfolio_count as u64,
    }
}

/// The answer to a default-context request: the context, or the page error it failed with.
#[derive(Clone, Debug, PartialEq, Eq)]
pub enum PortfolioDefaultContextResult<Context> {
    Context(Box<Context>),
    Error(PortfolioWorkbenchTypedError),
}

/// The default-context answer for the outcome of authorizing and resolving it: a failure
/// becomes its page error under the request's trace id.
pub fn default_context_result<Context>(outcome: ApplicationResult<Context>, trace_id: String) -> (result:
    PortfolioDefaultContextResult<Context>)
    ensures
        outcome matches Ok(c) ==> result == PortfolioDefaultContextResult::Context(Box::new(c)),
        outcome matches Err(e) ==> result matches PortfolioDefaultContextResult::Error(t)
            && t.parts() == typed_error_of(e, trace_id@),
{
    match outcome {
        Ok(context) => PortfolioDefaultContextResult::Context(Box::new(context)),
        Err(error) => PortfolioDefaultContextResult::Error(typed_error(&error, trace_id)),
    }
}

/// The wire code of each page.
pub open spec fn page_code_of(page_id: PortfolioWorkbenchPageId) -> u8 {
    match page_id {
        PortfolioWorkbenchPageId::D01 => 1,
        PortfolioWorkbenchPageId::P01 => 2,
        PortfolioWorkbenchPageId::P02 => 3,
        PortfolioWorkbenchPageId::P03 => 4,
        PortfolioWorkbenchPageId::P04 => 5,
    }
}

pub fn page_code(page_id: PortfolioWorkbenchPageId) -> (code: u8)
    ensures
        code == page_code_of(page_id),
{
    match page_id {
        PortfolioWorkbenchPageId::D01 => 1,
        PortfolioWorkbenchPageId::P01 => 2,
        PortfolioWorkbenchPageId::P02 => 3,
        PortfolioWorkbenchPageId::P03 => 4,
        PortfolioWorkbenchPageId::P04 => 5,
    }
}

/// The wire number of each display currency.
pub open spec fn currency_wire(value: PortfolioCurrencyMode) -> u8 {
    match value {
        PortfolioCurrencyMode::Original => 1u8,
        PortfolioCurrencyMode::Cny => 2u8,
    }
}

/// The wire number of each look-through mode.
pub open spec fn look_through_wire(value: PortfolioLookThroughMode) -> u8 {
    match value {
        PortfolioLookThroughMode::Direct => 1u8,
        PortfolioLookThroughMode::Consolidated => 2u8,
        PortfolioLookThroughMode::Separate => 3u8,
    }
}

/// The wire number of each period preset.
pub open spec fn period_wire(value: PortfolioPeriodPreset) -> u8 {
    match value {
        PortfolioPeriodPreset::OneDay => 1u8,
        PortfolioPeriodPreset::SevenDays => 2u8,
        PortfolioPeriodPreset::ThirtyDays => 3u8,
        PortfolioPeriodPreset::YearToDate => 4u8,
        PortfolioPeriodPreset::OneYear => 5u8,
    }
}

pub fn currency_code(value: PortfolioCurrencyMode) -> (code: u8)
    ensures
        code == currency_wire(value),
{
    match value {
        PortfolioCurrencyMode::Original => 1,
        PortfolioCurrencyMode::Cny => 2,
    }
}

pub fn look_through_code(value: PortfolioLookThroughMode) -> (code: u8)
    ensures
        code == look_through_wire(value),
{
    match value {
        PortfolioLookThroughMode::Direct => 1,
        PortfolioLookThroughMode::Consolidated => 2,
        PortfolioLookThroughMode::Separate => 3,
    }
}

pub fn period_code(value: PortfolioPeriodPreset) -> (code: u8)
    ensures
        code == period_wire(value),
{
    match value {
        PortfolioPeriodPreset::OneDay => 1,
        PortfolioPeriodPreset::SevenDays => 2,
        PortfolioPeriodPreset::ThirtyDays => 3,
        PortfolioPeriodPreset::YearToDate => 4,
        PortfolioPeriodPreset::OneYear => 5,
    }
}

/// The trace id of a request: the first sixteen bytes of the SHA-256 digest of its id, in
/// lowercase hexadecimal.
pub open spec fn trace_id_of(request_id: Seq<char>) -> Seq<char> {
    hex_text(sha256(text_bytes(request_id)).subrange(0, 16))
}

/// The trace id under which a request's errors are reported.
pub fn trace_id_for_request(request_id: &str) -> (trace_id: String)
    ensures
        trace_id@ == trace_id_of(request_id@),
{
    let digest = content_digest(request_id.as_bytes());
    let head = vstd::slice::slice_subrange(digest.as_slice(), 0, 16);
    encode_hex(head)
}

/// Read evidence that is not a formal output: a stable ASCII schema and at least one consumed
/// input, no two with the same role.
pub open spec fn non_formal_read_valid(schema_id: Seq<char>, roles: Seq<String>) -> bool {
    is_stable_text(schema_id) && vstd::utf8::is_ascii_chars(schema_id) && roles.len() > 0
}

/// Some role is consumed twice.
pub open spec fn has_duplicate_role(roles: Seq<String>) -> bool {
    exists|i: int, j: int| 0 <= i < j < roles.len() && #[trigger] roles[i]@ == #[trigger] roles[j]@
}

/// Checks non-formal read evidence: validation failure for an unstable or non-ASCII schema or
/// no consumed input, integrity failure for a role consumed twice.
pub fn validate_non_formal_read(schema_id: &str, roles: &[String]) -> (result: ApplicationResult<()>)
    ensures
        !non_formal_read_valid(schema_id@, roles@) ==> result == Err::<(), ApplicationError>(
            failure(ApplicationErrorCategory::ValidationFailed),
        ),
        non_formal_read_valid(schema_id@, roles@) && has_duplicate_role(roles@) ==> result == Err::<
            (),
            ApplicationError,
        >(failure(ApplicationErrorCategory::HashMismatch)),
        non_formal_read_valid(schema_id@, roles@) && !has_duplicate_role(roles@) ==> result is Ok,
{
    if !stable_text(schema_id) || !schema_id.is_ascii() || roles.len() == 0 {
        return Err(validation());
    }
    let mut j: usize = 1;
    while j < roles.len()
        invariant
            1 <= j <= roles@.len(),
            non_formal_read_valid(schema_id@, roles@),
            forall|a: int, b: int| 0 <= a < b < j ==> #[trigger] roles@[a]@ != #[trigger] roles@[b]@,
        decreases roles.len() - j,
    {
        let mut i: usize = 0;
        while i < j
            invariant
                i <= j < roles@.len(),
                non_formal_read_valid(schema_id@, roles@),
                forall|a: int| 0 <= a < i ==> #[trigger] roles@[a]@ != roles@[j as int]@,
            decreases j - i,
        {
            if roles[i] == roles[j] {
                assert(has_duplicate_role(roles@)) by {
                    assert(roles@[i as int]@ == roles@[j as int]@);
                }
                return Err(integrity());
            }
            i = i + 1;
        }
        j = j + 1;
    }
    Ok(())
}

/// Application errors become one of the closed business codes, never the stale code, and
/// keep their retry hint.
pub proof fn law_application_errors_map_to_business_codes(error: ApplicationError, trace_id: Seq<char>)
    ensures
        typed_error_of(error, trace_id).0 != PortfolioWorkbenchErrorCode::Stale,
        typed_error_of(error, trace_id).3 == error.retryable,
        typed_error_of(error, trace_id).1 == safe_message_for(typed_error_of(error, trace_id).0),
{
}

/// Each page needs every scope of the pages before it: the catalog, then positions, then the
/// instrument page, then the overview and risk pages, which need the same scopes.
pub proof fn law_page_permissions_nested()
    ensures
        page_permissions(PortfolioWorkbenchPageId::P03).subrange(0, 1) == page_permissions(
            PortfolioWorkbenchPageId::P01,
        ),
        page_permissions(PortfolioWorkbenchPageId::P04).subrange(0, 2) == page_permissions(
            PortfolioWorkbenchPageId::P03,
        ),
        page_permissions(PortfolioWorkbenchPageId::D01).subrange(0, 5) == page_permissions(
            PortfolioWorkbenchPageId::P04,
        ),
        page_permissions(PortfolioWorkbenchPageId::D01) == page_permissions(
            PortfolioWorkbenchPageId::P02,
        ),
{
    assert(page_permissions(PortfolioWorkbenchPageId::P03).subrange(0, 1) =~= page_permissions(
        PortfolioWorkbenchPageId::P01,
    ));
    assert(page_permissions(PortfolioWorkbenchPageId::P04).subrange(0, 2) =~= page_permissions(
        PortfolioWorkbenchPageId::P03,
    ));
    assert(page_permissions(PortfolioWorkbenchPageId::D01).subrange(0, 5) =~= page_permissions(
        PortfolioWorkbenchPageId::P04,
    ));
}

/// A principal authorized for a page is authorized for every page whose scopes are a prefix of
/// that page's scopes.
pub proof fn law_authorization_monotone(
    granted: Seq<String>,
    wider: PortfolioWorkbenchPageId,
    narrower: PortfolioWorkbenchPageId,
    count: int,
)
    requires
        0 <= count <= page_permissions(wider).len(),
        page_permissions(wider).subrange(0, count) == page_permissions(narrower),
        all_granted(page_permissions(wider), granted),
    ensures
        all_granted(page_permissions(narrower), granted),
{
    assert forall|i: int| 0 <= i < page_permissions(narrower).len() implies exists|j: int|
        0 <= j < granted.len() && #[trigger] granted[j]@ == #[trigger] page_permissions(narrower)[i] by {
        assert(page_permissions(narrower)[i] == page_permissions(wider)[i]);
        assert(page_permissions(wider)[i] == page_permissions(wider)[i]);
    }
}

/// One market fact as the instrument page reads it: its identity, source revision and
/// content hash, its owner and instrument, the time of its event, and for a valuation the
/// number of values it carries.
#[derive(Clone, Debug)]
pub struct MarketFactFacts {
    pub id: String,
    pub source_revision: u64,
    pub content_hash: Vec<u8>,
    pub owner: OwnerRef,
    pub instrument: VersionRef,
    pub event_time: MarketTime,
    pub valuation_value_count: Option<usize>,
}

/// The valuation a portfolio analysis was bound to: the fact, its revision and content hash,
/// and the position of the value used.
#[derive(Clone, Debug)]
pub struct ValuationAuthorityBinding {
    pub valuation_id: String,
    pub source_revision: u64,
    pub content_hash: Vec<u8>,
    pub value_index: u64,
}

/// A fact is the exact one a valuation binding names.
pub open spec fn fact_named_by(binding: ValuationAuthorityBinding, fact: MarketFactFacts) -> bool {
    fact.id@ == binding.valuation_id@ && fact.source_revision == binding.source_revision
        && fact.content_hash@ == binding.content_hash@
}

/// The valuation binding resolves: exactly one fact is the one it names, that fact is a
/// valuation, and it has a value at the bound position.
pub open spec fn valuation_binding_valid(binding: ValuationAuthorityBinding, facts: Seq<MarketFactFacts>) -> bool {
    exists|i: int|
        0 <= i < facts.len() && #[trigger] fact_named_by(binding, facts[i]) && (forall|j: int|
            0 <= j < facts.len() && j != i ==> !#[trigger] fact_named_by(binding, facts[j]))
            && (facts[i].valuation_value_count matches Some(n) && binding.value_index < n)
}

/// The formal input under which a page consumed a fact: the fact as a lineage object of its
/// source revision and content hash, observed at the fact's event time. A fact without a
/// revision (revision zero) has no version and is an invalid value.
pub fn p04_fact_input(role: String, kind: FormalInputKind, owner: &OwnerRef, fact: &MarketFactFacts) -> (result:
    Result<FormalInputEntry, DomainErrorCode>)
    ensures
        result is Ok <==> fact.source_revision > 0,
        result matches Err(code) ==> code == DomainErrorCode::InvalidValue,
        result matches Ok(entry) ==> {
            &&& entry.role == role
            &&& entry.kind == kind
            &&& entry.owner == *owner
            &&& entry.reference matches FormalInputReference::Object(lineage)
            &&& lineage.object_id@ == fact.id@
            &&& lineage.version == Some(fact.source_revision)
            &&& lineage.content_hash matches Some(hash)
            &&& hash@ == fact.content_hash@
            &&& entry.observed_at == Some(fact.event_time)
            &&& entry.visible_at is None
            &&& entry.effective_from is None
            &&& entry.effective_to is None
        },
{
    if fact.source_revision == 0 {
        return Err(DomainErrorCode::InvalidValue);
    }
    let lineage = LineageRef::new(fact.id.clone(), Some(fact.source_revision), Some(fact.content_hash.clone()));
    Ok(FormalInputEntry {
        role,
        kind,
        owner: owner.duplicate(),
        reference: FormalInputReference::Object(lineage),
        observed_at: Some(fact.event_time.duplicate()),
        visible_at: None,
        effective_from: None,
        effective_to: None,
    })
}

/// Checks that a valuation binding resolves among the facts read for the instrument page; an
/// integrity error otherwise.
pub fn validate_valuation_binding(binding: &ValuationAuthorityBinding, facts: &[MarketFactFacts]) -> (result:
    ApplicationResult<()>)
    ensures
        result is Ok <==> valuation_binding_valid(*binding, facts@),
        result matches Err(e) ==> e == failure(ApplicationErrorCategory::HashMismatch),
{
    let mut found: Option<usize> = None;
    let mut k: usize = 0;
    while k < facts.len()
        invariant
            k <= facts@.len(),
            found is None ==> forall|j: int| 0 <= j < k ==> !#[trigger] fact_named_by(*binding, facts@[j]),
            found matches Some(i) ==> i < k && fact_named_by(*binding, facts@[i as int]) && forall|j: int|
                0 <= j < k && j != i ==> !#[trigger] fact_named_by(*binding, facts@[j]),
        decreases facts.len() - k,
    {
        let fact = &facts[k];
        let named = same_text(&fact.id, &binding.valuation_id) && fact.source_revision
            == binding.source_revision && bytes_equal(fact.content_hash.as_slice(), binding.content_hash.as_slice());
        if named {
            match found {
                Some(i) => {
                    proof {
                        assert forall|p: int| !(0 <= p < facts@.len() && #[trigger] fact_named_by(*binding, facts@[p])
                            && (forall|j: int| 0 <= j < facts@.len() && j != p ==> !#[trigger] fact_named_by(*binding, facts@[j]))) by {
                            if 0 <= p < facts@.len() && fact_named_by(*binding, facts@[p]) {
                                if p != i {
                                    assert(fact_named_by(*binding, facts@[i as int]));
                                } else {
                                    assert(fact_named_by(*binding, facts@[k as int]));
                                }
                            }
                        }
                    }
                    return Err(integrity());
                },
                None => {
                    found = Some(k);
                },
            }
        }
        k = k + 1;
    }
    match found {
        Some(i) => {
            let fact = &facts[i];
            let in_range = match fact.valuation_value_count {
                Some(n) => binding.value_index < n as u64,
                None => false,
            };
            if !in_range {
                proof {
                    assert forall|p: int| !(0 <= p < facts@.len() && #[trigger] fact_named_by(*binding, facts@[p])
                        && (forall|j: int| 0 <= j < facts@.len() && j != p ==> !#[trigger] fact_named_by(*binding, facts@[j]))
                        && (facts@[p].valuation_value_count matches Some(n) && binding.value_index < n)) by {
                        if 0 <= p < facts@.len() && fact_named_by(*binding, facts@[p]) && p != i {
                            assert(fact_named_by(*binding, facts@[i as int]));
                        }
                    }
                }
                return Err(integrity());
            }
            Ok(())
        },
        None => Err(integrity()),
    }
}

/// A fact belongs on the instrument page of a context: the context's owner, the selected
/// instrument, and an event inside the period and known by the knowledge instant.
pub open spec fn page_fact_valid(context: NormalizedPortfolioContext, instrument: VersionRef, fact: MarketFactFacts) -> bool {
    &&& fact.owner.tenant_id@ == context.owner.tenant_id@
    &&& fact.owner.owner_id@ == context.owner.owner_id@
    &&& fact.instrument@ == instrument@
    &&& !instant_less(fact.event_time.instant, context.period_from.instant)
    &&& !instant_less(context.period_to.instant, fact.event_time.instant)
    &&& !instant_less(context.knowledge_at.instant, fact.event_time.instant)
}

/// Checks one fact read for the instrument page; an integrity error otherwise.
pub fn validate_p04_fact(context: &NormalizedPortfolioContext, instrument: &VersionRef, fact: &MarketFactFacts) -> (result:
    ApplicationResult<()>)
    ensures
        result is Ok <==> page_fact_valid(*context, *instrument, *fact),
        result matches Err(e) ==> e == failure(ApplicationErrorCategory::HashMismatch),
{
    let time = fact.event_time.instant;
    if !fact.owner.same_as(&context.owner) || !fact.instrument.same_as(instrument) || instant_before(
        time,
        context.period_from.instant,
    ) || instant_before(context.period_to.instant, time) || instant_before(context.knowledge_at.instant, time) {
        return Err(integrity());
    }
    Ok(())
}

/// A page is authorized only after the role and the owner checks passed, and only when every
/// scope the page needs — `portfolio:read` first among them, for every page — was granted.
pub proof fn law_page_needs_its_scopes(
    role_check: ApplicationResult<()>,
    owner_check: ApplicationResult<()>,
    granted: Seq<String>,
    page_id: PortfolioWorkbenchPageId,
)
    ensures
        page_authorization(role_check, owner_check, granted, page_id) is Ok ==> {
            &&& role_check is Ok
            &&& owner_check is Ok
            &&& page_permissions(page_id).len() > 0
            &&& page_permissions(page_id)[0] == "portfolio:read"@
            &&& forall|i: int| 0 <= i < page_permissions(page_id).len() ==> exists|j: int|
                0 <= j < granted.len() && #[trigger] granted[j]@ == #[trigger] page_permissions(page_id)[i]
        },
{
}

/// A fact shown on an instrument page is the context owner's, for that instrument, and was
/// taken within the page's period and known by the knowledge instant.
pub proof fn law_page_fact_fields(context: NormalizedPortfolioContext, instrument: VersionRef, fact: MarketFactFacts)
    ensures
        page_fact_valid(context, instrument, fact) ==> {
            &&& fact.owner.tenant_id@ == context.owner.tenant_id@
            &&& fact.owner.owner_id@ == context.owner.owner_id@
            &&& fact.instrument.id@ == instrument.id@
            &&& fact.instrument.version == instrument.version
            &&& !instant_less(fact.event_time.instant, context.period_from.instant)
            &&& !instant_less(context.period_to.instant, fact.event_time.instant)
            &&& !instant_less(context.knowledge_at.instant, fact.event_time.instant)
        },
{
}

/// A valuation binding resolves to exactly one fact with its identifier, source revision and
/// content hash, and that fact has a value at the bound position.
pub proof fn law_valuation_binding_fields(binding: ValuationAuthorityBinding, facts: Seq<MarketFactFacts>)
    ensures
        valuation_binding_valid(binding, facts) ==> exists|i: int| {
            &&& 0 <= i < facts.len()
            &&& (#[trigger] facts[i]).id@ == binding.valuation_id@
            &&& facts[i].source_revision == binding.source_revision
            &&& facts[i].content_hash@ == binding.content_hash@
            &&& facts[i].valuation_value_count is Some
            &&& binding.value_index < facts[i].valuation_value_count->0
            &&& forall|j: int| 0 <= j < facts.len() && j != i ==> !({
                &&& (#[trigger] facts[j]).id@ == binding.valuation_id@
                &&& facts[j].source_revision == binding.source_revision
                &&& facts[j].content_hash@ == binding.content_hash@
            })
        },
{
    if valuation_binding_valid(binding, facts) {
        let i = choose|i: int|
            0 <= i < facts.len() && #[trigger] fact_named_by(binding, facts[i]) && (forall|j: int|
                0 <= j < facts.len() && j != i ==> !#[trigger] fact_named_by(binding, facts[j]))
                && (facts[i].valuation_value_count matches Some(n) && binding.value_index < n);
        assert forall|j: int| 0 <= j < facts.len() && j != i implies !({
            &&& (#[trigger] facts[j]).id@ == binding.valuation_id@
            &&& facts[j].source_revision == binding.source_revision
            &&& facts[j].content_hash@ == binding.content_hash@
        }) by {
            assert(!fact_named_by(binding, facts[j]));
        }
    }
}

/// A successful page never reports the error mode, reports partial data only with a coverage
/// reason, and real data only without one.
pub proof fn law_success_mode_matches_reasons(data_mode: PortfolioPageDataMode, reason_count: nat)
    ensures
        success_mode_valid(data_mode, reason_count) ==> {
            &&& data_mode != PortfolioPageDataMode::Error
            &&& (data_mode == PortfolioPageDataMode::Partial ==> reason_count > 0)
            &&& (data_mode == PortfolioPageDataMode::Real ==> reason_count == 0)
        },
{
}

} // verus!
