use vstd::prelude::*;

use crate::aggregation::{
    PortfolioBasicMetrics, PortfolioCoverageReason, PortfolioKrdSummary, PortfolioMetricAggregation,
    PortfolioMetricDataMode,
};
use crate::digest::sha256;
use crate::evidence::{CatalogObjectRef, PortfolioCatalogEvidenceBinding};
use crate::fingerprint::{AggregationRequestContext, aggregation_request_fingerprint, request_bytes};
use crate::error::{ApplicationErrorCategory, ApplicationResult, failure};
use crate::overview::{
    PositionSnapshotBinding, canonical_reasons, observed_in_future, older_than, overview_coverage_reasons,
    overview_data_mode, overview_staleness, staleness_defined,
};
use crate::primitives::Instant;
use crate::primitives::VersionRef;
use crate::resolution::{
    ExactPortfolioScope, ResolvedPortfolio, ResolvedPortfolioAggregationInputs, same_snapshot_binding,
};
use crate::risk_analysis::PortfolioRiskNamedEvidenceBinding;

verus! {

/// A computed portfolio overview before it is published: the subject, scope and catalog
/// evidence it was computed on, the member snapshots, the scope's metrics and KRD summary, the
/// benchmark's metrics, the benchmark and convention it was computed against, its coverage
/// reasons, its request fingerprint and its data mode, together with the per-member and
/// benchmark results it carries unchanged.
#[derive(Debug)]
pub struct OverviewDraft<Details> {
    pub subject_ref: VersionRef,
    pub scope: ExactPortfolioScope,
    pub catalog_evidence: Vec<PortfolioCatalogEvidenceBinding>,
    pub position_snapshots: Vec<PositionSnapshotBinding>,
    pub basic_metrics: PortfolioBasicMetrics,
    pub krd_summary: PortfolioKrdSummary,
    pub benchmark_metrics: PortfolioBasicMetrics,
    pub benchmark: CatalogObjectRef,
    pub metric_convention: CatalogObjectRef,
    pub missing_reasons: Vec<PortfolioCoverageReason>,
    pub request_fingerprint: Vec<u8>,
    pub data_mode: PortfolioMetricDataMode,
    pub details: Details,
}

/// The reasons an overview reports: the scope's coverage reasons, with the benchmark risk reason
/// when the benchmark's key-rate calculation left a position out, each once in canonical order.
pub open spec fn reported_reasons(
    scope_reasons: Seq<PortfolioCoverageReason>,
    benchmark_participating: u64,
    benchmark_imported: u64,
) -> Seq<PortfolioCoverageReason> {
    canonical_reasons(
        if benchmark_participating != benchmark_imported {
            scope_reasons.push(PortfolioCoverageReason::BenchmarkPositionExcludedFromPortfolioRisk)
        } else {
            scope_reasons
        },
    )
}

/// The data mode of an overview: partial when a reason remains or either aggregation is
/// partial, otherwise stale when any snapshot is stale, and real otherwise.
pub open spec fn reported_mode(
    reasons: Seq<PortfolioCoverageReason>,
    scope_mode: PortfolioMetricDataMode,
    benchmark_mode: PortfolioMetricDataMode,
    stale: bool,
) -> PortfolioMetricDataMode {
    if reasons.len() != 0 || scope_mode == PortfolioMetricDataMode::Partial || benchmark_mode
        == PortfolioMetricDataMode::Partial {
        PortfolioMetricDataMode::Partial
    } else if stale {
        PortfolioMetricDataMode::Stale
    } else {
        PortfolioMetricDataMode::Real
    }
}

fn copy_snapshot_binding(binding: &PositionSnapshotBinding) -> (copy: PositionSnapshotBinding)
    ensures
        same_snapshot_binding(copy, *binding),
{
    PositionSnapshotBinding {
        snapshot_id: binding.snapshot_id.clone(),
        content_hash: binding.content_hash.clone(),
        observed_at: binding.observed_at.duplicate(),
        visible_at: binding.visible_at.duplicate(),
    }
}

/// Assembles the draft of a computed overview. `scope_reasons` are the coverage reasons of the
/// scope's positions and key-rate exposures; the benchmark counts are those of its key-rate
/// coverage; `stale` is the combined staleness of every member and the benchmark snapshot.
pub fn assemble_overview_draft<Details>(
    request: AggregationRequestContext,
    resolved: ResolvedPortfolioAggregationInputs,
    scope_metrics: PortfolioMetricAggregation,
    benchmark_metrics: PortfolioMetricAggregation,
    scope_reasons: &[PortfolioCoverageReason],
    benchmark_participating: u64,
    benchmark_imported: u64,
    stale: bool,
    analytics_fingerprints: &[Vec<u8>],
    risk_input_sets: &[Vec<PortfolioRiskNamedEvidenceBinding>],
    details: Details,
) -> (draft: OverviewDraft<Details>)
    ensures
        draft.subject_ref == request.pins.times.subject_ref,
        draft.scope == resolved.exact_scope,
        draft.catalog_evidence == resolved.catalog_evidence,
        draft.position_snapshots@.len() == resolved.portfolios@.len(),
        forall|i: int| 0 <= i < draft.position_snapshots@.len() ==> same_snapshot_binding(
            #[trigger] draft.position_snapshots@[i],
            resolved.portfolios@[i].position_snapshot,
        ),
        draft.basic_metrics == scope_metrics.basic_metrics,
        draft.krd_summary == scope_metrics.krd_summary,
        draft.benchmark_metrics == benchmark_metrics.basic_metrics,
        draft.benchmark == request.pins.benchmark,
        draft.metric_convention == request.pins.metric_convention,
        draft.missing_reasons@ == reported_reasons(scope_reasons@, benchmark_participating, benchmark_imported),
        draft.request_fingerprint@ == sha256(request_bytes(request, resolved, analytics_fingerprints@, risk_input_sets@)),
        draft.data_mode == reported_mode(
            draft.missing_reasons@,
            scope_metrics.data_mode,
            benchmark_metrics.data_mode,
            stale,
        ),
        draft.details == details,
{
    let request_fingerprint = aggregation_request_fingerprint(&request, &resolved, analytics_fingerprints, risk_input_sets);
    let missing_reasons = overview_coverage_reasons(scope_reasons, benchmark_participating, benchmark_imported);
    let data_mode = overview_data_mode(
        missing_reasons.as_slice(),
        scope_metrics.data_mode,
        benchmark_metrics.data_mode,
        stale,
    );
    let mut position_snapshots: Vec<PositionSnapshotBinding> = Vec::new();
    let mut i: usize = 0;
    while i < resolved.portfolios.len()
        invariant
            i <= resolved.portfolios@.len(),
            position_snapshots@.len() == i,
            forall|k: int| 0 <= k < i ==> same_snapshot_binding(
                #[trigger] position_snapshots@[k],
                resolved.portfolios@[k].position_snapshot,
            ),
        decreases resolved.portfolios@.len() - i,
    {
        position_snapshots.push(copy_snapshot_binding(&resolved.portfolios[i].position_snapshot));
        i = i + 1;
    }
    let subject_ref = request.pins.times.subject_ref.duplicate();
    let ResolvedPortfolioAggregationInputs { exact_scope, catalog_evidence, .. } = resolved;
    let AggregationRequestContext { pins, .. } = request;
    OverviewDraft {
        subject_ref,
        scope: exact_scope,
        catalog_evidence,
        position_snapshots,
        basic_metrics: scope_metrics.basic_metrics,
        krd_summary: scope_metrics.krd_summary,
        benchmark_metrics: benchmark_metrics.basic_metrics,
        benchmark: pins.benchmark,
        metric_convention: pins.metric_convention,
        missing_reasons,
        request_fingerprint,
        data_mode,
        details,
    }
}

/// The observation instants of an overview's position snapshots: every member's in order, then
/// the benchmark's.
pub open spec fn snapshot_instants(resolved: ResolvedPortfolioAggregationInputs) -> Seq<Instant> {
    resolved.portfolios@.map_values(|p: ResolvedPortfolio| p.position_snapshot.observed_at.instant).push(
        resolved.benchmark_snapshot.observed_at.instant,
    )
}

/// Whether any member's or the benchmark's position snapshot is older than the convention's
/// freshness limit at the knowledge instant, judged in order as `overview_staleness` judges.
pub fn resolved_staleness(resolved: &ResolvedPortfolioAggregationInputs, knowledge_at: Instant, freshness_limit_seconds: u64) -> (result:
    ApplicationResult<bool>)
    ensures
        ({
            let observed = snapshot_instants(*resolved);
            &&& result is Ok <==> forall|i: int| 0 <= i < observed.len() ==> staleness_defined(knowledge_at, #[trigger] observed[i], freshness_limit_seconds)
            &&& result matches Ok(stale) ==> stale == exists|i: int| 0 <= i < observed.len() && older_than(knowledge_at, #[trigger] observed[i], freshness_limit_seconds)
            &&& result matches Err(e) ==> exists|i: int| {
                &&& 0 <= i < observed.len()
                &&& !staleness_defined(knowledge_at, #[trigger] observed[i], freshness_limit_seconds)
                &&& forall|j: int| 0 <= j < i ==> staleness_defined(knowledge_at, #[trigger] observed[j], freshness_limit_seconds)
                &&& e == if observed_in_future(knowledge_at, observed[i]) {
                    failure(ApplicationErrorCategory::HashMismatch)
                } else {
                    failure(ApplicationErrorCategory::ValidationFailed)
                }
            }
        }),
{
    let mut observed: Vec<Instant> = Vec::new();
    let mut i: usize = 0;
    while i < resolved.portfolios.len()
        invariant
            i <= resolved.portfolios@.len(),
            observed@ == resolved.portfolios@.subrange(0, i as int).map_values(
                |p: ResolvedPortfolio| p.position_snapshot.observed_at.instant,
            ),
        decreases resolved.portfolios@.len() - i,
    {
        observed.push(resolved.portfolios[i].position_snapshot.observed_at.instant);
        proof {
            assert(resolved.portfolios@.subrange(0, i + 1).map_values(
                |p: ResolvedPortfolio| p.position_snapshot.observed_at.instant,
            ) =~= observed@);
        }
        i = i + 1;
    }
    observed.push(resolved.benchmark_snapshot.observed_at.instant);
    proof {
        assert(resolved.portfolios@.subrange(0, resolved.portfolios@.len() as int) =~= resolved.portfolios@);
        assert(observed@ =~= snapshot_instants(*resolved));
    }
    overview_staleness(knowledge_at, observed.as_slice(), freshness_limit_seconds)
}

/// An overview reports stale data exactly when no reason remains, neither aggregation is
/// partial, and some member's or the benchmark's position snapshot is older than the freshness
/// limit at the knowledge instant — the staleness `overview_staleness` reports.
pub proof fn law_stale_exactly_when_a_snapshot_is_old(
    reasons: Seq<PortfolioCoverageReason>,
    scope_mode: PortfolioMetricDataMode,
    benchmark_mode: PortfolioMetricDataMode,
    knowledge_at: Instant,
    observed: Seq<Instant>,
    limit: u64,
)
    ensures
        ({
            let old = exists|i: int| 0 <= i < observed.len() && older_than(knowledge_at, #[trigger] observed[i], limit);
            (reported_mode(reasons, scope_mode, benchmark_mode, old) == PortfolioMetricDataMode::Stale) <==> (
            reasons.len() == 0 && scope_mode != PortfolioMetricDataMode::Partial && benchmark_mode
                != PortfolioMetricDataMode::Partial && old)
        }),
{
}

} // verus!
