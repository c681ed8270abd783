use vstd::prelude::*;

use crate::aggregation::{
    FactorDv01, PortfolioBasicMetrics, PortfolioCoverageReason, PortfolioKrdSummary, PortfolioMetricDataMode,
    coverage_reason_code, metric_mode_code,
};
use crate::bytes::{append_token, be_u32, be_u64, push_be_u32, push_be_u64, text_bytes, token};
use crate::cursor::{decimal_bytes, push_decimal};
use crate::decimal::DecimalValue;
use crate::evidence::CatalogObjectRef;
use crate::fingerprint::{
    catalog_evidence_bytes, push_catalog_evidence, push_scope, push_snapshot_binding, scope_bytes,
    snapshot_binding_bytes,
};
use crate::overview::PositionSnapshotBinding;
use crate::overview_draft::OverviewDraft;
use crate::quotes::{be_i128, push_be_i128};

verus! {

/// The schema identifier that opens an overview's canonical payload,
/// `ficant.portfolio.v1.PortfolioOverview`.
pub open spec fn overview_schema_id() -> Seq<u8> {
    seq![
        102u8, 105, 99, 97, 110, 116, 46, 112, 111, 114, 116, 102, 111, 108, 105, 111, 46, 118, 49, 46, 80,
        111, 114, 116, 102, 111, 108, 105, 111, 79, 118, 101, 114, 118, 105, 101, 119,
    ]
}

/// The canonical text of a decimal coefficient: its decimal digits, after a minus sign when it
/// is negative.
pub open spec fn coefficient_text(coefficient: i128) -> Seq<u8> {
    if coefficient < 0 {
        seq![45u8] + decimal_bytes((-coefficient) as nat)
    } else {
        decimal_bytes(coefficient as nat)
    }
}

/// A decimal value: its coefficient text, scale, Unit identifier and Unit version.
#[verifier::opaque]
pub open spec fn decimal_value_bytes(value: DecimalValue) -> Seq<u8> {
    token(coefficient_text(value.coefficient)) + token(be_u32(value.scale)) + token(text_bytes(value.unit.unit_id@))
        + token(be_u64(value.unit.version))
}

/// An optional decimal: a presence flag field, then the value when there is one.
#[verifier::opaque]
pub open spec fn optional_decimal_bytes(value: Option<DecimalValue>) -> Seq<u8> {
    match value {
        Some(v) => token(seq![1u8]) + decimal_value_bytes(v),
        None => token(seq![0u8]),
    }
}

/// A portfolio's basic metrics: market value, economic P&L, the five optional weighted
/// averages, then DV01.
#[verifier::opaque]
pub open spec fn basic_metrics_bytes(metrics: PortfolioBasicMetrics) -> Seq<u8> {
    decimal_value_bytes(metrics.market_value) + decimal_value_bytes(metrics.economic_pnl) + optional_decimal_bytes(
        metrics.weighted_ytm,
    ) + optional_decimal_bytes(metrics.modified_duration) + optional_decimal_bytes(metrics.convexity)
        + optional_decimal_bytes(metrics.weighted_coupon_rate) + optional_decimal_bytes(metrics.weighted_remaining_years)
        + decimal_value_bytes(metrics.dv01)
}

/// One key-rate total: factor identifier, definition hash, scaled value, Unit identifier and
/// Unit version.
pub open spec fn krd_factor_bytes(factor: FactorDv01) -> Seq<u8> {
    token(text_bytes(factor.factor_id@)) + token(factor.factor_definition_hash@) + token(be_i128(factor.value.scaled))
        + token(text_bytes(factor.unit.unit_id@)) + token(be_u64(factor.unit.version))
}

pub open spec fn krd_factors_bytes(factors: Seq<FactorDv01>) -> Seq<u8>
    decreases factors.len(),
{
    if factors.len() == 0 {
        Seq::empty()
    } else {
        krd_factors_bytes(factors.drop_last()) + krd_factor_bytes(factors.last())
    }
}

/// A KRD summary: every total in order, then the parallel DV01.
#[verifier::opaque]
pub open spec fn krd_bytes(summary: PortfolioKrdSummary) -> Seq<u8> {
    krd_factors_bytes(summary.totals@) + decimal_value_bytes(summary.parallel_dv01)
}

/// A pinned catalog object: identifier, version and content hash.
pub open spec fn object_ref_bytes(object: CatalogObjectRef) -> Seq<u8> {
    token(text_bytes(object.reference.id@)) + token(be_u64(object.reference.version)) + token(object.content_hash@)
}

/// The wire code of a coverage reason.
pub open spec fn reason_code(reason: PortfolioCoverageReason) -> u8 {
    match reason {
        PortfolioCoverageReason::ShortPositionExcludedFromWeightedAverages => 1u8,
        PortfolioCoverageReason::NonBondExcludedFromWeightedAverages => 2u8,
        PortfolioCoverageReason::MissingBondMetricExcludedFromWeightedAverages => 3u8,
        PortfolioCoverageReason::PositionExcludedFromPortfolioRisk => 4u8,
        PortfolioCoverageReason::BenchmarkPositionExcludedFromPortfolioRisk => 5u8,
    }
}

pub open spec fn reason_codes_bytes(reasons: Seq<PortfolioCoverageReason>) -> Seq<u8>
    decreases reasons.len(),
{
    if reasons.len() == 0 {
        Seq::empty()
    } else {
        reason_codes_bytes(reasons.drop_last()) + token(seq![reason_code(reasons.last())])
    }
}

pub open spec fn snapshot_list_bytes(snapshots: Seq<PositionSnapshotBinding>) -> Seq<u8>
    decreases snapshots.len(),
{
    if snapshots.len() == 0 {
        Seq::empty()
    } else {
        snapshot_list_bytes(snapshots.drop_last()) + snapshot_binding_bytes(snapshots.last())
    }
}

/// The wire code of a data mode.
pub open spec fn mode_code(mode: PortfolioMetricDataMode) -> u8 {
    match mode {
        PortfolioMetricDataMode::Real => 1u8,
        PortfolioMetricDataMode::Partial => 2u8,
        PortfolioMetricDataMode::Stale => 3u8,
    }
}

/// The canonical payload of an overview draft: the schema identifier, the subject, scope,
/// catalog evidence and member snapshots, the scope's metrics and KRD summary, the benchmark's
/// metrics, the benchmark and convention pins, the coverage (its participation declaration,
/// then each reason's code), the members' and benchmark's detail section as encoded, the
/// request fingerprint and the data mode's code.
#[verifier::opaque]
pub open spec fn overview_payload<Details>(draft: OverviewDraft<Details>, participation: Seq<u8>, details: Seq<u8>) -> Seq<u8> {
    token(overview_schema_id()) + token(text_bytes(draft.subject_ref.id@)) + token(be_u64(draft.subject_ref.version))
        + scope_bytes(draft.scope) + catalog_evidence_bytes(draft.catalog_evidence@) + snapshot_list_bytes(
        draft.position_snapshots@,
    ) + basic_metrics_bytes(draft.basic_metrics) + krd_bytes(draft.krd_summary) + basic_metrics_bytes(
        draft.benchmark_metrics,
    ) + object_ref_bytes(draft.benchmark) + object_ref_bytes(draft.metric_convention) + token(participation)
        + reason_codes_bytes(draft.missing_reasons@) + details + token(draft.request_fingerprint@) + token(
        seq![mode_code(draft.data_mode)],
    )
}

fn push_u128_decimal(bytes: &mut Vec<u8>, value: u128)
    ensures
        final(bytes)@ == old(bytes)@ + decimal_bytes(value as nat),
    decreases value,
{
    if value >= 10 {
        push_u128_decimal(bytes, value / 10);
    }
    bytes.push(48 + (value % 10) as u8);
    proof {
        if value >= 10 {
            assert(decimal_bytes(value as nat) == decimal_bytes((value / 10) as nat).push((48 + value % 10) as u8));
        }
    }
}

fn push_coefficient_text(bytes: &mut Vec<u8>, coefficient: i128)
    ensures
        final(bytes)@ == old(bytes)@ + coefficient_text(coefficient),
{
    if coefficient < 0 {
        bytes.push(45);
        let magnitude: u128 = (-(coefficient + 1)) as u128 + 1;
        push_u128_decimal(bytes, magnitude);
        assert(bytes@ =~= old(bytes)@ + coefficient_text(coefficient));
    } else {
        push_u128_decimal(bytes, coefficient as u128);
    }
}

fn push_decimal_value(bytes: &mut Vec<u8>, value: &DecimalValue)
    ensures
        final(bytes)@ == old(bytes)@ + decimal_value_bytes(*value),
{
    let mut text: Vec<u8> = Vec::new();
    push_coefficient_text(&mut text, value.coefficient);
    assert(text@ =~= coefficient_text(value.coefficient));
    append_token(bytes, text.as_slice());
    let mut scale: Vec<u8> = Vec::new();
    push_be_u32(&mut scale, value.scale);
    assert(scale@ =~= be_u32(value.scale));
    append_token(bytes, scale.as_slice());
    append_token(bytes, value.unit.unit_id.as_str().as_bytes());
    let mut version: Vec<u8> = Vec::new();
    push_be_u64(&mut version, value.unit.version);
    assert(version@ =~= be_u64(value.unit.version));
    append_token(bytes, version.as_slice());
    proof {
        reveal(decimal_value_bytes);
    }
    assert(bytes@ =~= old(bytes)@ + decimal_value_bytes(*value));
}

fn push_optional_decimal(bytes: &mut Vec<u8>, value: &Option<DecimalValue>)
    ensures
        final(bytes)@ == old(bytes)@ + optional_decimal_bytes(*value),
{
    proof {
        reveal(optional_decimal_bytes);
    }
    match value {
        Some(v) => {
            append_token(bytes, &[1u8]);
            push_decimal_value(bytes, v);
            assert(bytes@ =~= old(bytes)@ + optional_decimal_bytes(*value));
        },
        None => {
            append_token(bytes, &[0u8]);
            assert(bytes@ =~= old(bytes)@ + optional_decimal_bytes(*value));
        },
    }
}

fn push_basic_metrics(bytes: &mut Vec<u8>, metrics: &PortfolioBasicMetrics)
    ensures
        final(bytes)@ == old(bytes)@ + basic_metrics_bytes(*metrics),
{
    push_decimal_value(bytes, &metrics.market_value);
    push_decimal_value(bytes, &metrics.economic_pnl);
    push_optional_decimal(bytes, &metrics.weighted_ytm);
    push_optional_decimal(bytes, &metrics.modified_duration);
    push_optional_decimal(bytes, &metrics.convexity);
    push_optional_decimal(bytes, &metrics.weighted_coupon_rate);
    push_optional_decimal(bytes, &metrics.weighted_remaining_years);
    push_decimal_value(bytes, &metrics.dv01);
    proof {
        reveal(basic_metrics_bytes);
    }
    assert(bytes@ =~= old(bytes)@ + basic_metrics_bytes(*metrics));
}

fn push_krd_factor(bytes: &mut Vec<u8>, factor: &FactorDv01)
    ensures
        final(bytes)@ == old(bytes)@ + krd_factor_bytes(*factor),
{
    append_token(bytes, factor.factor_id.as_str().as_bytes());
    append_token(bytes, factor.factor_definition_hash.as_slice());
    let mut value: Vec<u8> = Vec::new();
    push_be_i128(&mut value, factor.value.scaled);
    assert(value@ =~= be_i128(factor.value.scaled));
    append_token(bytes, value.as_slice());
    append_token(bytes, factor.unit.unit_id.as_str().as_bytes());
    let mut version: Vec<u8> = Vec::new();
    push_be_u64(&mut version, factor.unit.version);
    assert(version@ =~= be_u64(factor.unit.version));
    append_token(bytes, version.as_slice());
    assert(bytes@ =~= old(bytes)@ + krd_factor_bytes(*factor));
}

fn push_krd(bytes: &mut Vec<u8>, summary: &PortfolioKrdSummary)
    ensures
        final(bytes)@ == old(bytes)@ + krd_bytes(*summary),
{
    let ghost start = bytes@;
    let mut i: usize = 0;
    while i < summary.totals.len()
        invariant
            i <= summary.totals@.len(),
            bytes@ == start + krd_factors_bytes(summary.totals@.subrange(0, i as int)),
        decreases summary.totals@.len() - i,
    {
        push_krd_factor(bytes, &summary.totals[i]);
        proof {
            let next = summary.totals@.subrange(0, i + 1);
            assert(next.drop_last() =~= summary.totals@.subrange(0, i as int));
            assert(bytes@ =~= start + krd_factors_bytes(next));
        }
        i = i + 1;
    }
    assert(summary.totals@.subrange(0, summary.totals@.len() as int) =~= summary.totals@);
    push_decimal_value(bytes, &summary.parallel_dv01);
    proof {
        reveal(krd_bytes);
    }
    assert(bytes@ =~= old(bytes)@ + krd_bytes(*summary));
}

fn push_object_ref(bytes: &mut Vec<u8>, object: &CatalogObjectRef)
    ensures
        final(bytes)@ == old(bytes)@ + object_ref_bytes(*object),
{
    append_token(bytes, object.reference.id.as_str().as_bytes());
    let mut version: Vec<u8> = Vec::new();
    push_be_u64(&mut version, object.reference.version);
    assert(version@ =~= be_u64(object.reference.version));
    append_token(bytes, version.as_slice());
    append_token(bytes, object.content_hash.as_slice());
    assert(bytes@ =~= old(bytes)@ + object_ref_bytes(*object));
}

fn push_reason_codes(bytes: &mut Vec<u8>, reasons: &[PortfolioCoverageReason])
    ensures
        final(bytes)@ == old(bytes)@ + reason_codes_bytes(reasons@),
{
    let ghost start = bytes@;
    let mut i: usize = 0;
    while i < reasons.len()
        invariant
            i <= reasons@.len(),
            bytes@ == start + reason_codes_bytes(reasons@.subrange(0, i as int)),
        decreases reasons@.len() - i,
    {
        let code = coverage_reason_code(reasons[i]);
        append_token(bytes, &[code]);
        proof {
            let next = reasons@.subrange(0, i + 1);
            assert(next.drop_last() =~= reasons@.subrange(0, i as int));
            assert(seq![code] =~= seq![reason_code(next.last())]);
            assert(bytes@ =~= start + reason_codes_bytes(next));
        }
        i = i + 1;
    }
    assert(reasons@.subrange(0, reasons@.len() as int) =~= reasons@);
}

fn push_snapshot_list(bytes: &mut Vec<u8>, snapshots: &[PositionSnapshotBinding])
    ensures
        final(bytes)@ == old(bytes)@ + snapshot_list_bytes(snapshots@),
{
    let ghost start = bytes@;
    let mut i: usize = 0;
    while i < snapshots.len()
        invariant
            i <= snapshots@.len(),
            bytes@ == start + snapshot_list_bytes(snapshots@.subrange(0, i as int)),
        decreases snapshots@.len() - i,
    {
        push_snapshot_binding(bytes, &snapshots[i]);
        proof {
            let next = snapshots@.subrange(0, i + 1);
            assert(next.drop_last() =~= snapshots@.subrange(0, i as int));
            assert(bytes@ =~= start + snapshot_list_bytes(next));
        }
        i = i + 1;
    }
    assert(snapshots@.subrange(0, snapshots@.len() as int) =~= snapshots@);
}

/// The canonical payload of an overview draft. The participation declaration of its coverage
/// and the section of its member and benchmark details come encoded by the domain model.
pub fn overview_payload_bytes<Details>(draft: &OverviewDraft<Details>, participation: &[u8], details: &[u8]) -> (bytes:
    Vec<u8>)
    ensures
        bytes@ == overview_payload(*draft, participation@, details@),
{
    let schema: Vec<u8> = vec![
        102u8, 105, 99, 97, 110, 116, 46, 112, 111, 114, 116, 102, 111, 108, 105, 111, 46, 118, 49, 46, 80,
        111, 114, 116, 102, 111, 108, 105, 111, 79, 118, 101, 114, 118, 105, 101, 119,
    ];
    assert(schema@ =~= overview_schema_id());
    let mut bytes: Vec<u8> = Vec::new();
    append_token(&mut bytes, schema.as_slice());
    append_token(&mut bytes, draft.subject_ref.id.as_str().as_bytes());
    let mut version: Vec<u8> = Vec::new();
    push_be_u64(&mut version, draft.subject_ref.version);
    assert(version@ =~= be_u64(draft.subject_ref.version));
    append_token(&mut bytes, version.as_slice());
    let ghost head = bytes@;
    push_scope(&mut bytes, &draft.scope);
    push_catalog_evidence(&mut bytes, draft.catalog_evidence.as_slice());
    push_snapshot_list(&mut bytes, draft.position_snapshots.as_slice());
    push_basic_metrics(&mut bytes, &draft.basic_metrics);
    push_krd(&mut bytes, &draft.krd_summary);
    push_basic_metrics(&mut bytes, &draft.benchmark_metrics);
    push_object_ref(&mut bytes, &draft.benchmark);
    push_object_ref(&mut bytes, &draft.metric_convention);
    append_token(&mut bytes, participation);
    push_reason_codes(&mut bytes, draft.missing_reasons.as_slice());
    crate::bytes::push_all(&mut bytes, details);
    append_token(&mut bytes, draft.request_fingerprint.as_slice());
    let mode = metric_mode_code(draft.data_mode);
    append_token(&mut bytes, &[mode]);
    proof {
        reveal(overview_payload);
        assert(seq![mode] =~= seq![mode_code(draft.data_mode)]);
    }
    assert(bytes@ =~= overview_payload(*draft, participation@, details@));
    bytes
}

} // verus!
