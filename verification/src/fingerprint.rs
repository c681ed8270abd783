use vstd::prelude::*;

use crate::aggregation::FactorDv01;
use crate::bytes::{append_token, be_u32, be_u64, push_be_u32, push_be_u64, text_bytes, token};
use crate::decimal::UnitRef;
use crate::digest::{content_digest, sha256};
use crate::error::{ApplicationErrorCategory, ApplicationResult, failure, integrity};
use crate::evidence::{
    CatalogObjectRef, ExactPortfolioScopeKind, PortfolioCatalogEvidenceBinding, PortfolioCatalogEvidenceRole,
};
use crate::hex::{encode_hex, hex_text};
use crate::overview::PositionSnapshotBinding;
use crate::primitives::{LineageRef, MarketTime};
use crate::quotes::{date_bytes, date_text};
use crate::risk_analysis::{PortfolioRiskNamedEvidenceBinding, kind_code, kind_number};
use crate::resolution::{
    AggregationContextPins, ExactPortfolioScope, ResolvedPortfolio, ResolvedPortfolioAggregationInputs,
};
use crate::text::same_text;
use crate::workbench::{
    PortfolioCurrencyMode, PortfolioLookThroughMode, PortfolioPeriodPreset, currency_code, currency_wire,
    look_through_code, look_through_wire, period_code, period_wire,
};

verus! {

/// The request an overview aggregation answers, as its fingerprint reads it: the context pins,
/// the display currency and its Unit, the look-through mode and the reporting period.
#[derive(Clone, Debug)]
pub struct AggregationRequestContext {
    pub pins: AggregationContextPins,
    pub currency: PortfolioCurrencyMode,
    pub currency_unit: UnitRef,
    pub look_through: PortfolioLookThroughMode,
    pub period: PortfolioPeriodPreset,
    pub period_from: MarketTime,
    pub period_to: MarketTime,
}

/// The domain tag every overview request encoding starts with.
pub open spec fn request_tag() -> Seq<u8> {
    seq![
        102u8, 105, 99, 97, 110, 116, 46, 112, 111, 114, 116, 102, 111, 108, 105, 111, 45, 111, 118,
        101, 114, 118, 105, 101, 119, 45, 114, 101, 113, 117, 101, 115, 116, 46, 118, 49,
    ]
}

/// The text whose digest stands for the subject's content hash: a subject is bound by its
/// version alone.
pub open spec fn subject_placeholder() -> Seq<u8> {
    seq![
        115u8, 117, 98, 106, 101, 99, 116, 45, 114, 101, 102, 45, 118, 101, 114, 115, 105, 111, 110,
        45, 111, 110, 108, 121,
    ]
}

/// A market time: whole seconds and nanoseconds, big-endian, then the zone name and the
/// local trading date as text, each as one field.
#[verifier::opaque]
pub open spec fn time_bytes(time: MarketTime) -> Seq<u8> {
    token(be_u64(time.instant.seconds as u64)) + token(be_u32(time.instant.nanos)) + token(
        text_bytes(time.market_timezone@),
    ) + token(date_bytes(time.local_trading_date))
}

/// An optional market time: a presence flag field, then the time when there is one.
#[verifier::opaque]
pub open spec fn optional_time_bytes(time: Option<MarketTime>) -> Seq<u8> {
    match time {
        Some(t) => token(seq![1u8]) + time_bytes(t),
        None => token(seq![0u8]),
    }
}

/// A lineage reference: object, version (zero when unpinned) and content hash (empty when
/// unpinned).
#[verifier::opaque]
pub open spec fn lineage_bytes(reference: LineageRef) -> Seq<u8> {
    token(text_bytes(reference.object_id@)) + token(
        be_u64(
            match reference.version {
                Some(v) => v,
                None => 0,
            },
        ),
    ) + token(
        match reference.content_hash {
            Some(h) => h@,
            None => Seq::empty(),
        },
    )
}

pub open spec fn lineage_list_bytes(references: Seq<LineageRef>) -> Seq<u8>
    decreases references.len(),
{
    if references.len() == 0 {
        Seq::empty()
    } else {
        lineage_list_bytes(references.drop_last()) + lineage_bytes(references.last())
    }
}

/// The code of each kind of selected scope.
pub open spec fn scope_code(scope: ExactPortfolioScopeKind) -> u8 {
    match scope {
        ExactPortfolioScopeKind::Book(_) => 1,
        ExactPortfolioScopeKind::Group(_) => 2,
        ExactPortfolioScopeKind::Portfolio(_) => 3,
    }
}

pub open spec fn selected_lineage(scope: ExactPortfolioScopeKind) -> LineageRef {
    match scope {
        ExactPortfolioScopeKind::Book(r) => r,
        ExactPortfolioScopeKind::Group(r) => r,
        ExactPortfolioScopeKind::Portfolio(r) => r,
    }
}

/// A scope: its kind code and lineage, then each member portfolio's lineage.
#[verifier::opaque]
pub open spec fn scope_bytes(scope: ExactPortfolioScope) -> Seq<u8> {
    token(seq![scope_code(scope.selected)]) + lineage_bytes(selected_lineage(scope.selected))
        + lineage_list_bytes(scope.member_portfolios@)
}

/// A snapshot binding: identity, content hash, observation and visibility times.
#[verifier::opaque]
pub open spec fn snapshot_binding_bytes(binding: PositionSnapshotBinding) -> Seq<u8> {
    token(text_bytes(binding.snapshot_id@)) + token(binding.content_hash@) + time_bytes(
        binding.observed_at,
    ) + time_bytes(binding.visible_at)
}

/// Each catalog evidence role's number, in the order the roles are declared.
pub open spec fn role_code(role: PortfolioCatalogEvidenceRole) -> u8 {
    match role {
        PortfolioCatalogEvidenceRole::SelectedBook => 0,
        PortfolioCatalogEvidenceRole::SelectedGroup => 1,
        PortfolioCatalogEvidenceRole::SelectedPortfolio => 2,
        PortfolioCatalogEvidenceRole::MemberPortfolio => 3,
        PortfolioCatalogEvidenceRole::Benchmark => 4,
        PortfolioCatalogEvidenceRole::MetricConvention => 5,
    }
}

#[verifier::opaque]
pub open spec fn catalog_binding_bytes(binding: PortfolioCatalogEvidenceBinding) -> Seq<u8> {
    token(seq![role_code(binding.role)]) + token(text_bytes(binding.reference.id@)) + token(
        be_u64(binding.reference.version),
    ) + token(binding.content_hash@) + time_bytes(binding.visible_at) + time_bytes(
        binding.effective_from,
    ) + time_bytes(binding.effective_to)
}

pub open spec fn catalog_evidence_bytes(evidence: Seq<PortfolioCatalogEvidenceBinding>) -> Seq<u8>
    decreases evidence.len(),
{
    if evidence.len() == 0 {
        Seq::empty()
    } else {
        catalog_evidence_bytes(evidence.drop_last()) + catalog_binding_bytes(evidence.last())
    }
}

/// Each resolved member: its content hash, then the snapshot it binds.
pub open spec fn portfolio_list_bytes(portfolios: Seq<ResolvedPortfolio>) -> Seq<u8>
    decreases portfolios.len(),
{
    if portfolios.len() == 0 {
        Seq::empty()
    } else {
        portfolio_list_bytes(portfolios.drop_last()) + token(portfolios.last().record.content_hash@)
            + snapshot_binding_bytes(portfolios.last().position_snapshot)
    }
}

pub open spec fn field_list_bytes(fields: Seq<Vec<u8>>) -> Seq<u8>
    decreases fields.len(),
{
    if fields.len() == 0 {
        Seq::empty()
    } else {
        field_list_bytes(fields.drop_last()) + token(fields.last()@)
    }
}

#[verifier::opaque]
pub open spec fn risk_binding_bytes(binding: PortfolioRiskNamedEvidenceBinding) -> Seq<u8> {
    token(seq![kind_code(binding.kind)]) + token(text_bytes(binding.identity@)) + token(
        binding.content_hash@,
    ) + optional_time_bytes(binding.observed_at) + optional_time_bytes(binding.visible_at)
        + optional_time_bytes(binding.effective_from) + optional_time_bytes(binding.effective_to)
}

pub open spec fn risk_evidence_bytes(evidence: Seq<PortfolioRiskNamedEvidenceBinding>) -> Seq<u8>
    decreases evidence.len(),
{
    if evidence.len() == 0 {
        Seq::empty()
    } else {
        risk_evidence_bytes(evidence.drop_last()) + risk_binding_bytes(evidence.last())
    }
}

pub open spec fn risk_sets_bytes(sets: Seq<Vec<PortfolioRiskNamedEvidenceBinding>>) -> Seq<u8>
    decreases sets.len(),
{
    if sets.len() == 0 {
        Seq::empty()
    } else {
        risk_sets_bytes(sets.drop_last()) + risk_evidence_bytes(sets.last()@)
    }
}

/// The tag, owner and subject that head every request encoding.
#[verifier::opaque]
pub open spec fn request_head_bytes(context: AggregationRequestContext) -> Seq<u8> {
    let times = context.pins.times;
    token(request_tag()) + token(text_bytes(times.owner.tenant_id@)) + token(
        text_bytes(times.owner.owner_id@),
    ) + token(text_bytes(times.subject_ref.id@)) + token(be_u64(times.subject_ref.version)) + token(
        sha256(subject_placeholder()),
    )
}

/// The scope, the valuation and knowledge times, the currency and its Unit, the look-through
/// mode and the period preset.
#[verifier::opaque]
pub open spec fn request_frame_bytes(context: AggregationRequestContext) -> Seq<u8> {
    let pins = context.pins;
    scope_bytes(pins.scope) + time_bytes(pins.times.valuation_at) + time_bytes(
        pins.times.knowledge_at,
    ) + token(seq![currency_wire(context.currency)]) + token(text_bytes(context.currency_unit.unit_id@))
        + token(be_u64(context.currency_unit.version)) + token(
        seq![look_through_wire(context.look_through)],
    ) + token(seq![period_wire(context.period)])
}

/// The period bounds and the pinned benchmark and convention content hashes.
#[verifier::opaque]
pub open spec fn request_period_bytes(context: AggregationRequestContext) -> Seq<u8> {
    time_bytes(context.period_from) + time_bytes(context.period_to) + token(
        context.pins.benchmark.content_hash@,
    ) + token(context.pins.metric_convention.content_hash@)
}

/// The fields of the context that head every request encoding.
pub open spec fn request_context_bytes(context: AggregationRequestContext) -> Seq<u8> {
    request_head_bytes(context) + request_frame_bytes(context) + request_period_bytes(context)
}

/// What the catalog resolved, as the request encoding lists it.
pub open spec fn request_resolution_bytes(resolved: ResolvedPortfolioAggregationInputs) -> Seq<u8> {
    portfolio_list_bytes(resolved.portfolios@) + token(resolved.benchmark.record.content_hash@)
        + snapshot_binding_bytes(resolved.benchmark_snapshot) + token(
        resolved.convention.record.content_hash@,
    ) + catalog_evidence_bytes(resolved.catalog_evidence@)
}

/// The canonical encoding of an overview aggregation request: the context, what the catalog
/// resolved, the fingerprint of every analytics authority and every set of named definitions
/// the key-rate calculations consumed.
pub open spec fn request_bytes(
    context: AggregationRequestContext,
    resolved: ResolvedPortfolioAggregationInputs,
    analytics_fingerprints: Seq<Vec<u8>>,
    risk_input_sets: Seq<Vec<PortfolioRiskNamedEvidenceBinding>>,
) -> Seq<u8> {
    request_context_bytes(context) + request_resolution_bytes(resolved) + field_list_bytes(
        analytics_fingerprints,
    ) + risk_sets_bytes(risk_input_sets)
}

fn push_time(bytes: &mut Vec<u8>, time: &MarketTime)
    ensures
        final(bytes)@ == old(bytes)@ + time_bytes(*time),
{
    reveal(time_bytes);
    let mut field: Vec<u8> = Vec::new();
    push_be_u64(&mut field, time.instant.seconds as u64);
    append_token(bytes, field.as_slice());
    let mut field: Vec<u8> = Vec::new();
    push_be_u32(&mut field, time.instant.nanos);
    append_token(bytes, field.as_slice());
    append_token(bytes, time.market_timezone.as_str().as_bytes());
    let date = date_text(time.local_trading_date);
    append_token(bytes, date.as_slice());
    assert(bytes@ =~= old(bytes)@ + time_bytes(*time));
}

fn push_flag(bytes: &mut Vec<u8>, flag: u8)
    ensures
        final(bytes)@ == old(bytes)@ + token(seq![flag]),
{
    let field: Vec<u8> = vec![flag];
    assert(field@ =~= seq![flag]);
    append_token(bytes, field.as_slice());
}

fn push_u64_field(bytes: &mut Vec<u8>, value: u64)
    ensures
        final(bytes)@ == old(bytes)@ + token(be_u64(value)),
{
    let mut field: Vec<u8> = Vec::new();
    push_be_u64(&mut field, value);
    append_token(bytes, field.as_slice());
}

fn push_optional_time(bytes: &mut Vec<u8>, time: &Option<MarketTime>)
    ensures
        final(bytes)@ == old(bytes)@ + optional_time_bytes(*time),
{
    reveal(optional_time_bytes);
    match time {
        Some(t) => {
            push_flag(bytes, 1u8);
            push_time(bytes, t);
            assert(bytes@ =~= old(bytes)@ + optional_time_bytes(*time));
        },
        None => {
            push_flag(bytes, 0u8);
        },
    }
}

fn push_lineage(bytes: &mut Vec<u8>, reference: &LineageRef)
    ensures
        final(bytes)@ == old(bytes)@ + lineage_bytes(*reference),
{
    reveal(lineage_bytes);
    append_token(bytes, reference.object_id.as_str().as_bytes());
    let version: u64 = match reference.version {
        Some(v) => v,
        None => 0,
    };
    push_u64_field(bytes, version);
    let empty: Vec<u8> = Vec::new();
    match &reference.content_hash {
        Some(h) => append_token(bytes, h.as_slice()),
        None => {
            assert(empty@ =~= Seq::<u8>::empty());
            append_token(bytes, empty.as_slice());
        },
    }
    assert(bytes@ =~= old(bytes)@ + lineage_bytes(*reference));
}

fn push_lineage_list(bytes: &mut Vec<u8>, references: &[LineageRef])
    ensures
        final(bytes)@ == old(bytes)@ + lineage_list_bytes(references@),
{
    let mut i: usize = 0;
    while i < references.len()
        invariant
            i <= references@.len(),
            bytes@ == old(bytes)@ + lineage_list_bytes(references@.subrange(0, i as int)),
        decreases references@.len() - i,
    {
        push_lineage(bytes, &references[i]);
        assert(references@.subrange(0, i + 1).drop_last() =~= references@.subrange(0, i as int));
        i = i + 1;
    }
    assert(references@.subrange(0, references@.len() as int) =~= references@);
}

pub(crate) fn push_scope(bytes: &mut Vec<u8>, scope: &ExactPortfolioScope)
    ensures
        final(bytes)@ == old(bytes)@ + scope_bytes(*scope),
{
    reveal(scope_bytes);
    let (code, selected): (u8, &LineageRef) = match &scope.selected {
        ExactPortfolioScopeKind::Book(r) => (1u8, r),
        ExactPortfolioScopeKind::Group(r) => (2u8, r),
        ExactPortfolioScopeKind::Portfolio(r) => (3u8, r),
    };
    push_flag(bytes, code);
    push_lineage(bytes, selected);
    push_lineage_list(bytes, scope.member_portfolios.as_slice());
    assert(bytes@ =~= old(bytes)@ + scope_bytes(*scope));
}

pub(crate) fn push_snapshot_binding(bytes: &mut Vec<u8>, binding: &PositionSnapshotBinding)
    ensures
        final(bytes)@ == old(bytes)@ + snapshot_binding_bytes(*binding),
{
    reveal(snapshot_binding_bytes);
    append_token(bytes, binding.snapshot_id.as_str().as_bytes());
    append_token(bytes, binding.content_hash.as_slice());
    push_time(bytes, &binding.observed_at);
    push_time(bytes, &binding.visible_at);
    assert(bytes@ =~= old(bytes)@ + snapshot_binding_bytes(*binding));
}

fn role_number(role: PortfolioCatalogEvidenceRole) -> (code: u8)
    ensures
        code == role_code(role),
{
    match role {
        PortfolioCatalogEvidenceRole::SelectedBook => 0,
        PortfolioCatalogEvidenceRole::SelectedGroup => 1,
        PortfolioCatalogEvidenceRole::SelectedPortfolio => 2,
        PortfolioCatalogEvidenceRole::MemberPortfolio => 3,
        PortfolioCatalogEvidenceRole::Benchmark => 4,
        PortfolioCatalogEvidenceRole::MetricConvention => 5,
    }
}

fn push_catalog_binding(bytes: &mut Vec<u8>, binding: &PortfolioCatalogEvidenceBinding)
    ensures
        final(bytes)@ == old(bytes)@ + catalog_binding_bytes(*binding),
{
    reveal(catalog_binding_bytes);
    push_flag(bytes, role_number(binding.role));
    append_token(bytes, binding.reference.id.as_str().as_bytes());
    push_u64_field(bytes, binding.reference.version);
    append_token(bytes, binding.content_hash.as_slice());
    push_time(bytes, &binding.visible_at);
    push_time(bytes, &binding.effective_from);
    push_time(bytes, &binding.effective_to);
    assert(bytes@ =~= old(bytes)@ + catalog_binding_bytes(*binding));
}

fn push_risk_binding(bytes: &mut Vec<u8>, binding: &PortfolioRiskNamedEvidenceBinding)
    ensures
        final(bytes)@ == old(bytes)@ + risk_binding_bytes(*binding),
{
    reveal(risk_binding_bytes);
    push_flag(bytes, kind_number(binding.kind));
    append_token(bytes, binding.identity.as_str().as_bytes());
    append_token(bytes, binding.content_hash.as_slice());
    let ghost named = bytes@;
    push_optional_time(bytes, &binding.observed_at);
    push_optional_time(bytes, &binding.visible_at);
    push_optional_time(bytes, &binding.effective_from);
    push_optional_time(bytes, &binding.effective_to);
    assert(bytes@ =~= old(bytes)@ + risk_binding_bytes(*binding));
}

pub(crate) fn push_catalog_evidence(bytes: &mut Vec<u8>, evidence: &[PortfolioCatalogEvidenceBinding])
    ensures
        final(bytes)@ == old(bytes)@ + catalog_evidence_bytes(evidence@),
{
    let mut i: usize = 0;
    while i < evidence.len()
        invariant
            i <= evidence@.len(),
            bytes@ == old(bytes)@ + catalog_evidence_bytes(evidence@.subrange(0, i as int)),
        decreases evidence@.len() - i,
    {
        push_catalog_binding(bytes, &evidence[i]);
        assert(evidence@.subrange(0, i + 1).drop_last() =~= evidence@.subrange(0, i as int));
        i = i + 1;
    }
    assert(evidence@.subrange(0, evidence@.len() as int) =~= evidence@);
}

fn push_portfolio_list(bytes: &mut Vec<u8>, portfolios: &[ResolvedPortfolio])
    ensures
        final(bytes)@ == old(bytes)@ + portfolio_list_bytes(portfolios@),
{
    let mut i: usize = 0;
    while i < portfolios.len()
        invariant
            i <= portfolios@.len(),
            bytes@ == old(bytes)@ + portfolio_list_bytes(portfolios@.subrange(0, i as int)),
        decreases portfolios@.len() - i,
    {
        let ghost before = bytes@;
        append_token(bytes, portfolios[i].record.content_hash.as_slice());
        push_snapshot_binding(bytes, &portfolios[i].position_snapshot);
        assert(portfolios@.subrange(0, i + 1).drop_last() =~= portfolios@.subrange(0, i as int));
        assert(bytes@ =~= old(bytes)@ + portfolio_list_bytes(portfolios@.subrange(0, i + 1)));
        i = i + 1;
    }
    assert(portfolios@.subrange(0, portfolios@.len() as int) =~= portfolios@);
}

fn push_field_list(bytes: &mut Vec<u8>, fields: &[Vec<u8>])
    ensures
        final(bytes)@ == old(bytes)@ + field_list_bytes(fields@),
{
    let mut i: usize = 0;
    while i < fields.len()
        invariant
            i <= fields@.len(),
            bytes@ == old(bytes)@ + field_list_bytes(fields@.subrange(0, i as int)),
        decreases fields@.len() - i,
    {
        append_token(bytes, fields[i].as_slice());
        assert(fields@.subrange(0, i + 1).drop_last() =~= fields@.subrange(0, i as int));
        i = i + 1;
    }
    assert(fields@.subrange(0, fields@.len() as int) =~= fields@);
}

fn push_risk_evidence(bytes: &mut Vec<u8>, evidence: &[PortfolioRiskNamedEvidenceBinding])
    ensures
        final(bytes)@ == old(bytes)@ + risk_evidence_bytes(evidence@),
{
    let mut i: usize = 0;
    while i < evidence.len()
        invariant
            i <= evidence@.len(),
            bytes@ == old(bytes)@ + risk_evidence_bytes(evidence@.subrange(0, i as int)),
        decreases evidence@.len() - i,
    {
        push_risk_binding(bytes, &evidence[i]);
        assert(evidence@.subrange(0, i + 1).drop_last() =~= evidence@.subrange(0, i as int));
        i = i + 1;
    }
    assert(evidence@.subrange(0, evidence@.len() as int) =~= evidence@);
}

fn push_risk_sets(bytes: &mut Vec<u8>, sets: &[Vec<PortfolioRiskNamedEvidenceBinding>])
    ensures
        final(bytes)@ == old(bytes)@ + risk_sets_bytes(sets@),
{
    let mut i: usize = 0;
    while i < sets.len()
        invariant
            i <= sets@.len(),
            bytes@ == old(bytes)@ + risk_sets_bytes(sets@.subrange(0, i as int)),
        decreases sets@.len() - i,
    {
        push_risk_evidence(bytes, sets[i].as_slice());
        assert(sets@.subrange(0, i + 1).drop_last() =~= sets@.subrange(0, i as int));
        i = i + 1;
    }
    assert(sets@.subrange(0, sets@.len() as int) =~= sets@);
}

fn push_request_head(bytes: &mut Vec<u8>, context: &AggregationRequestContext)
    ensures
        final(bytes)@ == old(bytes)@ + request_head_bytes(*context),
{
    reveal(request_head_bytes);
    let times = &context.pins.times;
    let tag: Vec<u8> = vec![
        102u8, 105, 99, 97, 110, 116, 46, 112, 111, 114, 116, 102, 111, 108, 105, 111, 45, 111, 118,
        101, 114, 118, 105, 101, 119, 45, 114, 101, 113, 117, 101, 115, 116, 46, 118, 49,
    ];
    assert(tag@ =~= request_tag());
    append_token(bytes, tag.as_slice());
    append_token(bytes, times.owner.tenant_id.as_str().as_bytes());
    append_token(bytes, times.owner.owner_id.as_str().as_bytes());
    append_token(bytes, times.subject_ref.id.as_str().as_bytes());
    push_u64_field(bytes, times.subject_ref.version);
    let placeholder: Vec<u8> = vec![
        115u8, 117, 98, 106, 101, 99, 116, 45, 114, 101, 102, 45, 118, 101, 114, 115, 105, 111, 110,
        45, 111, 110, 108, 121,
    ];
    assert(placeholder@ =~= subject_placeholder());
    let placeholder_hash = content_digest(placeholder.as_slice());
    append_token(bytes, placeholder_hash.as_slice());
    assert(bytes@ =~= old(bytes)@ + request_head_bytes(*context));
}

fn push_request_frame(bytes: &mut Vec<u8>, context: &AggregationRequestContext)
    ensures
        final(bytes)@ == old(bytes)@ + request_frame_bytes(*context),
{
    reveal(request_frame_bytes);
    let pins = &context.pins;
    push_scope(bytes, &pins.scope);
    push_time(bytes, &pins.times.valuation_at);
    push_time(bytes, &pins.times.knowledge_at);
    push_flag(bytes, currency_code(context.currency));
    append_token(bytes, context.currency_unit.unit_id.as_str().as_bytes());
    push_u64_field(bytes, context.currency_unit.version);
    push_flag(bytes, look_through_code(context.look_through));
    push_flag(bytes, period_code(context.period));
    assert(bytes@ =~= old(bytes)@ + request_frame_bytes(*context));
}

fn push_request_context(bytes: &mut Vec<u8>, context: &AggregationRequestContext)
    ensures
        final(bytes)@ == old(bytes)@ + request_context_bytes(*context),
{
    push_request_head(bytes, context);
    push_request_frame(bytes, context);
    let ghost framed = bytes@;
    reveal(request_period_bytes);
    push_time(bytes, &context.period_from);
    push_time(bytes, &context.period_to);
    append_token(bytes, context.pins.benchmark.content_hash.as_slice());
    append_token(bytes, context.pins.metric_convention.content_hash.as_slice());
    assert(bytes@ =~= framed + request_period_bytes(*context));
    assert(bytes@ =~= old(bytes)@ + request_context_bytes(*context));
}

/// The fingerprint of an overview aggregation request: the SHA-256 digest of its canonical
/// encoding.
pub fn aggregation_request_fingerprint(
    context: &AggregationRequestContext,
    resolved: &ResolvedPortfolioAggregationInputs,
    analytics_fingerprints: &[Vec<u8>],
    risk_input_sets: &[Vec<PortfolioRiskNamedEvidenceBinding>],
) -> (fingerprint: Vec<u8>)
    ensures
        fingerprint@ == sha256(
            request_bytes(*context, *resolved, analytics_fingerprints@, risk_input_sets@),
        ),
{
    let mut bytes: Vec<u8> = Vec::new();
    push_request_context(&mut bytes, context);
    let ghost head = bytes@;
    push_portfolio_list(&mut bytes, resolved.portfolios.as_slice());
    append_token(&mut bytes, resolved.benchmark.record.content_hash.as_slice());
    push_snapshot_binding(&mut bytes, &resolved.benchmark_snapshot);
    append_token(&mut bytes, resolved.convention.record.content_hash.as_slice());
    push_catalog_evidence(&mut bytes, resolved.catalog_evidence.as_slice());
    assert(bytes@ =~= head + request_resolution_bytes(*resolved));
    push_field_list(&mut bytes, analytics_fingerprints);
    push_risk_sets(&mut bytes, risk_input_sets);
    assert(bytes@ =~= request_bytes(*context, *resolved, analytics_fingerprints@, risk_input_sets@));
    content_digest(bytes.as_slice())
}

/// The domain tag of the aggregation implementation identity.
pub open spec fn aggregation_implementation_tag() -> Seq<u8> {
    seq![
        102u8, 105, 99, 97, 110, 116, 46, 112, 111, 114, 116, 102, 111, 108, 105, 111, 46, 97, 103,
        103, 114, 101, 103, 97, 116, 105, 111, 110, 46, 118, 49,
    ]
}

/// The domain tag of a factor topology identity.
pub open spec fn factor_topology_tag() -> Seq<u8> {
    seq![
        102u8, 105, 99, 97, 110, 116, 46, 112, 111, 114, 116, 102, 111, 108, 105, 111, 46, 102, 97,
        99, 116, 111, 114, 45, 116, 111, 112, 111, 108, 111, 103, 121, 46, 118, 49,
    ]
}

/// The encoding of the aggregation implementation identity: the tag, then the metric
/// convention's identifier, version and content hash.
pub open spec fn aggregation_implementation_bytes(convention: CatalogObjectRef) -> Seq<u8> {
    token(aggregation_implementation_tag()) + token(text_bytes(convention.reference.id@)) + token(
        be_u64(convention.reference.version),
    ) + token(convention.content_hash@)
}

/// The identity of the aggregation implementation an overview was computed with: the digest of
/// its encoding.
pub fn portfolio_aggregation_implementation_digest(convention: &CatalogObjectRef) -> (digest: Vec<u8>)
    ensures
        digest@ == sha256(aggregation_implementation_bytes(*convention)),
{
    let mut bytes: Vec<u8> = Vec::new();
    let tag: Vec<u8> = vec![
        102u8, 105, 99, 97, 110, 116, 46, 112, 111, 114, 116, 102, 111, 108, 105, 111, 46, 97, 103,
        103, 114, 101, 103, 97, 116, 105, 111, 110, 46, 118, 49,
    ];
    assert(tag@ =~= aggregation_implementation_tag());
    append_token(&mut bytes, tag.as_slice());
    append_token(&mut bytes, convention.reference.id.as_str().as_bytes());
    push_u64_field(&mut bytes, convention.reference.version);
    append_token(&mut bytes, convention.content_hash.as_slice());
    assert(bytes@ =~= aggregation_implementation_bytes(*convention));
    content_digest(bytes.as_slice())
}

/// One factor of a topology: its identifier, definition hash, Unit identifier and version.
pub open spec fn factor_bytes(factor: FactorDv01) -> Seq<u8> {
    token(text_bytes(factor.factor_id@)) + token(factor.factor_definition_hash@) + token(
        text_bytes(factor.unit.unit_id@),
    ) + token(be_u64(factor.unit.version))
}

pub open spec fn factor_list_bytes(factors: Seq<FactorDv01>) -> Seq<u8>
    decreases factors.len(),
{
    if factors.len() == 0 {
        Seq::empty()
    } else {
        factor_list_bytes(factors.drop_last()) + factor_bytes(factors.last())
    }
}

/// The encoding of a factor topology: the tag, then each factor in order.
pub open spec fn factor_topology_bytes(factors: Seq<FactorDv01>) -> Seq<u8> {
    token(factor_topology_tag()) + factor_list_bytes(factors)
}

/// No factor identifier repeats.
pub open spec fn factor_ids_distinct(factors: Seq<FactorDv01>) -> bool {
    forall|i: int, j: int|
        0 <= i < factors.len() && 0 <= j < factors.len() && i != j ==> (#[trigger] factors[i]).factor_id@
            != (#[trigger] factors[j]).factor_id@
}

fn push_factor(bytes: &mut Vec<u8>, factor: &FactorDv01)
    ensures
        final(bytes)@ == old(bytes)@ + factor_bytes(*factor),
{
    append_token(bytes, factor.factor_id.as_str().as_bytes());
    append_token(bytes, factor.factor_definition_hash.as_slice());
    append_token(bytes, factor.unit.unit_id.as_str().as_bytes());
    push_u64_field(bytes, factor.unit.version);
    assert(bytes@ =~= old(bytes)@ + factor_bytes(*factor));
}

/// The identity of the factor topology a key-rate result was computed on: the digest of its
/// encoding; an integrity error when a factor identifier repeats.
pub fn factor_topology_digest(factors: &[FactorDv01]) -> (result: ApplicationResult<Vec<u8>>)
    ensures
        result is Ok <==> factor_ids_distinct(factors@),
        result matches Ok(digest) ==> digest@ == sha256(factor_topology_bytes(factors@)),
        result matches Err(e) ==> e == failure(ApplicationErrorCategory::HashMismatch),
{
    let mut bytes: Vec<u8> = Vec::new();
    let tag: Vec<u8> = vec![
        102u8, 105, 99, 97, 110, 116, 46, 112, 111, 114, 116, 102, 111, 108, 105, 111, 46, 102, 97,
        99, 116, 111, 114, 45, 116, 111, 112, 111, 108, 111, 103, 121, 46, 118, 49,
    ];
    assert(tag@ =~= factor_topology_tag());
    append_token(&mut bytes, tag.as_slice());
    let ghost head = bytes@;
    let mut i: usize = 0;
    while i < factors.len()
        invariant
            i <= factors@.len(),
            bytes@ == head + factor_list_bytes(factors@.subrange(0, i as int)),
            forall|a: int, b: int|
                0 <= a < i && 0 <= b < i && a != b ==> (#[trigger] factors@[a]).factor_id@
                    != (#[trigger] factors@[b]).factor_id@,
        decreases factors@.len() - i,
    {
        let mut k: usize = 0;
        while k < i
            invariant
                i < factors@.len(),
                k <= i,
                forall|b: int| 0 <= b < k ==> (#[trigger] factors@[b]).factor_id@ != factors@[i as int].factor_id@,
            decreases i - k,
        {
            if same_text(&factors[k].factor_id, &factors[i].factor_id) {
                return Err(integrity());
            }
            k = k + 1;
        }
        push_factor(&mut bytes, &factors[i]);
        assert(factors@.subrange(0, i + 1).drop_last() =~= factors@.subrange(0, i as int));
        i = i + 1;
    }
    assert(factors@.subrange(0, factors@.len() as int) =~= factors@);
    assert(bytes@ =~= factor_topology_bytes(factors@));
    Ok(content_digest(bytes.as_slice()))
}

/// The safe trace token of an operation: its fingerprint's first sixteen bytes in lowercase
/// hexadecimal.
pub fn trace_from_fingerprint(fingerprint: &[u8]) -> (trace: String)
    requires
        fingerprint@.len() >= 16,
    ensures
        trace@ == hex_text(fingerprint@.subrange(0, 16)),
{
    let head = vstd::slice::slice_subrange(fingerprint, 0, 16);
    encode_hex(head)
}

} // verus!
