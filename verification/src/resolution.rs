use vstd::prelude::*;

use crate::bytes::bytes_equal;
use crate::error::{ApplicationErrorCategory, ApplicationResult, failure, integrity};
use crate::evidence::{
    CatalogDefinitionRecord, CatalogObjectRef, ExactPortfolioScopeKind,
    PortfolioCatalogEvidenceBinding, PortfolioContextTimes, binding_matches_definition,
    catalog_evidence_valid, market_times_equal, same_time, snapshot_binding_valid,
    validate_catalog_evidence, validate_snapshot_binding, validate_visible_record,
    visible_record_valid,
};
use crate::overview::PositionSnapshotBinding;
use crate::primitives::{LineageRef, OwnerRef, VersionRef, instant_less};
use crate::text::same_text;

verus! {

/// The scope a portfolio context selects, with the exact member portfolios it expands to.
#[derive(Clone, Debug)]
pub struct ExactPortfolioScope {
    pub selected: ExactPortfolioScopeKind,
    pub member_portfolios: Vec<LineageRef>,
}

/// What a normalized aggregation context pins: its owner, subject and instants, its scope,
/// and the exact benchmark and metric convention it was requested with.
#[derive(Clone, Debug)]
pub struct AggregationContextPins {
    pub times: PortfolioContextTimes,
    pub scope: ExactPortfolioScope,
    pub benchmark: CatalogObjectRef,
    pub metric_convention: CatalogObjectRef,
}

/// A member portfolio as the catalog resolved it: its record, owner and subject, the benchmark
/// and convention it is defined against, and the position snapshot it binds.
#[derive(Clone, Debug)]
pub struct ResolvedPortfolio {
    pub record: CatalogDefinitionRecord,
    pub owner: OwnerRef,
    pub subject_ref: VersionRef,
    pub benchmark: CatalogObjectRef,
    pub metric_convention: CatalogObjectRef,
    pub position_snapshot: PositionSnapshotBinding,
}

/// The benchmark as the catalog resolved it.
#[derive(Clone, Debug)]
pub struct ResolvedBenchmark {
    pub record: CatalogDefinitionRecord,
    pub owner: OwnerRef,
    pub subject_ref: VersionRef,
    pub position_snapshot: PositionSnapshotBinding,
}

/// The metric convention as the catalog resolved it.
#[derive(Clone, Debug)]
pub struct ResolvedConvention {
    pub record: CatalogDefinitionRecord,
    pub owner: OwnerRef,
}

/// Everything the catalog resolved for one aggregation request.
#[derive(Clone, Debug)]
pub struct ResolvedPortfolioAggregationInputs {
    pub exact_scope: ExactPortfolioScope,
    pub portfolios: Vec<ResolvedPortfolio>,
    pub benchmark: ResolvedBenchmark,
    pub benchmark_snapshot: PositionSnapshotBinding,
    pub convention: ResolvedConvention,
    pub catalog_evidence: Vec<PortfolioCatalogEvidenceBinding>,
}

/// Two lineage references are the same: object, version and content hash.
pub open spec fn same_lineage_ref(a: LineageRef, b: LineageRef) -> bool {
    &&& a.object_id@ == b.object_id@
    &&& a.version == b.version
    &&& match (a.content_hash, b.content_hash) {
        (Some(x), Some(y)) => x@ == y@,
        (None, None) => true,
        _ => false,
    }
}

/// Two lineage lists are the same, element by element.
pub open spec fn same_lineage_list(a: Seq<LineageRef>, b: Seq<LineageRef>) -> bool {
    &&& a.len() == b.len()
    &&& forall|i: int| 0 <= i < a.len() ==> same_lineage_ref(#[trigger] a[i], b[i])
}

/// Two scopes select the same kind of scope on the same lineage, with the same members.
pub open spec fn same_scope(a: ExactPortfolioScope, b: ExactPortfolioScope) -> bool {
    &&& match (a.selected, b.selected) {
        (ExactPortfolioScopeKind::Book(x), ExactPortfolioScopeKind::Book(y)) => same_lineage_ref(x, y),
        (ExactPortfolioScopeKind::Group(x), ExactPortfolioScopeKind::Group(y)) => same_lineage_ref(x, y),
        (ExactPortfolioScopeKind::Portfolio(x), ExactPortfolioScopeKind::Portfolio(y)) => same_lineage_ref(x, y),
        _ => false,
    }
    &&& same_lineage_list(a.member_portfolios@, b.member_portfolios@)
}

/// A record is exactly the pinned catalog object: same version and content hash.
pub open spec fn record_is_pinned(record: CatalogDefinitionRecord, pinned: CatalogObjectRef) -> bool {
    record.reference@ == pinned.reference@ && record.content_hash@ == pinned.content_hash@
}

/// Two pins name the same object version and content.
pub open spec fn same_object_ref(a: CatalogObjectRef, b: CatalogObjectRef) -> bool {
    a.reference@ == b.reference@ && a.content_hash@ == b.content_hash@
}

/// Two snapshot bindings name the same snapshot, content and times.
pub open spec fn same_snapshot_binding(a: PositionSnapshotBinding, b: PositionSnapshotBinding) -> bool {
    &&& a.snapshot_id@ == b.snapshot_id@
    &&& a.content_hash@ == b.content_hash@
    &&& same_time(a.observed_at, b.observed_at)
    &&& same_time(a.visible_at, b.visible_at)
}

/// The exact lineage of a resolved portfolio (its version and content hash, both pinned) is
/// the expected member.
pub open spec fn exact_ref_is(portfolio: ResolvedPortfolio, expected: LineageRef) -> bool {
    &&& expected.object_id@ == portfolio.record.reference.id@
    &&& expected.version == Some(portfolio.record.reference.version)
    &&& expected.content_hash matches Some(h) && h@ == portfolio.record.content_hash@
}

/// What is checked of the resolution before the owner is authorized: the scope is the
/// context's, some portfolio was resolved, the convention and benchmark are the pinned ones,
/// and the benchmark snapshot is the one the benchmark binds.
pub open spec fn resolution_head_valid(
    pins: AggregationContextPins,
    resolved: ResolvedPortfolioAggregationInputs,
) -> bool {
    &&& same_scope(resolved.exact_scope, pins.scope)
    &&& resolved.portfolios@.len() > 0
    &&& record_is_pinned(resolved.convention.record, pins.metric_convention)
    &&& record_is_pinned(resolved.benchmark.record, pins.benchmark)
    &&& same_snapshot_binding(resolved.benchmark_snapshot, resolved.benchmark.position_snapshot)
}

/// A resolved member is the expected member, defined against the pinned benchmark and
/// convention, usable in the context, and binds a snapshot taken at the valuation time.
pub open spec fn member_resolution_valid(
    pins: AggregationContextPins,
    portfolio: ResolvedPortfolio,
    expected: LineageRef,
) -> bool {
    &&& exact_ref_is(portfolio, expected)
    &&& same_object_ref(portfolio.benchmark, pins.benchmark)
    &&& same_object_ref(portfolio.metric_convention, pins.metric_convention)
    &&& visible_record_valid(
        pins.times,
        portfolio.owner,
        Some(portfolio.subject_ref),
        portfolio.record.effective_from,
        portfolio.record.effective_to,
        portfolio.record.visible_at,
    )
    &&& snapshot_binding_valid(
        pins.times,
        portfolio.position_snapshot.observed_at,
        portfolio.position_snapshot.visible_at,
    )
}

/// The records of the resolved members, in order.
pub open spec fn member_records(portfolios: Seq<ResolvedPortfolio>) -> Seq<CatalogDefinitionRecord> {
    portfolios.map_values(|p: ResolvedPortfolio| p.record)
}

/// What is checked after the owner is authorized: the convention and benchmark are usable in
/// the context, there is one resolved member per expected member and each is valid, the
/// catalog evidence is complete and exact, and the benchmark snapshot was taken at the
/// valuation time.
pub open spec fn resolution_tail_valid(
    pins: AggregationContextPins,
    resolved: ResolvedPortfolioAggregationInputs,
) -> bool {
    let expected = pins.scope.member_portfolios@;
    let portfolios = resolved.portfolios@;
    &&& visible_record_valid(
        pins.times,
        resolved.convention.owner,
        None,
        resolved.convention.record.effective_from,
        resolved.convention.record.effective_to,
        resolved.convention.record.visible_at,
    )
    &&& visible_record_valid(
        pins.times,
        resolved.benchmark.owner,
        Some(resolved.benchmark.subject_ref),
        resolved.benchmark.record.effective_from,
        resolved.benchmark.record.effective_to,
        resolved.benchmark.record.visible_at,
    )
    &&& portfolios.len() == expected.len()
    &&& forall|i: int|
        0 <= i < portfolios.len() ==> member_resolution_valid(pins, #[trigger] portfolios[i], expected[i])
    &&& catalog_evidence_valid(
        pins.times,
        pins.scope.selected,
        resolved.catalog_evidence@,
        member_records(portfolios),
        resolved.benchmark.record,
        resolved.convention.record,
    )
    &&& snapshot_binding_valid(
        pins.times,
        resolved.benchmark_snapshot.observed_at,
        resolved.benchmark_snapshot.visible_at,
    )
}

pub(crate) fn lineage_refs_same(a: &LineageRef, b: &LineageRef) -> (same: bool)
    ensures
        same == same_lineage_ref(*a, *b),
{
    let hashes_same = match (&a.content_hash, &b.content_hash) {
        (Some(x), Some(y)) => bytes_equal(x.as_slice(), y.as_slice()),
        (None, None) => true,
        _ => false,
    };
    same_text(&a.object_id, &b.object_id) && a.version == b.version && hashes_same
}

fn lineage_lists_same(a: &[LineageRef], b: &[LineageRef]) -> (same: bool)
    ensures
        same == same_lineage_list(a@, b@),
{
    if a.len() != b.len() {
        return false;
    }
    let mut i: usize = 0;
    while i < a.len()
        invariant
            i <= a@.len(),
            a@.len() == b@.len(),
            forall|k: int| 0 <= k < i ==> same_lineage_ref(#[trigger] a@[k], b@[k]),
        decreases a@.len() - i,
    {
        if !lineage_refs_same(&a[i], &b[i]) {
            return false;
        }
        i = i + 1;
    }
    true
}

fn scopes_same(a: &ExactPortfolioScope, b: &ExactPortfolioScope) -> (same: bool)
    ensures
        same == same_scope(*a, *b),
{
    let selected_same = match (&a.selected, &b.selected) {
        (ExactPortfolioScopeKind::Book(x), ExactPortfolioScopeKind::Book(y)) => lineage_refs_same(x, y),
        (ExactPortfolioScopeKind::Group(x), ExactPortfolioScopeKind::Group(y)) => lineage_refs_same(x, y),
        (ExactPortfolioScopeKind::Portfolio(x), ExactPortfolioScopeKind::Portfolio(y)) => lineage_refs_same(x, y),
        _ => false,
    };
    selected_same && lineage_lists_same(a.member_portfolios.as_slice(), b.member_portfolios.as_slice())
}

fn record_pinned(record: &CatalogDefinitionRecord, pinned: &CatalogObjectRef) -> (same: bool)
    ensures
        same == record_is_pinned(*record, *pinned),
{
    record.reference.same_as(&pinned.reference) && bytes_equal(
        record.content_hash.as_slice(),
        pinned.content_hash.as_slice(),
    )
}

fn object_refs_same(a: &CatalogObjectRef, b: &CatalogObjectRef) -> (same: bool)
    ensures
        same == same_object_ref(*a, *b),
{
    a.reference.same_as(&b.reference) && bytes_equal(a.content_hash.as_slice(), b.content_hash.as_slice())
}

fn snapshot_bindings_same(a: &PositionSnapshotBinding, b: &PositionSnapshotBinding) -> (same: bool)
    ensures
        same == same_snapshot_binding(*a, *b),
{
    same_text(&a.snapshot_id, &b.snapshot_id) && bytes_equal(
        a.content_hash.as_slice(),
        b.content_hash.as_slice(),
    ) && market_times_equal(&a.observed_at, &b.observed_at) && market_times_equal(
        &a.visible_at,
        &b.visible_at,
    )
}

fn exact_ref_matches(portfolio: &ResolvedPortfolio, expected: &LineageRef) -> (matches: bool)
    ensures
        matches == exact_ref_is(*portfolio, *expected),
{
    let version_matches = match expected.version {
        Some(v) => v == portfolio.record.reference.version,
        None => false,
    };
    let hash_matches = match &expected.content_hash {
        Some(h) => bytes_equal(h.as_slice(), portfolio.record.content_hash.as_slice()),
        None => false,
    };
    same_text(&expected.object_id, &portfolio.record.reference.id) && version_matches && hash_matches
}

/// Two definition records agree on everything a binding is matched against.
pub open spec fn same_record(a: CatalogDefinitionRecord, b: CatalogDefinitionRecord) -> bool {
    &&& a.reference@ == b.reference@
    &&& a.content_hash@ == b.content_hash@
    &&& same_time(a.visible_at, b.visible_at)
    &&& same_time(a.effective_from, b.effective_from)
    &&& same_time(a.effective_to, b.effective_to)
}

fn copy_record(record: &CatalogDefinitionRecord) -> (copy: CatalogDefinitionRecord)
    ensures
        same_record(copy, *record),
{
    CatalogDefinitionRecord {
        reference: record.reference.duplicate(),
        content_hash: record.content_hash.clone(),
        visible_at: record.visible_at.duplicate(),
        effective_from: record.effective_from.duplicate(),
        effective_to: record.effective_to.duplicate(),
    }
}

fn copy_member_records(portfolios: &[ResolvedPortfolio]) -> (records: Vec<CatalogDefinitionRecord>)
    ensures
        records@.len() == portfolios@.len(),
        forall|i: int| 0 <= i < records@.len() ==> same_record(#[trigger] records@[i], portfolios@[i].record),
{
    let mut records: Vec<CatalogDefinitionRecord> = Vec::new();
    let mut i: usize = 0;
    while i < portfolios.len()
        invariant
            i <= portfolios@.len(),
            records@.len() == i,
            forall|k: int| 0 <= k < i ==> same_record(#[trigger] records@[k], portfolios@[k].record),
        decreases portfolios@.len() - i,
    {
        records.push(copy_record(&portfolios[i].record));
        i = i + 1;
    }
    records
}

proof fn lemma_evidence_respects_records(
    times: PortfolioContextTimes,
    scope: ExactPortfolioScopeKind,
    evidence: Seq<PortfolioCatalogEvidenceBinding>,
    left: Seq<CatalogDefinitionRecord>,
    right: Seq<CatalogDefinitionRecord>,
    benchmark: CatalogDefinitionRecord,
    convention: CatalogDefinitionRecord,
)
    requires
        left.len() == right.len(),
        forall|i: int| 0 <= i < left.len() ==> same_record(#[trigger] left[i], right[i]),
    ensures
        catalog_evidence_valid(times, scope, evidence, left, benchmark, convention)
            == catalog_evidence_valid(times, scope, evidence, right, benchmark, convention),
{
    let members = crate::evidence::bindings_where(evidence, crate::evidence::member_roles());
    assert forall|i: int| 0 <= i < members.len() && i < left.len() implies binding_matches_definition(
        #[trigger] members[i],
        left[i],
    ) == binding_matches_definition(members[i], right[i]) by {
        assert(same_record(left[i], right[i]));
    }
}

/// Checks what the catalog resolved for an aggregation request against the context that
/// requested it. `owner_authorized` is the access scope's verdict on the context's owner. An
/// integrity error when the scope, the pinned benchmark or convention, or the benchmark
/// snapshot drifted or nothing was resolved; then the authorization's own error; then an
/// integrity error when a record is not usable in the context, a member is not the expected
/// one or drifted from the pins, the catalog evidence is not complete and exact, or a snapshot
/// was not taken at the valuation time.
pub fn validate_resolved_inputs(
    owner_authorized: ApplicationResult<()>,
    pins: &AggregationContextPins,
    resolved: &ResolvedPortfolioAggregationInputs,
) -> (result: ApplicationResult<()>)
    ensures
        !resolution_head_valid(*pins, *resolved) ==> result == Err::<(), _>(
            failure(ApplicationErrorCategory::HashMismatch),
        ),
        resolution_head_valid(*pins, *resolved) && owner_authorized is Err ==> result
            == owner_authorized,
        resolution_head_valid(*pins, *resolved) && owner_authorized is Ok ==> (result is Ok
            <==> resolution_tail_valid(*pins, *resolved)),
        owner_authorized is Ok ==> (result matches Err(e) ==> e == failure(
            ApplicationErrorCategory::HashMismatch,
        )),
{
    if !scopes_same(&resolved.exact_scope, &pins.scope) || resolved.portfolios.len() == 0
        || !record_pinned(&resolved.convention.record, &pins.metric_convention) || !record_pinned(
        &resolved.benchmark.record,
        &pins.benchmark,
    ) || !snapshot_bindings_same(&resolved.benchmark_snapshot, &resolved.benchmark.position_snapshot) {
        return Err(integrity());
    }
    owner_authorized?;
    let times = &pins.times;
    let convention = &resolved.convention;
    validate_visible_record(
        times,
        &convention.owner,
        None,
        &convention.record.effective_from,
        &convention.record.effective_to,
        &convention.record.visible_at,
    )?;
    let benchmark = &resolved.benchmark;
    validate_visible_record(
        times,
        &benchmark.owner,
        Some(&benchmark.subject_ref),
        &benchmark.record.effective_from,
        &benchmark.record.effective_to,
        &benchmark.record.visible_at,
    )?;
    let expected = &pins.scope.member_portfolios;
    if resolved.portfolios.len() != expected.len() {
        return Err(integrity());
    }
    let mut i: usize = 0;
    while i < resolved.portfolios.len()
        invariant
            i <= resolved.portfolios@.len(),
            resolved.portfolios@.len() == expected@.len(),
            expected == pins.scope.member_portfolios,
            times == pins.times,
            owner_authorized is Ok,
            resolution_head_valid(*pins, *resolved),
            forall|k: int| 0 <= k < i ==> member_resolution_valid(
                *pins,
                #[trigger] resolved.portfolios@[k],
                expected@[k],
            ),
        decreases resolved.portfolios@.len() - i,
    {
        let portfolio = &resolved.portfolios[i];
        if !exact_ref_matches(portfolio, &expected[i]) || !object_refs_same(
            &portfolio.benchmark,
            &pins.benchmark,
        ) || !object_refs_same(&portfolio.metric_convention, &pins.metric_convention) {
            return Err(integrity());
        }
        validate_visible_record(
            times,
            &portfolio.owner,
            Some(&portfolio.subject_ref),
            &portfolio.record.effective_from,
            &portfolio.record.effective_to,
            &portfolio.record.visible_at,
        )?;
        validate_snapshot_binding(
            times,
            &portfolio.position_snapshot.observed_at,
            &portfolio.position_snapshot.visible_at,
        )?;
        i = i + 1;
    }
    let records = copy_member_records(resolved.portfolios.as_slice());
    proof {
        assert forall|k: int| 0 <= k < records@.len() implies same_record(
            #[trigger] records@[k],
            member_records(resolved.portfolios@)[k],
        ) by {
            assert(member_records(resolved.portfolios@)[k] == resolved.portfolios@[k].record);
        }
        lemma_evidence_respects_records(
            pins.times,
            pins.scope.selected,
            resolved.catalog_evidence@,
            records@,
            member_records(resolved.portfolios@),
            resolved.benchmark.record,
            resolved.convention.record,
        );
    }
    validate_catalog_evidence(
        times,
        &pins.scope.selected,
        resolved.catalog_evidence.as_slice(),
        records.as_slice(),
        &benchmark.record,
        &convention.record,
    )?;
    validate_snapshot_binding(
        times,
        &resolved.benchmark_snapshot.observed_at,
        &resolved.benchmark_snapshot.visible_at,
    )
}

/// A resolution that passes is pinned and in frame: the convention and benchmark records are
/// exactly the pinned versions and contents; every member is the expected member (identifier,
/// version and content hash), defined against the pinned benchmark and convention, the context
/// owner's and subject's, in effect at the valuation and visible by the knowledge instant, with
/// a snapshot taken exactly at the valuation time; and the benchmark snapshot likewise.
pub proof fn law_resolution_fields(pins: AggregationContextPins, resolved: ResolvedPortfolioAggregationInputs)
    ensures
        resolution_head_valid(pins, resolved) && resolution_tail_valid(pins, resolved) ==> {
            &&& resolved.portfolios@.len() > 0
            &&& resolved.portfolios@.len() == pins.scope.member_portfolios@.len()
            &&& resolved.convention.record.reference.id@ == pins.metric_convention.reference.id@
            &&& resolved.convention.record.reference.version == pins.metric_convention.reference.version
            &&& resolved.convention.record.content_hash@ == pins.metric_convention.content_hash@
            &&& resolved.benchmark.record.reference.id@ == pins.benchmark.reference.id@
            &&& resolved.benchmark.record.reference.version == pins.benchmark.reference.version
            &&& resolved.benchmark.record.content_hash@ == pins.benchmark.content_hash@
            &&& resolved.benchmark_snapshot.observed_at.instant == pins.times.valuation_at.instant
            &&& !instant_less(pins.times.knowledge_at.instant, resolved.benchmark_snapshot.visible_at.instant)
            &&& forall|i: int| 0 <= i < resolved.portfolios@.len() ==> {
                let p = #[trigger] resolved.portfolios@[i];
                let expected = pins.scope.member_portfolios@[i];
                &&& expected.object_id@ == p.record.reference.id@
                &&& expected.version == Some(p.record.reference.version)
                &&& expected.content_hash is Some
                &&& expected.content_hash->0@ == p.record.content_hash@
                &&& p.benchmark.reference.id@ == pins.benchmark.reference.id@
                &&& p.benchmark.content_hash@ == pins.benchmark.content_hash@
                &&& p.metric_convention.reference.id@ == pins.metric_convention.reference.id@
                &&& p.metric_convention.content_hash@ == pins.metric_convention.content_hash@
                &&& p.owner.tenant_id@ == pins.times.owner.tenant_id@
                &&& p.owner.owner_id@ == pins.times.owner.owner_id@
                &&& p.subject_ref.id@ == pins.times.subject_ref.id@
                &&& p.subject_ref.version == pins.times.subject_ref.version
                &&& !instant_less(pins.times.valuation_at.instant, p.record.effective_from.instant)
                &&& instant_less(pins.times.valuation_at.instant, p.record.effective_to.instant)
                &&& !instant_less(pins.times.knowledge_at.instant, p.record.visible_at.instant)
                &&& p.position_snapshot.observed_at.instant == pins.times.valuation_at.instant
                &&& !instant_less(pins.times.knowledge_at.instant, p.position_snapshot.visible_at.instant)
            }
        },
{
    if resolution_head_valid(pins, resolved) && resolution_tail_valid(pins, resolved) {
        assert forall|i: int| 0 <= i < resolved.portfolios@.len() implies {
            let p = #[trigger] resolved.portfolios@[i];
            let expected = pins.scope.member_portfolios@[i];
            &&& expected.object_id@ == p.record.reference.id@
            &&& expected.version == Some(p.record.reference.version)
            &&& expected.content_hash is Some
            &&& expected.content_hash->0@ == p.record.content_hash@
            &&& p.benchmark.reference.id@ == pins.benchmark.reference.id@
            &&& p.benchmark.content_hash@ == pins.benchmark.content_hash@
            &&& p.metric_convention.reference.id@ == pins.metric_convention.reference.id@
            &&& p.metric_convention.content_hash@ == pins.metric_convention.content_hash@
            &&& p.owner.tenant_id@ == pins.times.owner.tenant_id@
            &&& p.owner.owner_id@ == pins.times.owner.owner_id@
            &&& p.subject_ref.id@ == pins.times.subject_ref.id@
            &&& p.subject_ref.version == pins.times.subject_ref.version
            &&& !instant_less(pins.times.valuation_at.instant, p.record.effective_from.instant)
            &&& instant_less(pins.times.valuation_at.instant, p.record.effective_to.instant)
            &&& !instant_less(pins.times.knowledge_at.instant, p.record.visible_at.instant)
            &&& p.position_snapshot.observed_at.instant == pins.times.valuation_at.instant
            &&& !instant_less(pins.times.knowledge_at.instant, p.position_snapshot.visible_at.instant)
        } by {
            assert(member_resolution_valid(pins, resolved.portfolios@[i], pins.scope.member_portfolios@[i]));
        }
    }
}

} // verus!
