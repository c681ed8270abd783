use vstd::prelude::*;

use crate::bytes::{bytes_equal, bytes_less, lex_less, text_bytes};
use crate::error::{ApplicationErrorCategory, ApplicationResult, failure, integrity, lineage};
use crate::primitives::{
    Instant, LineageRef, MarketTime, OwnerRef, VersionRef, instant_before, instant_less,
};
use crate::text::same_text;

verus! {

/// What a catalog evidence binding stands for in an aggregation request.
#[derive(Clone, Copy, Debug, PartialEq, Eq, Structural)]
pub enum PortfolioCatalogEvidenceRole {
    SelectedBook,
    SelectedGroup,
    SelectedPortfolio,
    MemberPortfolio,
    Benchmark,
    MetricConvention,
}

/// The book, group or portfolio a portfolio context selects.
#[derive(Clone, Debug, PartialEq, Eq)]
pub enum ExactPortfolioScopeKind {
    Book(LineageRef),
    Group(LineageRef),
    Portfolio(LineageRef),
}

/// One catalog record consumed by an aggregation, as its evidence binds it.
#[derive(Clone, Debug, PartialEq, Eq)]
pub struct PortfolioCatalogEvidenceBinding {
    pub role: PortfolioCatalogEvidenceRole,
    pub reference: VersionRef,
    pub content_hash: Vec<u8>,
    pub visible_at: MarketTime,
    pub effective_from: MarketTime,
    pub effective_to: MarketTime,
}

/// The identity and validity window of one resolved catalog definition.
#[derive(Clone, Debug, PartialEq, Eq)]
pub struct CatalogDefinitionRecord {
    pub reference: VersionRef,
    pub content_hash: Vec<u8>,
    pub visible_at: MarketTime,
    pub effective_from: MarketTime,
    pub effective_to: MarketTime,
}

/// The owner, subject and instants a portfolio context fixes.
#[derive(Clone, Debug, PartialEq, Eq)]
pub struct PortfolioContextTimes {
    pub owner: OwnerRef,
    pub subject_ref: VersionRef,
    pub valuation_at: MarketTime,
    pub knowledge_at: MarketTime,
}

/// Two market times are the same instant, zone and trading date.
pub open spec fn same_time(a: MarketTime, b: MarketTime) -> bool {
    a.instant == b.instant && a.market_timezone@ == b.market_timezone@ && a.local_trading_date
        == b.local_trading_date
}

pub(crate) fn market_times_equal(a: &MarketTime, b: &MarketTime) -> (equal: bool)
    ensures
        equal == same_time(*a, *b),
{
    a.instant == b.instant && same_text(&a.market_timezone, &b.market_timezone)
        && a.local_trading_date == b.local_trading_date
}

/// A record may be used in a context: it belongs to the context's owner (and subject, when it
/// names one), is in effect at the valuation instant, and was visible by the knowledge instant.
pub open spec fn visible_record_valid(
    context: PortfolioContextTimes,
    owner: OwnerRef,
    subject: Option<VersionRef>,
    effective_from: MarketTime,
    effective_to: MarketTime,
    visible_at: MarketTime,
) -> bool {
    &&& owner.tenant_id@ == context.owner.tenant_id@
    &&& owner.owner_id@ == context.owner.owner_id@
    &&& (subject matches Some(s) ==> s@ == context.subject_ref@)
    &&& !instant_less(context.valuation_at.instant, effective_from.instant)
    &&& instant_less(context.valuation_at.instant, effective_to.instant)
    &&& !instant_less(context.knowledge_at.instant, visible_at.instant)
}

/// Checks that a record may be used in a context.
pub fn validate_visible_record(
    context: &PortfolioContextTimes,
    owner: &OwnerRef,
    subject: Option<&VersionRef>,
    effective_from: &MarketTime,
    effective_to: &MarketTime,
    visible_at: &MarketTime,
) -> (result: ApplicationResult<()>)
    ensures
        result is Ok <==> visible_record_valid(
            *context,
            *owner,
            match subject {
                Some(s) => Some(*s),
                None => None,
            },
            *effective_from,
            *effective_to,
            *visible_at,
        ),
        result matches Err(e) ==> e == failure(ApplicationErrorCategory::HashMismatch),
{
    let subject_drift = match subject {
        Some(s) => !s.same_as(&context.subject_ref),
        None => false,
    };
    if !owner.same_as(&context.owner) || subject_drift || instant_before(
        context.valuation_at.instant,
        effective_from.instant,
    ) || !instant_before(context.valuation_at.instant, effective_to.instant) || instant_before(
        context.knowledge_at.instant,
        visible_at.instant,
    ) {
        return Err(integrity());
    }
    Ok(())
}

/// A position snapshot binding was observed exactly at the valuation time and became visible
/// after it was observed and by the knowledge instant.
pub open spec fn snapshot_binding_valid(
    context: PortfolioContextTimes,
    observed_at: MarketTime,
    visible_at: MarketTime,
) -> bool {
    &&& same_time(observed_at, context.valuation_at)
    &&& !instant_less(context.knowledge_at.instant, visible_at.instant)
    &&& !instant_less(visible_at.instant, observed_at.instant)
}

/// Checks a position snapshot binding against its context.
pub fn validate_snapshot_binding(
    context: &PortfolioContextTimes,
    observed_at: &MarketTime,
    visible_at: &MarketTime,
) -> (result: ApplicationResult<()>)
    ensures
        result is Ok <==> snapshot_binding_valid(*context, *observed_at, *visible_at),
        result matches Err(e) ==> e == failure(ApplicationErrorCategory::HashMismatch),
{
    if !market_times_equal(observed_at, &context.valuation_at) || instant_before(
        context.knowledge_at.instant,
        visible_at.instant,
    ) || instant_before(visible_at.instant, observed_at.instant) {
        return Err(integrity());
    }
    Ok(())
}

/// A binding names exactly the versioned, content-addressed lineage reference.
pub open spec fn binding_matches_lineage(
    binding: PortfolioCatalogEvidenceBinding,
    reference: LineageRef,
) -> bool {
    &&& reference.version == Some(binding.reference.version)
    &&& reference.object_id@ == binding.reference.id@
    &&& reference.content_hash matches Some(h) && h@ == binding.content_hash@
}

/// Whether a binding names exactly the lineage reference.
pub fn catalog_binding_matches_lineage(
    binding: &PortfolioCatalogEvidenceBinding,
    reference: &LineageRef,
) -> (matches: bool)
    ensures
        matches == binding_matches_lineage(*binding, *reference),
{
    let version_matches = match reference.version {
        Some(v) => v == binding.reference.version,
        None => false,
    };
    let hash_matches = match &reference.content_hash {
        Some(h) => bytes_equal(h.as_slice(), binding.content_hash.as_slice()),
        None => false,
    };
    version_matches && same_text(&reference.object_id, &binding.reference.id) && hash_matches
}

/// A binding names exactly the definition record: its version, content and validity window.
pub open spec fn binding_matches_definition(
    binding: PortfolioCatalogEvidenceBinding,
    record: CatalogDefinitionRecord,
) -> bool {
    &&& binding.reference@ == record.reference@
    &&& binding.content_hash@ == record.content_hash@
    &&& same_time(binding.visible_at, record.visible_at)
    &&& same_time(binding.effective_from, record.effective_from)
    &&& same_time(binding.effective_to, record.effective_to)
}

/// Whether a binding names exactly the definition record.
pub fn catalog_binding_matches_definition(
    binding: &PortfolioCatalogEvidenceBinding,
    record: &CatalogDefinitionRecord,
) -> (matches: bool)
    ensures
        matches == binding_matches_definition(*binding, *record),
{
    binding.reference.same_as(&record.reference) && bytes_equal(
        binding.content_hash.as_slice(),
        record.content_hash.as_slice(),
    ) && market_times_equal(&binding.visible_at, &record.visible_at) && market_times_equal(
        &binding.effective_from,
        &record.effective_from,
    ) && market_times_equal(&binding.effective_to, &record.effective_to)
}

/// The three roles that name the selected scope.
pub open spec fn is_selected_role(role: PortfolioCatalogEvidenceRole) -> bool {
    role == PortfolioCatalogEvidenceRole::SelectedBook || role
        == PortfolioCatalogEvidenceRole::SelectedGroup || role
        == PortfolioCatalogEvidenceRole::SelectedPortfolio
}

/// The bindings of one kind of role, in their order.
pub open spec fn bindings_where(
    evidence: Seq<PortfolioCatalogEvidenceBinding>,
    keep: spec_fn(PortfolioCatalogEvidenceRole) -> bool,
) -> Seq<PortfolioCatalogEvidenceBinding>
    decreases evidence.len(),
{
    if evidence.len() == 0 {
        Seq::empty()
    } else {
        bindings_where(evidence.drop_last(), keep) + if keep(evidence.last().role) {
            seq![evidence.last()]
        } else {
            Seq::empty()
        }
    }
}

pub open spec fn selected_roles() -> spec_fn(PortfolioCatalogEvidenceRole) -> bool {
    |role: PortfolioCatalogEvidenceRole| is_selected_role(role)
}

pub open spec fn member_roles() -> spec_fn(PortfolioCatalogEvidenceRole) -> bool {
    |role: PortfolioCatalogEvidenceRole| role == PortfolioCatalogEvidenceRole::MemberPortfolio
}

pub open spec fn benchmark_roles() -> spec_fn(PortfolioCatalogEvidenceRole) -> bool {
    |role: PortfolioCatalogEvidenceRole| role == PortfolioCatalogEvidenceRole::Benchmark
}

pub open spec fn convention_roles() -> spec_fn(PortfolioCatalogEvidenceRole) -> bool {
    |role: PortfolioCatalogEvidenceRole| role == PortfolioCatalogEvidenceRole::MetricConvention
}

/// The selected-scope role agrees with the kind of scope the context selects.
pub open spec fn role_matches_scope(
    role: PortfolioCatalogEvidenceRole,
    scope: ExactPortfolioScopeKind,
) -> bool {
    match scope {
        ExactPortfolioScopeKind::Book(_) => role == PortfolioCatalogEvidenceRole::SelectedBook,
        ExactPortfolioScopeKind::Group(_) => role == PortfolioCatalogEvidenceRole::SelectedGroup,
        ExactPortfolioScopeKind::Portfolio(_) => role
            == PortfolioCatalogEvidenceRole::SelectedPortfolio,
    }
}

/// The lineage reference of the selected scope.
pub open spec fn scope_lineage(scope: ExactPortfolioScopeKind) -> LineageRef {
    match scope {
        ExactPortfolioScopeKind::Book(r) => r,
        ExactPortfolioScopeKind::Group(r) => r,
        ExactPortfolioScopeKind::Portfolio(r) => r,
    }
}

/// The catalog evidence of an aggregation is complete and exact: one binding for the selected
/// scope of the right kind and lineage, one per member portfolio in order, one for the
/// benchmark, one for the metric convention, nothing else, each naming its record exactly and
/// each usable in the context.
pub open spec fn catalog_evidence_valid(
    context: PortfolioContextTimes,
    scope: ExactPortfolioScopeKind,
    evidence: Seq<PortfolioCatalogEvidenceBinding>,
    portfolios: Seq<CatalogDefinitionRecord>,
    benchmark: CatalogDefinitionRecord,
    convention: CatalogDefinitionRecord,
) -> bool {
    let selected = bindings_where(evidence, selected_roles());
    let members = bindings_where(evidence, member_roles());
    let benchmarks = bindings_where(evidence, benchmark_roles());
    let conventions = bindings_where(evidence, convention_roles());
    &&& selected.len() == 1
    &&& members.len() == portfolios.len()
    &&& benchmarks.len() == 1
    &&& conventions.len() == 1
    &&& evidence.len() == members.len() + 3
    &&& role_matches_scope(selected[0].role, scope)
    &&& binding_matches_lineage(selected[0], scope_lineage(scope))
    &&& binding_matches_definition(benchmarks[0], benchmark)
    &&& binding_matches_definition(conventions[0], convention)
    &&& forall|i: int|
        0 <= i < members.len() ==> binding_matches_definition(
            #[trigger] members[i],
            portfolios[i],
        )
    &&& forall|i: int|
        0 <= i < evidence.len() ==> visible_record_valid(
            context,
            context.owner,
            None,
            #[trigger] evidence[i].effective_from,
            evidence[i].effective_to,
            evidence[i].visible_at,
        )
}

/// The positions of the bindings of one role kind.
pub open spec fn picked(evidence: Seq<PortfolioCatalogEvidenceBinding>, positions: Seq<usize>) -> Seq<
    PortfolioCatalogEvidenceBinding,
> {
    positions.map_values(|p: usize| evidence[p as int])
}

fn is_selected(role: PortfolioCatalogEvidenceRole) -> (selected: bool)
    ensures
        selected == is_selected_role(role),
{
    match role {
        PortfolioCatalogEvidenceRole::SelectedBook
        | PortfolioCatalogEvidenceRole::SelectedGroup
        | PortfolioCatalogEvidenceRole::SelectedPortfolio => true,
        _ => false,
    }
}

fn scope_reference(scope: &ExactPortfolioScopeKind) -> (reference: &LineageRef)
    ensures
        *reference == scope_lineage(*scope),
{
    match scope {
        ExactPortfolioScopeKind::Book(r) => r,
        ExactPortfolioScopeKind::Group(r) => r,
        ExactPortfolioScopeKind::Portfolio(r) => r,
    }
}

fn scope_role_matches(role: PortfolioCatalogEvidenceRole, scope: &ExactPortfolioScopeKind) -> (matches:
    bool)
    ensures
        matches == role_matches_scope(role, *scope),
{
    match scope {
        ExactPortfolioScopeKind::Book(_) => role == PortfolioCatalogEvidenceRole::SelectedBook,
        ExactPortfolioScopeKind::Group(_) => role == PortfolioCatalogEvidenceRole::SelectedGroup,
        ExactPortfolioScopeKind::Portfolio(_) => role
            == PortfolioCatalogEvidenceRole::SelectedPortfolio,
    }
}

proof fn lemma_bindings_step(
    evidence: Seq<PortfolioCatalogEvidenceBinding>,
    keep: spec_fn(PortfolioCatalogEvidenceRole) -> bool,
    n: int,
)
    requires
        0 <= n < evidence.len(),
    ensures
        bindings_where(evidence.subrange(0, n + 1), keep) == bindings_where(
            evidence.subrange(0, n),
            keep,
        ) + if keep(evidence[n].role) {
            seq![evidence[n]]
        } else {
            Seq::empty()
        },
{
    assert(evidence.subrange(0, n + 1).drop_last() =~= evidence.subrange(0, n));
}

/// The positions of the selected-scope, member, benchmark and convention bindings, in order.
fn partition_evidence(evidence: &[PortfolioCatalogEvidenceBinding]) -> (parts: (Vec<usize>, Vec<usize>, Vec<usize>, Vec<usize>))
    ensures
        forall|k: int| 0 <= k < parts.0@.len() ==> #[trigger] parts.0@[k] < evidence@.len(),
        forall|k: int| 0 <= k < parts.1@.len() ==> #[trigger] parts.1@[k] < evidence@.len(),
        forall|k: int| 0 <= k < parts.2@.len() ==> #[trigger] parts.2@[k] < evidence@.len(),
        forall|k: int| 0 <= k < parts.3@.len() ==> #[trigger] parts.3@[k] < evidence@.len(),
        picked(evidence@, parts.0@) == bindings_where(evidence@, selected_roles()),
        picked(evidence@, parts.1@) == bindings_where(evidence@, member_roles()),
        picked(evidence@, parts.2@) == bindings_where(evidence@, benchmark_roles()),
        picked(evidence@, parts.3@) == bindings_where(evidence@, convention_roles()),
{
    let mut selected: Vec<usize> = Vec::new();
    let mut members: Vec<usize> = Vec::new();
    let mut benchmarks: Vec<usize> = Vec::new();
    let mut conventions: Vec<usize> = Vec::new();
    let mut i: usize = 0;
    while i < evidence.len()
        invariant
            i <= evidence@.len(),
            forall|k: int| 0 <= k < selected@.len() ==> #[trigger] selected@[k] < i,
            forall|k: int| 0 <= k < members@.len() ==> #[trigger] members@[k] < i,
            forall|k: int| 0 <= k < benchmarks@.len() ==> #[trigger] benchmarks@[k] < i,
            forall|k: int| 0 <= k < conventions@.len() ==> #[trigger] conventions@[k] < i,
            picked(evidence@, selected@) == bindings_where(
                evidence@.subrange(0, i as int),
                selected_roles(),
            ),
            picked(evidence@, members@) == bindings_where(
                evidence@.subrange(0, i as int),
                member_roles(),
            ),
            picked(evidence@, benchmarks@) == bindings_where(
                evidence@.subrange(0, i as int),
                benchmark_roles(),
            ),
            picked(evidence@, conventions@) == bindings_where(
                evidence@.subrange(0, i as int),
                convention_roles(),
            ),
        decreases evidence.len() - i,
    {
        let role = evidence[i].role;
        proof {
            lemma_bindings_step(evidence@, selected_roles(), i as int);
            lemma_bindings_step(evidence@, member_roles(), i as int);
            lemma_bindings_step(evidence@, benchmark_roles(), i as int);
            lemma_bindings_step(evidence@, convention_roles(), i as int);
        }
        let ghost before = (selected@, members@, benchmarks@, conventions@);
        if is_selected(role) {
            selected.push(i);
        } else if role == PortfolioCatalogEvidenceRole::MemberPortfolio {
            members.push(i);
        } else if role == PortfolioCatalogEvidenceRole::Benchmark {
            benchmarks.push(i);
        } else {
            conventions.push(i);
        }
        proof {
            assert(picked(evidence@, selected@) =~= bindings_where(
                evidence@.subrange(0, i + 1),
                selected_roles(),
            ));
            assert(picked(evidence@, members@) =~= bindings_where(
                evidence@.subrange(0, i + 1),
                member_roles(),
            ));
            assert(picked(evidence@, benchmarks@) =~= bindings_where(
                evidence@.subrange(0, i + 1),
                benchmark_roles(),
            ));
            assert(picked(evidence@, conventions@) =~= bindings_where(
                evidence@.subrange(0, i + 1),
                convention_roles(),
            ));
        }
        i = i + 1;
    }
    assert(evidence@.subrange(0, evidence@.len() as int) =~= evidence@);
    (selected, members, benchmarks, conventions)
}

/// Checks the catalog evidence of an aggregation request against the records it resolved.
pub fn validate_catalog_evidence(
    context: &PortfolioContextTimes,
    scope: &ExactPortfolioScopeKind,
    evidence: &[PortfolioCatalogEvidenceBinding],
    portfolios: &[CatalogDefinitionRecord],
    benchmark: &CatalogDefinitionRecord,
    convention: &CatalogDefinitionRecord,
) -> (result: ApplicationResult<()>)
    ensures
        result is Ok <==> catalog_evidence_valid(
            *context,
            *scope,
            evidence@,
            portfolios@,
            *benchmark,
            *convention,
        ),
        result matches Err(e) ==> e == failure(ApplicationErrorCategory::HashMismatch),
{
    let (selected, members, benchmarks, conventions) = partition_evidence(evidence);
    let ghost sel = bindings_where(evidence@, selected_roles());
    let ghost mem = bindings_where(evidence@, member_roles());
    let ghost bms = bindings_where(evidence@, benchmark_roles());
    let ghost cvs = bindings_where(evidence@, convention_roles());
    if selected.len() != 1 || members.len() != portfolios.len() || benchmarks.len() != 1
        || conventions.len() != 1 || evidence.len() < 3 || evidence.len() - 3 != members.len() {
        return Err(integrity());
    }
    let chosen = &evidence[selected[0]];
    assert(*chosen == sel[0]);
    if !scope_role_matches(chosen.role, scope) || !catalog_binding_matches_lineage(
        chosen,
        scope_reference(scope),
    ) {
        return Err(integrity());
    }
    assert(evidence@[benchmarks@[0] as int] == bms[0]);
    assert(evidence@[conventions@[0] as int] == cvs[0]);
    if !catalog_binding_matches_definition(&evidence[benchmarks[0]], benchmark)
        || !catalog_binding_matches_definition(&evidence[conventions[0]], convention) {
        return Err(integrity());
    }
    let mut m: usize = 0;
    while m < members.len()
        invariant
            m <= members@.len(),
            members@.len() == portfolios@.len(),
            forall|k: int| 0 <= k < members@.len() ==> #[trigger] members@[k] < evidence@.len(),
            picked(evidence@, members@) == mem,
            mem == bindings_where(evidence@, member_roles()),
            forall|k: int| 0 <= k < m ==> binding_matches_definition(#[trigger] mem[k], portfolios@[k]),
        decreases members.len() - m,
    {
        assert(evidence@[members@[m as int] as int] == mem[m as int]);
        if !catalog_binding_matches_definition(&evidence[members[m]], &portfolios[m]) {
            return Err(integrity());
        }
        m = m + 1;
    }
    let mut v: usize = 0;
    while v < evidence.len()
        invariant
            v <= evidence@.len(),
            forall|k: int|
                0 <= k < v ==> visible_record_valid(
                    *context,
                    context.owner,
                    None,
                    #[trigger] evidence@[k].effective_from,
                    evidence@[k].effective_to,
                    evidence@[k].visible_at,
                ),
        decreases evidence.len() - v,
    {
        let binding = &evidence[v];
        if validate_visible_record(
            context,
            &context.owner,
            None,
            &binding.effective_from,
            &binding.effective_to,
            &binding.visible_at,
        ).is_err() {
            return Err(integrity());
        }
        v = v + 1;
    }
    Ok(())
}

/// A lineage reference pinned to both a version and a content hash.
pub open spec fn lineage_exact(reference: LineageRef) -> bool {
    reference.version is Some && reference.content_hash is Some
}

/// Strict order of exact lineage references: by object identifier, then version, then
/// content hash.
pub open spec fn lineage_less(a: LineageRef, b: LineageRef) -> bool {
    ||| lex_less(text_bytes(a.object_id@), text_bytes(b.object_id@))
    ||| (a.object_id@ == b.object_id@ && (a.version->0 < b.version->0 || (a.version->0
        == b.version->0 && lex_less(a.content_hash->0@, b.content_hash->0@))))
}

/// The references at `i` and `i + 1` are in strict order.
pub open spec fn ordered_at(values: Seq<LineageRef>, i: int) -> bool {
    lineage_less(values[i], values[i + 1])
}

/// A lineage set is exact: every reference is pinned, and the references are strictly
/// ascending, so none repeats.
pub open spec fn exact_lineage_set(values: Seq<LineageRef>) -> bool {
    &&& forall|i: int| 0 <= i < values.len() ==> lineage_exact(#[trigger] values[i])
    &&& forall|i: int| 0 <= i < values.len() - 1 ==> #[trigger] ordered_at(values, i)
}

fn lineage_before(a: &LineageRef, b: &LineageRef) -> (less: bool)
    requires
        lineage_exact(*a),
        lineage_exact(*b),
    ensures
        less == lineage_less(*a, *b),
{
    if bytes_less(a.object_id.as_str().as_bytes(), b.object_id.as_str().as_bytes()) {
        return true;
    }
    if !same_text(&a.object_id, &b.object_id) {
        return false;
    }
    let (av, bv) = match (a.version, b.version) {
        (Some(x), Some(y)) => (x, y),
        _ => {
            return false;
        },
    };
    if av != bv {
        return av < bv;
    }
    match (&a.content_hash, &b.content_hash) {
        (Some(x), Some(y)) => bytes_less(x.as_slice(), y.as_slice()),
        _ => false,
    }
}

/// Checks that a lineage set is exact; incomplete lineage otherwise.
pub fn require_exact_lineage_set(values: &[LineageRef]) -> (result: ApplicationResult<()>)
    ensures
        result is Ok <==> exact_lineage_set(values@),
        result matches Err(e) ==> e == failure(ApplicationErrorCategory::LineageIncomplete),
{
    let mut i: usize = 0;
    while i < values.len()
        invariant
            i <= values@.len(),
            forall|k: int| 0 <= k < i ==> lineage_exact(#[trigger] values@[k]),
        decreases values.len() - i,
    {
        if values[i].version.is_none() || values[i].content_hash.is_none() {
            return Err(lineage());
        }
        i = i + 1;
    }
    let mut j: usize = 1;
    while j < values.len()
        invariant
            1 <= j,
            forall|k: int| 0 <= k < values@.len() ==> lineage_exact(#[trigger] values@[k]),
            forall|k: int| 0 <= k < j - 1 && k < values@.len() - 1 ==> #[trigger] ordered_at(values@, k),
        decreases values.len() - j,
    {
        if !lineage_before(&values[j - 1], &values[j]) {
            assert(!ordered_at(values@, j - 1));
            return Err(lineage());
        }
        j = j + 1;
    }
    Ok(())
}

/// The exact reference and content hash of a catalog object a context pins.
#[derive(Clone, Debug, PartialEq, Eq)]
pub struct CatalogObjectRef {
    pub reference: VersionRef,
    pub content_hash: Vec<u8>,
}

/// No two bindings share both their role and their reference.
pub open spec fn evidence_keys_distinct(evidence: Seq<PortfolioCatalogEvidenceBinding>) -> bool {
    forall|a: int, b: int|
        0 <= a < evidence.len() && 0 <= b < evidence.len() && a != b ==> !((#[trigger] evidence[a]).role
            == (#[trigger] evidence[b]).role && evidence[a].reference@ == evidence[b].reference@)
}

/// Some member binding names the definition record exactly.
pub open spec fn member_names_record(members: Seq<PortfolioCatalogEvidenceBinding>, record: CatalogDefinitionRecord) -> bool {
    exists|m: int| 0 <= m < members.len() && binding_matches_definition(#[trigger] members[m], record)
}

/// Some member binding names the lineage reference exactly.
pub open spec fn member_names_lineage(members: Seq<PortfolioCatalogEvidenceBinding>, reference: LineageRef) -> bool {
    exists|m: int| 0 <= m < members.len() && binding_matches_lineage(#[trigger] members[m], reference)
}

/// A binding names the pinned object and its record.
pub open spec fn pinned_binding_valid(
    binding: PortfolioCatalogEvidenceBinding,
    record: CatalogDefinitionRecord,
    pinned: CatalogObjectRef,
) -> bool {
    &&& binding_matches_definition(binding, record)
    &&& binding.reference@ == pinned.reference@
    &&& binding.content_hash@ == pinned.content_hash@
}

/// The catalog evidence captured when a context was normalized is complete and exact as a
/// set: one binding per member portfolio, selected scope, benchmark and metric convention,
/// none repeated, each member record and each member lineage named by some member binding,
/// and the benchmark and convention bindings naming the records the context pins.
pub open spec fn catalog_evidence_set_valid(
    scope: ExactPortfolioScopeKind,
    member_lineages: Seq<LineageRef>,
    pinned_benchmark: CatalogObjectRef,
    pinned_convention: CatalogObjectRef,
    evidence: Seq<PortfolioCatalogEvidenceBinding>,
    portfolios: Seq<CatalogDefinitionRecord>,
    benchmark: CatalogDefinitionRecord,
    convention: CatalogDefinitionRecord,
) -> bool {
    let selected = bindings_where(evidence, selected_roles());
    let members = bindings_where(evidence, member_roles());
    let benchmarks = bindings_where(evidence, benchmark_roles());
    let conventions = bindings_where(evidence, convention_roles());
    &&& portfolios.len() > 0
    &&& evidence.len() == portfolios.len() + 3
    &&& evidence_keys_distinct(evidence)
    &&& selected.len() == 1
    &&& role_matches_scope(selected[0].role, scope)
    &&& binding_matches_lineage(selected[0], scope_lineage(scope))
    &&& members.len() == portfolios.len()
    &&& members.len() == member_lineages.len()
    &&& forall|p: int| 0 <= p < portfolios.len() ==> #[trigger] member_names_record(members, portfolios[p])
    &&& forall|l: int| 0 <= l < member_lineages.len() ==> #[trigger] member_names_lineage(members, member_lineages[l])
    &&& benchmarks.len() == 1
    &&& conventions.len() == 1
    &&& pinned_binding_valid(benchmarks[0], benchmark, pinned_benchmark)
    &&& pinned_binding_valid(conventions[0], convention, pinned_convention)
}

fn evidence_keys_unique(evidence: &[PortfolioCatalogEvidenceBinding]) -> (unique: bool)
    ensures
        unique == evidence_keys_distinct(evidence@),
{
    let mut a: usize = 0;
    while a < evidence.len()
        invariant
            a <= evidence@.len(),
            forall|x: int, y: int|
                0 <= x < a && 0 <= y < evidence@.len() && x != y ==> !((#[trigger] evidence@[x]).role
                    == (#[trigger] evidence@[y]).role && evidence@[x].reference@ == evidence@[y].reference@),
        decreases evidence.len() - a,
    {
        let mut b: usize = 0;
        while b < evidence.len()
            invariant
                a < evidence@.len(),
                b <= evidence@.len(),
                forall|x: int, y: int|
                    0 <= x < a && 0 <= y < evidence@.len() && x != y ==> !((#[trigger] evidence@[x]).role
                        == (#[trigger] evidence@[y]).role && evidence@[x].reference@ == evidence@[y].reference@),
                forall|y: int|
                    0 <= y < b && y != a ==> !(evidence@[a as int].role == (#[trigger] evidence@[y]).role
                        && evidence@[a as int].reference@ == evidence@[y].reference@),
            decreases evidence.len() - b,
        {
            if a != b && evidence[a].role == evidence[b].role && evidence[a].reference.same_as(
                &evidence[b].reference,
            ) {
                return false;
            }
            b = b + 1;
        }
        a = a + 1;
    }
    true
}

fn some_member_names_record(
    evidence: &[PortfolioCatalogEvidenceBinding],
    members: &Vec<usize>,
    record: &CatalogDefinitionRecord,
) -> (found: bool)
    requires
        forall|k: int| 0 <= k < members@.len() ==> #[trigger] members@[k] < evidence@.len(),
    ensures
        found == member_names_record(picked(evidence@, members@), *record),
{
    let ghost ms = picked(evidence@, members@);
    let mut m: usize = 0;
    while m < members.len()
        invariant
            m <= members@.len(),
            ms == picked(evidence@, members@),
            forall|k: int| 0 <= k < members@.len() ==> #[trigger] members@[k] < evidence@.len(),
            forall|k: int| 0 <= k < m ==> !binding_matches_definition(#[trigger] ms[k], *record),
        decreases members.len() - m,
    {
        assert(ms[m as int] == evidence@[members@[m as int] as int]);
        if catalog_binding_matches_definition(&evidence[members[m]], record) {
            return true;
        }
        m = m + 1;
    }
    false
}

fn some_member_names_lineage(
    evidence: &[PortfolioCatalogEvidenceBinding],
    members: &Vec<usize>,
    reference: &LineageRef,
) -> (found: bool)
    requires
        forall|k: int| 0 <= k < members@.len() ==> #[trigger] members@[k] < evidence@.len(),
    ensures
        found == member_names_lineage(picked(evidence@, members@), *reference),
{
    let ghost ms = picked(evidence@, members@);
    let mut m: usize = 0;
    while m < members.len()
        invariant
            m <= members@.len(),
            ms == picked(evidence@, members@),
            forall|k: int| 0 <= k < members@.len() ==> #[trigger] members@[k] < evidence@.len(),
            forall|k: int| 0 <= k < m ==> !binding_matches_lineage(#[trigger] ms[k], *reference),
        decreases members.len() - m,
    {
        assert(ms[m as int] == evidence@[members@[m as int] as int]);
        if catalog_binding_matches_lineage(&evidence[members[m]], reference) {
            return true;
        }
        m = m + 1;
    }
    false
}

fn pinned_binding_ok(
    binding: &PortfolioCatalogEvidenceBinding,
    record: &CatalogDefinitionRecord,
    pinned: &CatalogObjectRef,
) -> (ok: bool)
    ensures
        ok == pinned_binding_valid(*binding, *record, *pinned),
{
    catalog_binding_matches_definition(binding, record) && binding.reference.same_as(&pinned.reference)
        && bytes_equal(binding.content_hash.as_slice(), pinned.content_hash.as_slice())
}

/// Checks the catalog evidence captured at normalization as a set against the resolved
/// records and the context's pins; an integrity error otherwise.
pub fn validate_catalog_evidence_set(
    scope: &ExactPortfolioScopeKind,
    member_lineages: &[LineageRef],
    pinned_benchmark: &CatalogObjectRef,
    pinned_convention: &CatalogObjectRef,
    evidence: &[PortfolioCatalogEvidenceBinding],
    portfolios: &[CatalogDefinitionRecord],
    benchmark: &CatalogDefinitionRecord,
    convention: &CatalogDefinitionRecord,
) -> (result: ApplicationResult<()>)
    ensures
        result is Ok <==> catalog_evidence_set_valid(
            *scope,
            member_lineages@,
            *pinned_benchmark,
            *pinned_convention,
            evidence@,
            portfolios@,
            *benchmark,
            *convention,
        ),
        result matches Err(e) ==> e == failure(ApplicationErrorCategory::HashMismatch),
{
    if portfolios.len() == 0 || evidence.len() < 3 || evidence.len() - 3 != portfolios.len() {
        return Err(integrity());
    }
    if !evidence_keys_unique(evidence) {
        return Err(integrity());
    }
    let (selected, members, benchmarks, conventions) = partition_evidence(evidence);
    let ghost sel = bindings_where(evidence@, selected_roles());
    let ghost mem = bindings_where(evidence@, member_roles());
    let ghost bms = bindings_where(evidence@, benchmark_roles());
    let ghost cvs = bindings_where(evidence@, convention_roles());
    if selected.len() != 1 {
        return Err(integrity());
    }
    let chosen = &evidence[selected[0]];
    assert(*chosen == sel[0]);
    if !scope_role_matches(chosen.role, scope) || !catalog_binding_matches_lineage(
        chosen,
        scope_reference(scope),
    ) {
        return Err(integrity());
    }
    if members.len() != portfolios.len() || members.len() != member_lineages.len() {
        return Err(integrity());
    }
    let mut p: usize = 0;
    while p < portfolios.len()
        invariant
            p <= portfolios@.len(),
            forall|k: int| 0 <= k < members@.len() ==> #[trigger] members@[k] < evidence@.len(),
            mem == picked(evidence@, members@),
            mem == bindings_where(evidence@, member_roles()),
            forall|q: int| 0 <= q < p ==> #[trigger] member_names_record(mem, portfolios@[q]),
        decreases portfolios.len() - p,
    {
        if !some_member_names_record(evidence, &members, &portfolios[p]) {
            return Err(integrity());
        }
        p = p + 1;
    }
    let mut l: usize = 0;
    while l < member_lineages.len()
        invariant
            l <= member_lineages@.len(),
            forall|k: int| 0 <= k < members@.len() ==> #[trigger] members@[k] < evidence@.len(),
            mem == picked(evidence@, members@),
            mem == bindings_where(evidence@, member_roles()),
            forall|q: int| 0 <= q < l ==> #[trigger] member_names_lineage(mem, member_lineages@[q]),
        decreases member_lineages.len() - l,
    {
        if !some_member_names_lineage(evidence, &members, &member_lineages[l]) {
            return Err(integrity());
        }
        l = l + 1;
    }
    if benchmarks.len() != 1 || conventions.len() != 1 {
        return Err(integrity());
    }
    assert(evidence@[benchmarks@[0] as int] == bms[0]);
    assert(evidence@[conventions@[0] as int] == cvs[0]);
    if !pinned_binding_ok(&evidence[benchmarks[0]], benchmark, pinned_benchmark) || !pinned_binding_ok(
        &evidence[conventions[0]],
        convention,
        pinned_convention,
    ) {
        return Err(integrity());
    }
    Ok(())
}

/// The frame a catalog is read in: the owner and subject it is read for, the as-of instant of
/// the records and the knowledge instant.
#[derive(Clone, Debug)]
pub struct CatalogTemporalScope {
    pub owner: OwnerRef,
    pub subject_ref: VersionRef,
    pub as_of: MarketTime,
    pub knowledge_at: MarketTime,
}

/// One visible catalog record as evidence reads it: its owner, the subject it belongs to when it
/// has one, and its identity, visibility and validity window.
#[derive(Clone, Debug)]
pub struct VisibleCatalogRecordFacts {
    pub owner: OwnerRef,
    pub subject_ref: Option<VersionRef>,
    pub definition: CatalogDefinitionRecord,
}

/// A record can be bound as evidence in a frame: it is the frame's owner's, of its subject when
/// it names one, visible by the knowledge instant and in effect at the as-of instant.
pub open spec fn record_evidence_valid(record: VisibleCatalogRecordFacts, temporal: CatalogTemporalScope) -> bool {
    &&& record.owner.tenant_id@ == temporal.owner.tenant_id@
    &&& record.owner.owner_id@ == temporal.owner.owner_id@
    &&& (record.subject_ref matches Some(s) ==> s@ == temporal.subject_ref@)
    &&& !instant_less(temporal.knowledge_at.instant, record.definition.visible_at.instant)
    &&& !instant_less(temporal.as_of.instant, record.definition.effective_from.instant)
    &&& instant_less(temporal.as_of.instant, record.definition.effective_to.instant)
}

/// Binds one visible catalog record as evidence of a role; an integrity error when the record
/// cannot be used in the frame.
pub fn catalog_record_evidence(
    role: PortfolioCatalogEvidenceRole,
    record: &VisibleCatalogRecordFacts,
    temporal: &CatalogTemporalScope,
) -> (result: ApplicationResult<PortfolioCatalogEvidenceBinding>)
    ensures
        result is Ok <==> record_evidence_valid(*record, *temporal),
        result matches Ok(binding) ==> binding.role == role && binding_matches_definition(
            binding,
            record.definition,
        ),
        result matches Err(e) ==> e == failure(ApplicationErrorCategory::HashMismatch),
{
    let subject_drift = match &record.subject_ref {
        Some(subject) => !subject.same_as(&temporal.subject_ref),
        None => false,
    };
    let definition = &record.definition;
    if !record.owner.same_as(&temporal.owner) || subject_drift || instant_before(
        temporal.knowledge_at.instant,
        definition.visible_at.instant,
    ) || instant_before(temporal.as_of.instant, definition.effective_from.instant) || !instant_before(
        temporal.as_of.instant,
        definition.effective_to.instant,
    ) {
        return Err(integrity());
    }
    Ok(PortfolioCatalogEvidenceBinding {
        role,
        reference: definition.reference.duplicate(),
        content_hash: definition.content_hash.clone(),
        visible_at: definition.visible_at.duplicate(),
        effective_from: definition.effective_from.duplicate(),
        effective_to: definition.effective_to.duplicate(),
    })
}

/// How many bindings name the lineage reference exactly.
pub open spec fn lineage_match_count(bindings: Seq<PortfolioCatalogEvidenceBinding>, reference: LineageRef) -> nat
    decreases bindings.len(),
{
    if bindings.len() == 0 {
        0
    } else {
        lineage_match_count(bindings.drop_last(), reference) + if binding_matches_lineage(bindings.last(), reference) {
            1nat
        } else {
            0nat
        }
    }
}

/// A binding names the pinned object: its exact reference and content hash.
pub open spec fn binding_names_pin(binding: PortfolioCatalogEvidenceBinding, pinned: CatalogObjectRef) -> bool {
    binding.reference@ == pinned.reference@ && binding.content_hash@ == pinned.content_hash@
}

/// A binding is usable at the valuation and knowledge instants: visible by the knowledge
/// instant and in effect at the valuation.
pub open spec fn binding_in_frame(binding: PortfolioCatalogEvidenceBinding, valuation_at: MarketTime, knowledge_at: MarketTime) -> bool {
    &&& !instant_less(knowledge_at.instant, binding.visible_at.instant)
    &&& !instant_less(valuation_at.instant, binding.effective_from.instant)
    &&& instant_less(valuation_at.instant, binding.effective_to.instant)
}

/// The catalog evidence of a normalized context, as the workbench reads it: one binding for the
/// selected scope of the right kind and lineage, one member binding naming each member lineage
/// exactly once, one binding for the pinned benchmark and one for the pinned convention,
/// nothing else, and every binding usable at the context's instants.
pub open spec fn normalized_catalog_evidence_valid(
    scope: ExactPortfolioScopeKind,
    member_lineages: Seq<LineageRef>,
    pinned_benchmark: CatalogObjectRef,
    pinned_convention: CatalogObjectRef,
    valuation_at: MarketTime,
    knowledge_at: MarketTime,
    evidence: Seq<PortfolioCatalogEvidenceBinding>,
) -> bool {
    let selected = bindings_where(evidence, selected_roles());
    let members = bindings_where(evidence, member_roles());
    let benchmarks = bindings_where(evidence, benchmark_roles());
    let conventions = bindings_where(evidence, convention_roles());
    &&& selected.len() == 1
    &&& members.len() == member_lineages.len()
    &&& benchmarks.len() == 1
    &&& conventions.len() == 1
    &&& evidence.len() == members.len() + 3
    &&& role_matches_scope(selected[0].role, scope)
    &&& binding_matches_lineage(selected[0], scope_lineage(scope))
    &&& binding_names_pin(benchmarks[0], pinned_benchmark)
    &&& binding_names_pin(conventions[0], pinned_convention)
    &&& forall|l: int| 0 <= l < member_lineages.len() ==> lineage_match_count(members, #[trigger] member_lineages[l]) == 1
    &&& forall|k: int| 0 <= k < evidence.len() ==> binding_in_frame(#[trigger] evidence[k], valuation_at, knowledge_at)
}

fn count_lineage_matches(
    evidence: &[PortfolioCatalogEvidenceBinding],
    members: &Vec<usize>,
    reference: &LineageRef,
) -> (count: usize)
    requires
        forall|k: int| 0 <= k < members@.len() ==> #[trigger] members@[k] < evidence@.len(),
    ensures
        count == lineage_match_count(picked(evidence@, members@), *reference),
{
    let ghost ms = picked(evidence@, members@);
    let mut count: usize = 0;
    let mut m: usize = 0;
    while m < members.len()
        invariant
            m <= members@.len(),
            count <= m,
            ms == picked(evidence@, members@),
            forall|k: int| 0 <= k < members@.len() ==> #[trigger] members@[k] < evidence@.len(),
            count == lineage_match_count(ms.subrange(0, m as int), *reference),
        decreases members.len() - m,
    {
        assert(ms.subrange(0, m + 1).drop_last() =~= ms.subrange(0, m as int));
        assert(ms[m as int] == evidence@[members@[m as int] as int]);
        if catalog_binding_matches_lineage(&evidence[members[m]], reference) {
            count = count + 1;
        }
        m = m + 1;
    }
    assert(ms.subrange(0, members@.len() as int) =~= ms);
    count
}

fn binding_ok_in_frame(binding: &PortfolioCatalogEvidenceBinding, valuation_at: &MarketTime, knowledge_at: &MarketTime) -> (ok: bool)
    ensures
        ok == binding_in_frame(*binding, *valuation_at, *knowledge_at),
{
    !instant_before(knowledge_at.instant, binding.visible_at.instant) && !instant_before(
        valuation_at.instant,
        binding.effective_from.instant,
    ) && instant_before(valuation_at.instant, binding.effective_to.instant)
}

/// Normalized catalog evidence is usable at the context's instants: every binding was visible
/// by the knowledge instant, took effect no later than the valuation instant and is still in
/// effect there — it expires strictly after the valuation.
pub proof fn law_normalized_evidence_in_effect(
    scope: ExactPortfolioScopeKind,
    member_lineages: Seq<LineageRef>,
    pinned_benchmark: CatalogObjectRef,
    pinned_convention: CatalogObjectRef,
    valuation_at: MarketTime,
    knowledge_at: MarketTime,
    evidence: Seq<PortfolioCatalogEvidenceBinding>,
)
    ensures
        normalized_catalog_evidence_valid(
            scope,
            member_lineages,
            pinned_benchmark,
            pinned_convention,
            valuation_at,
            knowledge_at,
            evidence,
        ) ==> forall|k: int| 0 <= k < evidence.len() ==> {
            &&& !instant_less(knowledge_at.instant, (#[trigger] evidence[k]).visible_at.instant)
            &&& !instant_less(valuation_at.instant, evidence[k].effective_from.instant)
            &&& instant_less(valuation_at.instant, evidence[k].effective_to.instant)
        },
{
    if normalized_catalog_evidence_valid(
        scope,
        member_lineages,
        pinned_benchmark,
        pinned_convention,
        valuation_at,
        knowledge_at,
        evidence,
    ) {
        assert forall|k: int| 0 <= k < evidence.len() implies {
            &&& !instant_less(knowledge_at.instant, (#[trigger] evidence[k]).visible_at.instant)
            &&& !instant_less(valuation_at.instant, evidence[k].effective_from.instant)
            &&& instant_less(valuation_at.instant, evidence[k].effective_to.instant)
        } by {
            assert(binding_in_frame(evidence[k], valuation_at, knowledge_at));
        }
    }
}

/// Checks the catalog evidence of a normalized context before the workbench turns it into
/// formal inputs; an integrity error otherwise.
pub fn validate_normalized_catalog_evidence(
    scope: &ExactPortfolioScopeKind,
    member_lineages: &[LineageRef],
    pinned_benchmark: &CatalogObjectRef,
    pinned_convention: &CatalogObjectRef,
    valuation_at: &MarketTime,
    knowledge_at: &MarketTime,
    evidence: &[PortfolioCatalogEvidenceBinding],
) -> (result: ApplicationResult<()>)
    ensures
        result is Ok <==> normalized_catalog_evidence_valid(
            *scope,
            member_lineages@,
            *pinned_benchmark,
            *pinned_convention,
            *valuation_at,
            *knowledge_at,
            evidence@,
        ),
        result matches Err(e) ==> e == failure(ApplicationErrorCategory::HashMismatch),
        result is Ok ==> forall|k: int| 0 <= k < evidence@.len() ==> {
            &&& !instant_less(knowledge_at.instant, (#[trigger] evidence@[k]).visible_at.instant)
            &&& !instant_less(valuation_at.instant, evidence@[k].effective_from.instant)
            &&& instant_less(valuation_at.instant, evidence@[k].effective_to.instant)
        },
{
    proof {
        law_normalized_evidence_in_effect(
            *scope,
            member_lineages@,
            *pinned_benchmark,
            *pinned_convention,
            *valuation_at,
            *knowledge_at,
            evidence@,
        );
    }
    let (selected, members, benchmarks, conventions) = partition_evidence(evidence);
    let ghost sel = bindings_where(evidence@, selected_roles());
    let ghost mem = bindings_where(evidence@, member_roles());
    let ghost bms = bindings_where(evidence@, benchmark_roles());
    let ghost cvs = bindings_where(evidence@, convention_roles());
    if selected.len() != 1 || members.len() != member_lineages.len() || benchmarks.len() != 1
        || conventions.len() != 1 || evidence.len() < 3 || evidence.len() - 3 != members.len() {
        return Err(integrity());
    }
    let chosen = &evidence[selected[0]];
    assert(*chosen == sel[0]);
    assert(evidence@[benchmarks@[0] as int] == bms[0]);
    assert(evidence@[conventions@[0] as int] == cvs[0]);
    let bench = &evidence[benchmarks[0]];
    let conv = &evidence[conventions[0]];
    if !scope_role_matches(chosen.role, scope) || !catalog_binding_matches_lineage(
        chosen,
        scope_reference(scope),
    ) || !bench.reference.same_as(&pinned_benchmark.reference) || !bytes_equal(
        bench.content_hash.as_slice(),
        pinned_benchmark.content_hash.as_slice(),
    ) || !conv.reference.same_as(&pinned_convention.reference) || !bytes_equal(
        conv.content_hash.as_slice(),
        pinned_convention.content_hash.as_slice(),
    ) {
        return Err(integrity());
    }
    let mut l: usize = 0;
    while l < member_lineages.len()
        invariant
            l <= member_lineages@.len(),
            forall|k: int| 0 <= k < members@.len() ==> #[trigger] members@[k] < evidence@.len(),
            mem == picked(evidence@, members@),
            mem == bindings_where(evidence@, member_roles()),
            forall|q: int| 0 <= q < l ==> lineage_match_count(mem, #[trigger] member_lineages@[q]) == 1,
        decreases member_lineages.len() - l,
    {
        if count_lineage_matches(evidence, &members, &member_lineages[l]) != 1 {
            return Err(integrity());
        }
        l = l + 1;
    }
    let mut k: usize = 0;
    while k < evidence.len()
        invariant
            k <= evidence@.len(),
            forall|q: int| 0 <= q < k ==> binding_in_frame(#[trigger] evidence@[q], *valuation_at, *knowledge_at),
        decreases evidence.len() - k,
    {
        if !binding_ok_in_frame(&evidence[k], valuation_at, knowledge_at) {
            return Err(integrity());
        }
        k = k + 1;
    }
    Ok(())
}

/// A visible catalog record is the context owner's, of the context's subject when it names one,
/// in effect at the valuation instant and visible by the knowledge instant.
pub proof fn law_visible_record_fields(
    context: PortfolioContextTimes,
    owner: OwnerRef,
    subject: Option<VersionRef>,
    effective_from: MarketTime,
    effective_to: MarketTime,
    visible_at: MarketTime,
)
    ensures
        visible_record_valid(context, owner, subject, effective_from, effective_to, visible_at) ==> {
            &&& owner.tenant_id@ == context.owner.tenant_id@
            &&& owner.owner_id@ == context.owner.owner_id@
            &&& (subject is Some ==> subject->0.id@ == context.subject_ref.id@ && subject->0.version
                == context.subject_ref.version)
            &&& !instant_less(context.valuation_at.instant, effective_from.instant)
            &&& instant_less(context.valuation_at.instant, effective_to.instant)
            &&& !instant_less(context.knowledge_at.instant, visible_at.instant)
        },
{
}

/// A position snapshot binding was observed exactly at the valuation time, became visible no
/// earlier than it was observed, and by the knowledge instant.
pub proof fn law_snapshot_binding_fields(context: PortfolioContextTimes, observed_at: MarketTime, visible_at: MarketTime)
    ensures
        snapshot_binding_valid(context, observed_at, visible_at) ==> {
            &&& observed_at.instant == context.valuation_at.instant
            &&& observed_at.market_timezone@ == context.valuation_at.market_timezone@
            &&& observed_at.local_trading_date == context.valuation_at.local_trading_date
            &&& !instant_less(context.knowledge_at.instant, visible_at.instant)
            &&& !instant_less(visible_at.instant, observed_at.instant)
        },
{
}

/// A catalog record used as evidence is the temporal scope's owner's, of its subject when it
/// names one, visible by the knowledge instant and in effect at the as-of instant.
pub proof fn law_record_evidence_fields(record: VisibleCatalogRecordFacts, temporal: CatalogTemporalScope)
    ensures
        record_evidence_valid(record, temporal) ==> {
            &&& record.owner.tenant_id@ == temporal.owner.tenant_id@
            &&& record.owner.owner_id@ == temporal.owner.owner_id@
            &&& (record.subject_ref is Some ==> record.subject_ref->0.id@ == temporal.subject_ref.id@
                && record.subject_ref->0.version == temporal.subject_ref.version)
            &&& !instant_less(temporal.knowledge_at.instant, record.definition.visible_at.instant)
            &&& !instant_less(temporal.as_of.instant, record.definition.effective_from.instant)
            &&& instant_less(temporal.as_of.instant, record.definition.effective_to.instant)
        },
{
}

/// Valid catalog evidence binds the benchmark and convention records exactly — reference,
/// content hash and times — and every binding is visible by the knowledge instant and in effect
/// at the valuation instant.
pub proof fn law_catalog_evidence_fields(
    context: PortfolioContextTimes,
    scope: ExactPortfolioScopeKind,
    evidence: Seq<PortfolioCatalogEvidenceBinding>,
    portfolios: Seq<CatalogDefinitionRecord>,
    benchmark: CatalogDefinitionRecord,
    convention: CatalogDefinitionRecord,
)
    ensures
        catalog_evidence_valid(context, scope, evidence, portfolios, benchmark, convention) ==> {
            let benchmarks = bindings_where(evidence, benchmark_roles());
            let conventions = bindings_where(evidence, convention_roles());
            &&& benchmarks.len() == 1
            &&& benchmarks[0].reference.id@ == benchmark.reference.id@
            &&& benchmarks[0].reference.version == benchmark.reference.version
            &&& benchmarks[0].content_hash@ == benchmark.content_hash@
            &&& conventions.len() == 1
            &&& conventions[0].reference.id@ == convention.reference.id@
            &&& conventions[0].reference.version == convention.reference.version
            &&& conventions[0].content_hash@ == convention.content_hash@
            &&& forall|i: int| 0 <= i < evidence.len() ==> {
                &&& !instant_less(context.knowledge_at.instant, (#[trigger] evidence[i]).visible_at.instant)
                &&& !instant_less(context.valuation_at.instant, evidence[i].effective_from.instant)
                &&& instant_less(context.valuation_at.instant, evidence[i].effective_to.instant)
            }
        },
{
    if catalog_evidence_valid(context, scope, evidence, portfolios, benchmark, convention) {
        assert forall|i: int| 0 <= i < evidence.len() implies {
            &&& !instant_less(context.knowledge_at.instant, (#[trigger] evidence[i]).visible_at.instant)
            &&& !instant_less(context.valuation_at.instant, evidence[i].effective_from.instant)
            &&& instant_less(context.valuation_at.instant, evidence[i].effective_to.instant)
        } by {
            assert(visible_record_valid(context, context.owner, None, evidence[i].effective_from, evidence[i].effective_to, evidence[i].visible_at));
        }
    }
}

/// A valid catalog evidence set binds the pinned benchmark and convention exactly — their
/// reference and content hash, which are also those of the resolved records.
pub proof fn law_catalog_evidence_set_pins(
    scope: ExactPortfolioScopeKind,
    member_lineages: Seq<LineageRef>,
    pinned_benchmark: CatalogObjectRef,
    pinned_convention: CatalogObjectRef,
    evidence: Seq<PortfolioCatalogEvidenceBinding>,
    portfolios: Seq<CatalogDefinitionRecord>,
    benchmark: CatalogDefinitionRecord,
    convention: CatalogDefinitionRecord,
)
    ensures
        catalog_evidence_set_valid(
            scope,
            member_lineages,
            pinned_benchmark,
            pinned_convention,
            evidence,
            portfolios,
            benchmark,
            convention,
        ) ==> {
            let benchmarks = bindings_where(evidence, benchmark_roles());
            let conventions = bindings_where(evidence, convention_roles());
            &&& portfolios.len() > 0
            &&& evidence.len() == portfolios.len() + 3
            &&& benchmarks.len() == 1
            &&& benchmarks[0].reference.id@ == pinned_benchmark.reference.id@
            &&& benchmarks[0].reference.version == pinned_benchmark.reference.version
            &&& benchmarks[0].content_hash@ == pinned_benchmark.content_hash@
            &&& benchmarks[0].content_hash@ == benchmark.content_hash@
            &&& conventions.len() == 1
            &&& conventions[0].reference.id@ == pinned_convention.reference.id@
            &&& conventions[0].reference.version == pinned_convention.reference.version
            &&& conventions[0].content_hash@ == pinned_convention.content_hash@
            &&& conventions[0].content_hash@ == convention.content_hash@
        },
{
}

} // verus!
