use vstd::prelude::*;
use vstd::multiset::Multiset;

use crate::bytes::{
    bytes_equal, bytes_less, lemma_lex_total, lemma_lex_transitive, lex_less,
    push_all, text_bytes,
};
use crate::cursor::{decimal_bytes, is_digit, lemma_decimal_digits};
use crate::digest::utf8_text;
use crate::error::{ApplicationErrorCategory, ApplicationResult, failure, lineage};
use crate::evidence::{PortfolioCatalogEvidenceBinding, PortfolioCatalogEvidenceRole};
use crate::risk_analysis::{PortfolioRiskNamedEvidenceBinding, PortfolioRiskNamedEvidenceKind};
use crate::hex::lemma_ascii_bytes_valid_utf8;
use crate::overview::PositionSnapshotBinding;
use crate::primitives::{LineageRef, MarketTime, OwnerRef};
use crate::quotes::{push_zero_padded, zero_padded};

verus! {

broadcast use vstd::seq_lib::group_to_multiset_ensures;

/// What kind of object a formal output consumed.
#[derive(Clone, Copy, Debug, PartialEq, Eq, Structural)]
pub enum FormalInputKind {
    Book,
    PortfolioGroup,
    Portfolio,
    Benchmark,
    PortfolioMetricConvention,
    PositionSnapshot,
    FactorDefinition,
    CurveNodeDefinition,
    Fact,
}

/// How a consumed input is referenced: as a lineage object, or by a name and content hash.
#[derive(Clone, Debug)]
pub enum FormalInputReference {
    Object(LineageRef),
    Named(String, Vec<u8>),
}

/// One input a formal output consumed, under the role it played.
#[derive(Clone, Debug)]
pub struct FormalInputEntry {
    pub role: String,
    pub kind: FormalInputKind,
    pub owner: OwnerRef,
    pub reference: FormalInputReference,
    pub observed_at: Option<MarketTime>,
    pub visible_at: Option<MarketTime>,
    pub effective_from: Option<MarketTime>,
    pub effective_to: Option<MarketTime>,
}

/// The role of an input as bytes: the order formal inputs are kept in.
pub open spec fn role_key(entry: FormalInputEntry) -> Seq<u8> {
    text_bytes(entry.role@)
}

/// No two inputs play the same role.
pub open spec fn roles_distinct(inputs: Seq<FormalInputEntry>) -> bool {
    forall|i: int, j: int|
        0 <= i < inputs.len() && 0 <= j < inputs.len() && i != j ==> role_key(#[trigger] inputs[i])
            != role_key(#[trigger] inputs[j])
}

/// Inputs are in strictly ascending order of role.
pub open spec fn roles_ascending(inputs: Seq<FormalInputEntry>) -> bool {
    forall|i: int, j: int| 0 <= i < j < inputs.len() ==> lex_less(role_key(#[trigger] inputs[i]), role_key(#[trigger] inputs[j]))
}

fn roles_are_distinct(inputs: &[FormalInputEntry]) -> (distinct: bool)
    ensures
        distinct == roles_distinct(inputs@),
{
    let mut i: usize = 0;
    while i < inputs.len()
        invariant
            i <= inputs@.len(),
            forall|a: int, b: int|
                0 <= a < i && 0 <= b < inputs@.len() && a != b ==> role_key(#[trigger] inputs@[a])
                    != role_key(#[trigger] inputs@[b]),
        decreases inputs@.len() - i,
    {
        let mut j: usize = 0;
        while j < inputs.len()
            invariant
                i < inputs@.len(),
                j <= inputs@.len(),
                forall|a: int, b: int|
                    0 <= a < i && 0 <= b < inputs@.len() && a != b ==> role_key(#[trigger] inputs@[a])
                        != role_key(#[trigger] inputs@[b]),
                forall|b: int| 0 <= b < j && b != i ==> role_key(inputs@[i as int]) != role_key(#[trigger] inputs@[b]),
            decreases inputs@.len() - j,
        {
            if j != i && bytes_equal(inputs[i].role.as_str().as_bytes(), inputs[j].role.as_str().as_bytes()) {
                assert(role_key(inputs@[i as int]) == role_key(inputs@[j as int]));
                return false;
            }
            j = j + 1;
        }
        i = i + 1;
    }
    true
}

/// Puts formal inputs in ascending order of role; a lineage error when two inputs play the
/// same role.
pub fn order_formal_inputs(inputs: Vec<FormalInputEntry>) -> (result: ApplicationResult<Vec<FormalInputEntry>>)
    ensures
        result is Ok <==> roles_distinct(inputs@),
        result matches Ok(ordered) ==> ordered@.to_multiset() == inputs@.to_multiset() && roles_ascending(
            ordered@,
        ),
        result matches Err(e) ==> e == failure(ApplicationErrorCategory::LineageIncomplete),
{
    if !roles_are_distinct(inputs.as_slice()) {
        return Err(lineage());
    }
    let ghost all = inputs@;
    let mut input = inputs;
    let mut sorted: Vec<FormalInputEntry> = Vec::new();
    while input.len() > 0
        invariant
            sorted@.to_multiset().add(input@.to_multiset()) == all.to_multiset(),
            roles_ascending(sorted@),
            roles_distinct(input@),
            forall|a: int, b: int|
                0 <= a < sorted@.len() && 0 <= b < input@.len() ==> role_key(#[trigger] sorted@[a])
                    != role_key(#[trigger] input@[b]),
        decreases input.len(),
    {
        let ghost before_input = input@;
        let ghost before_sorted = sorted@;
        let entry = input.pop().unwrap();
        proof {
            assert(before_input =~= input@.push(entry));
            assert forall|a: int| 0 <= a < before_sorted.len() implies role_key(
                #[trigger] before_sorted[a],
            ) != role_key(entry) by {
                assert(entry == before_input[before_input.len() - 1]);
            }
            assert forall|b: int| 0 <= b < input@.len() implies role_key(#[trigger] input@[b]) != role_key(
                entry,
            ) by {
                assert(input@[b] == before_input[b]);
                assert(entry == before_input[before_input.len() - 1]);
            }
        }
        let mut p: usize = 0;
        while p < sorted.len() && !bytes_less(
            entry.role.as_str().as_bytes(),
            sorted[p].role.as_str().as_bytes(),
        )
            invariant
                p <= sorted@.len(),
                sorted@ == before_sorted,
                forall|q: int| 0 <= q < p ==> !lex_less(role_key(entry), role_key(#[trigger] sorted@[q])),
            decreases sorted.len() - p,
        {
            p = p + 1;
        }
        sorted.insert(p, entry);
        proof {
            let s = sorted@;
            assert(s == before_sorted.insert(p as int, entry));
            assert forall|i: int, j: int| 0 <= i < j < s.len() implies lex_less(
                role_key(#[trigger] s[i]),
                role_key(#[trigger] s[j]),
            ) by {
                if i < p && j == p {
                    lemma_lex_total(role_key(entry), role_key(before_sorted[i]));
                } else if i == p && j > p {
                    assert(lex_less(role_key(entry), role_key(before_sorted[p as int])));
                    if j - 1 > p {
                        lemma_lex_transitive(
                            role_key(entry),
                            role_key(before_sorted[p as int]),
                            role_key(before_sorted[j - 1]),
                        );
                    }
                } else if i < p && j > p {
                    assert(s[i] == before_sorted[i]);
                    assert(s[j] == before_sorted[j - 1]);
                } else if j < p {
                    assert(s[i] == before_sorted[i]);
                    assert(s[j] == before_sorted[j]);
                } else {
                    assert(s[i] == before_sorted[i - 1]);
                    assert(s[j] == before_sorted[j - 1]);
                }
            }
            assert forall|a: int, b: int| 0 <= a < s.len() && 0 <= b < input@.len() implies role_key(
                #[trigger] s[a],
            ) != role_key(#[trigger] input@[b]) by {
                assert(input@[b] == before_input[b]);
                if a < p {
                    assert(s[a] == before_sorted[a]);
                } else if a > p {
                    assert(s[a] == before_sorted[a - 1]);
                } else {
                    assert(entry == before_input[before_input.len() - 1]);
                }
            }
            assert forall|a: int, b: int|
                0 <= a < input@.len() && 0 <= b < input@.len() && a != b implies role_key(
                #[trigger] input@[a],
            ) != role_key(#[trigger] input@[b]) by {
                assert(input@[a] == before_input[a]);
                assert(input@[b] == before_input[b]);
            }
        }
    }
    proof {
        assert(input@ =~= Seq::<FormalInputEntry>::empty());
        assert(input@.to_multiset() =~= Multiset::empty());
    }
    Ok(sorted)
}

/// The role of the selected scope's catalog input.
pub open spec fn selected_role_text() -> Seq<u8> {
    seq![99u8, 97, 116, 97, 108, 111, 103, 46, 115, 101, 108, 101, 99, 116, 101, 100]
}

/// The role prefix of a member portfolio's catalog input, before its member number.
pub open spec fn member_role_prefix() -> Seq<u8> {
    seq![99u8, 97, 116, 97, 108, 111, 103, 46, 109, 101, 109, 98, 101, 114, 46]
}

/// The role of the benchmark's catalog input.
pub open spec fn benchmark_role_text() -> Seq<u8> {
    seq![99u8, 97, 116, 97, 108, 111, 103, 46, 98, 101, 110, 99, 104, 109, 97, 114, 107]
}

/// The role of the metric convention's catalog input.
pub open spec fn convention_role_text() -> Seq<u8> {
    seq![
        99u8, 97, 116, 97, 108, 111, 103, 46, 109, 101, 116, 114, 105, 99, 95, 99, 111, 110, 118,
        101, 110, 116, 105, 111, 110,
    ]
}

/// The role prefix of a position snapshot input, before its number.
pub open spec fn snapshot_role_prefix() -> Seq<u8> {
    seq![112u8, 111, 115, 105, 116, 105, 111, 110, 95, 115, 110, 97, 112, 115, 104, 111, 116, 46]
}

/// The role a catalog binding's input plays; members are numbered in evidence order, with at
/// least four digits.
pub open spec fn catalog_input_role(role: PortfolioCatalogEvidenceRole, member_index: nat) -> Seq<u8> {
    match role {
        PortfolioCatalogEvidenceRole::MemberPortfolio => member_role_prefix() + zero_padded(member_index, 4),
        PortfolioCatalogEvidenceRole::Benchmark => benchmark_role_text(),
        PortfolioCatalogEvidenceRole::MetricConvention => convention_role_text(),
        _ => selected_role_text(),
    }
}

/// The kind of object a catalog binding's input is.
pub open spec fn catalog_input_kind(role: PortfolioCatalogEvidenceRole) -> FormalInputKind {
    match role {
        PortfolioCatalogEvidenceRole::SelectedBook => FormalInputKind::Book,
        PortfolioCatalogEvidenceRole::SelectedGroup => FormalInputKind::PortfolioGroup,
        PortfolioCatalogEvidenceRole::SelectedPortfolio => FormalInputKind::Portfolio,
        PortfolioCatalogEvidenceRole::MemberPortfolio => FormalInputKind::Portfolio,
        PortfolioCatalogEvidenceRole::Benchmark => FormalInputKind::Benchmark,
        PortfolioCatalogEvidenceRole::MetricConvention => FormalInputKind::PortfolioMetricConvention,
    }
}

/// How many member portfolio bindings come before position `i`.
pub open spec fn members_before(evidence: Seq<PortfolioCatalogEvidenceBinding>, i: int) -> nat
    decreases i,
{
    if i <= 0 {
        0
    } else {
        members_before(evidence, i - 1) + if evidence[i - 1].role
            == PortfolioCatalogEvidenceRole::MemberPortfolio {
            1nat
        } else {
            0nat
        }
    }
}

/// The input of one catalog binding: its role and kind, the owner, the binding's exact
/// versioned and content-addressed reference, and its visibility and validity window.
pub open spec fn catalog_input_is(
    entry: FormalInputEntry,
    owner: OwnerRef,
    binding: PortfolioCatalogEvidenceBinding,
    member_index: nat,
) -> bool {
    &&& role_key(entry) == catalog_input_role(binding.role, member_index)
    &&& entry.kind == catalog_input_kind(binding.role)
    &&& entry.owner == owner
    &&& (entry.reference matches FormalInputReference::Object(r) && r.object_id@ == binding.reference.id@
        && r.version == Some(binding.reference.version) && (r.content_hash matches Some(h) && h@
        == binding.content_hash@))
    &&& entry.observed_at is None
    &&& entry.visible_at == Some(binding.visible_at)
    &&& entry.effective_from == Some(binding.effective_from)
    &&& entry.effective_to == Some(binding.effective_to)
}

/// The input of one position snapshot: numbered role, the owner, the snapshot's
/// content-addressed reference, and its observation and visibility times.
pub open spec fn snapshot_input_is(
    entry: FormalInputEntry,
    owner: OwnerRef,
    snapshot: PositionSnapshotBinding,
    index: nat,
) -> bool {
    &&& role_key(entry) == snapshot_role_prefix() + zero_padded(index, 4)
    &&& entry.kind == FormalInputKind::PositionSnapshot
    &&& entry.owner == owner
    &&& (entry.reference matches FormalInputReference::Object(r) && r.object_id@ == snapshot.snapshot_id@
        && r.version is None && (r.content_hash matches Some(h) && h@ == snapshot.content_hash@))
    &&& entry.observed_at == Some(snapshot.observed_at)
    &&& entry.visible_at == Some(snapshot.visible_at)
    &&& entry.effective_from is None
    &&& entry.effective_to is None
}

proof fn lemma_zero_padded_ascii(value: nat, width: nat)
    ensures
        forall|i: int| 0 <= i < zero_padded(value, width).len() ==> #[trigger] zero_padded(value, width)[i] < 128,
{
    lemma_decimal_digits(value);
    let d = decimal_bytes(value);
    let z = zero_padded(value, width);
    assert forall|i: int| 0 <= i < z.len() implies #[trigger] z[i] < 128 by {
        if d.len() < width {
            let pad = (width - d.len()) as int;
            if i >= pad {
                assert(z[i] == d[i - pad]);
                assert(is_digit(d[i - pad]));
            }
        } else {
            assert(is_digit(d[i]));
        }
    }
}

fn role_text(bytes: Vec<u8>) -> (text: String)
    requires
        forall|i: int| 0 <= i < bytes@.len() ==> #[trigger] bytes@[i] < 128,
    ensures
        text_bytes(text@) == bytes@,
{
    proof {
        lemma_ascii_bytes_valid_utf8(bytes@);
    }
    match utf8_text(bytes.as_slice()) {
        Some(text) => text,
        None => {
            assert(false);
            String::new()
        },
    }
}

fn numbered_role(prefix: Vec<u8>, index: usize) -> (text: String)
    requires
        forall|i: int| 0 <= i < prefix@.len() ==> #[trigger] prefix@[i] < 128,
    ensures
        text_bytes(text@) == prefix@ + zero_padded(index as nat, 4),
{
    let mut bytes = prefix;
    let ghost head = bytes@;
    push_zero_padded(&mut bytes, index as u64, 4);
    proof {
        lemma_zero_padded_ascii(index as nat, 4);
        assert forall|i: int| 0 <= i < bytes@.len() implies #[trigger] bytes@[i] < 128 by {
            if i >= head.len() {
                assert(bytes@[i] == zero_padded(index as nat, 4)[i - head.len()]);
            }
        }
    }
    role_text(bytes)
}

fn catalog_role(role: PortfolioCatalogEvidenceRole, member_index: usize) -> (text: String)
    ensures
        text_bytes(text@) == catalog_input_role(role, member_index as nat),
{
    match role {
        PortfolioCatalogEvidenceRole::MemberPortfolio => {
            let prefix: Vec<u8> = vec![99u8, 97, 116, 97, 108, 111, 103, 46, 109, 101, 109, 98, 101, 114, 46];
            assert(prefix@ =~= member_role_prefix());
            numbered_role(prefix, member_index)
        },
        PortfolioCatalogEvidenceRole::Benchmark => {
            let bytes: Vec<u8> = vec![99u8, 97, 116, 97, 108, 111, 103, 46, 98, 101, 110, 99, 104, 109, 97, 114, 107];
            assert(bytes@ =~= benchmark_role_text());
            role_text(bytes)
        },
        PortfolioCatalogEvidenceRole::MetricConvention => {
            let bytes: Vec<u8> = vec![
                99u8, 97, 116, 97, 108, 111, 103, 46, 109, 101, 116, 114, 105, 99, 95, 99, 111, 110,
                118, 101, 110, 116, 105, 111, 110,
            ];
            assert(bytes@ =~= convention_role_text());
            role_text(bytes)
        },
        _ => {
            let bytes: Vec<u8> = vec![99u8, 97, 116, 97, 108, 111, 103, 46, 115, 101, 108, 101, 99, 116, 101, 100];
            assert(bytes@ =~= selected_role_text());
            role_text(bytes)
        },
    }
}

fn catalog_kind(role: PortfolioCatalogEvidenceRole) -> (kind: FormalInputKind)
    ensures
        kind == catalog_input_kind(role),
{
    match role {
        PortfolioCatalogEvidenceRole::SelectedBook => FormalInputKind::Book,
        PortfolioCatalogEvidenceRole::SelectedGroup => FormalInputKind::PortfolioGroup,
        PortfolioCatalogEvidenceRole::SelectedPortfolio => FormalInputKind::Portfolio,
        PortfolioCatalogEvidenceRole::MemberPortfolio => FormalInputKind::Portfolio,
        PortfolioCatalogEvidenceRole::Benchmark => FormalInputKind::Benchmark,
        PortfolioCatalogEvidenceRole::MetricConvention => FormalInputKind::PortfolioMetricConvention,
    }
}

/// The formal inputs of an overview's scope: one per catalog binding, in evidence order, with
/// member portfolios numbered in the order they appear, then one per member position snapshot,
/// numbered in order.
pub fn portfolio_scope_formal_inputs(
    owner: &OwnerRef,
    evidence: &[PortfolioCatalogEvidenceBinding],
    snapshots: &[PositionSnapshotBinding],
) -> (inputs: Vec<FormalInputEntry>)
    ensures
        inputs@.len() == evidence@.len() + snapshots@.len(),
        forall|i: int|
            0 <= i < evidence@.len() ==> catalog_input_is(
                #[trigger] inputs@[i],
                *owner,
                evidence@[i],
                members_before(evidence@, i),
            ),
        forall|k: int|
            0 <= k < snapshots@.len() ==> snapshot_input_is(
                #[trigger] inputs@[evidence@.len() + k],
                *owner,
                snapshots@[k],
                k as nat,
            ),
{
    let mut inputs: Vec<FormalInputEntry> = Vec::new();
    let mut member_index: usize = 0;
    let mut i: usize = 0;
    while i < evidence.len()
        invariant
            i <= evidence@.len(),
            inputs@.len() == i,
            member_index == members_before(evidence@, i as int),
            member_index <= i,
            forall|k: int|
                0 <= k < i ==> catalog_input_is(
                    #[trigger] inputs@[k],
                    *owner,
                    evidence@[k],
                    members_before(evidence@, k),
                ),
        decreases evidence@.len() - i,
    {
        let binding = &evidence[i];
        let reference = LineageRef::new(
            binding.reference.id.clone(),
            Some(binding.reference.version),
            Some(binding.content_hash.clone()),
        );
        inputs.push(
            FormalInputEntry {
                role: catalog_role(binding.role, member_index),
                kind: catalog_kind(binding.role),
                owner: owner.duplicate(),
                reference: FormalInputReference::Object(reference),
                observed_at: None,
                visible_at: Some(binding.visible_at.duplicate()),
                effective_from: Some(binding.effective_from.duplicate()),
                effective_to: Some(binding.effective_to.duplicate()),
            },
        );
        if binding.role == PortfolioCatalogEvidenceRole::MemberPortfolio {
            member_index = member_index + 1;
        }
        i = i + 1;
    }
    let mut k: usize = 0;
    while k < snapshots.len()
        invariant
            k <= snapshots@.len(),
            inputs@.len() == evidence@.len() + k,
            forall|j: int|
                0 <= j < evidence@.len() ==> catalog_input_is(
                    #[trigger] inputs@[j],
                    *owner,
                    evidence@[j],
                    members_before(evidence@, j),
                ),
            forall|j: int|
                0 <= j < k ==> snapshot_input_is(
                    #[trigger] inputs@[evidence@.len() + j],
                    *owner,
                    snapshots@[j],
                    j as nat,
                ),
        decreases snapshots@.len() - k,
    {
        let snapshot = &snapshots[k];
        let prefix: Vec<u8> = vec![
            112u8, 111, 115, 105, 116, 105, 111, 110, 95, 115, 110, 97, 112, 115, 104, 111, 116, 46,
        ];
        assert(prefix@ =~= snapshot_role_prefix());
        let reference = LineageRef::new(snapshot.snapshot_id.clone(), None, Some(snapshot.content_hash.clone()));
        let ghost before = inputs@;
        inputs.push(
            FormalInputEntry {
                role: numbered_role(prefix, k),
                kind: FormalInputKind::PositionSnapshot,
                owner: owner.duplicate(),
                reference: FormalInputReference::Object(reference),
                observed_at: Some(snapshot.observed_at.duplicate()),
                visible_at: Some(snapshot.visible_at.duplicate()),
                effective_from: None,
                effective_to: None,
            },
        );
        assert(forall|j: int| 0 <= j < before.len() ==> inputs@[j] == before[j]);
        k = k + 1;
    }
    inputs
}

/// The role prefix of a member's key-rate definition inputs: `member.`, the member number with
/// at least four digits, then `.risk.`.
pub open spec fn member_risk_prefix(member_index: nat) -> Seq<u8> {
    seq![109u8, 101, 109, 98, 101, 114, 46] + zero_padded(member_index, 4) + seq![46u8, 114, 105, 115, 107, 46]
}

/// The role prefix of the benchmark's key-rate definition inputs.
pub open spec fn benchmark_risk_prefix() -> Seq<u8> {
    seq![98u8, 101, 110, 99, 104, 109, 97, 114, 107, 46, 114, 105, 115, 107, 46]
}

/// The kind of input a named definition is.
pub open spec fn risk_input_kind(kind: PortfolioRiskNamedEvidenceKind) -> FormalInputKind {
    match kind {
        PortfolioRiskNamedEvidenceKind::FactorDefinition => FormalInputKind::FactorDefinition,
        PortfolioRiskNamedEvidenceKind::CurveNodeDefinition => FormalInputKind::CurveNodeDefinition,
    }
}

/// The input of one named definition a key-rate calculation consumed: its role, kind, the
/// owner, the definition's name and content hash, and the times it carries.
pub open spec fn risk_input_is(
    entry: FormalInputEntry,
    owner: OwnerRef,
    binding: PortfolioRiskNamedEvidenceBinding,
    role: Seq<u8>,
) -> bool {
    &&& role_key(entry) == role
    &&& entry.kind == risk_input_kind(binding.kind)
    &&& entry.owner == owner
    &&& (entry.reference matches FormalInputReference::Named(identity, hash) && identity@
        == binding.identity@ && hash@ == binding.content_hash@)
    &&& entry.observed_at == binding.observed_at
    &&& entry.visible_at == binding.visible_at
    &&& entry.effective_from == binding.effective_from
    &&& entry.effective_to == binding.effective_to
}

fn copy_time(time: &Option<MarketTime>) -> (copy: Option<MarketTime>)
    ensures
        copy == *time,
{
    match time {
        Some(t) => Some(t.duplicate()),
        None => None,
    }
}

fn risk_kind(kind: PortfolioRiskNamedEvidenceKind) -> (input_kind: FormalInputKind)
    ensures
        input_kind == risk_input_kind(kind),
{
    match kind {
        PortfolioRiskNamedEvidenceKind::FactorDefinition => FormalInputKind::FactorDefinition,
        PortfolioRiskNamedEvidenceKind::CurveNodeDefinition => FormalInputKind::CurveNodeDefinition,
    }
}

fn risk_formal_inputs(
    owner: &OwnerRef,
    prefix: &Vec<u8>,
    inputs: &[PortfolioRiskNamedEvidenceBinding],
) -> (entries: Vec<FormalInputEntry>)
    requires
        forall|i: int| 0 <= i < prefix@.len() ==> #[trigger] prefix@[i] < 128,
    ensures
        entries@.len() == inputs@.len(),
        forall|k: int|
            0 <= k < inputs@.len() ==> risk_input_is(
                #[trigger] entries@[k],
                *owner,
                inputs@[k],
                prefix@ + zero_padded(k as nat, 4),
            ),
{
    let mut entries: Vec<FormalInputEntry> = Vec::new();
    let mut k: usize = 0;
    while k < inputs.len()
        invariant
            k <= inputs@.len(),
            entries@.len() == k,
            forall|i: int| 0 <= i < prefix@.len() ==> #[trigger] prefix@[i] < 128,
            forall|j: int|
                0 <= j < k ==> risk_input_is(
                    #[trigger] entries@[j],
                    *owner,
                    inputs@[j],
                    prefix@ + zero_padded(j as nat, 4),
                ),
        decreases inputs@.len() - k,
    {
        let input = &inputs[k];
        entries.push(
            FormalInputEntry {
                role: numbered_role(prefix.clone(), k),
                kind: risk_kind(input.kind),
                owner: owner.duplicate(),
                reference: FormalInputReference::Named(input.identity.clone(), input.content_hash.clone()),
                observed_at: copy_time(&input.observed_at),
                visible_at: copy_time(&input.visible_at),
                effective_from: copy_time(&input.effective_from),
                effective_to: copy_time(&input.effective_to),
            },
        );
        k = k + 1;
    }
    entries
}

/// The formal inputs of the named definitions one member's key-rate calculation consumed,
/// numbered in order under the member's number.
pub fn member_risk_formal_inputs(
    owner: &OwnerRef,
    member_index: usize,
    inputs: &[PortfolioRiskNamedEvidenceBinding],
) -> (entries: Vec<FormalInputEntry>)
    ensures
        entries@.len() == inputs@.len(),
        forall|k: int|
            0 <= k < inputs@.len() ==> risk_input_is(
                #[trigger] entries@[k],
                *owner,
                inputs@[k],
                member_risk_prefix(member_index as nat) + zero_padded(k as nat, 4),
            ),
{
    let mut prefix: Vec<u8> = vec![109u8, 101, 109, 98, 101, 114, 46];
    push_zero_padded(&mut prefix, member_index as u64, 4);
    let tail: Vec<u8> = vec![46u8, 114, 105, 115, 107, 46];
    push_all(&mut prefix, tail.as_slice());
    proof {
        assert(prefix@ =~= member_risk_prefix(member_index as nat));
        lemma_zero_padded_ascii(member_index as nat, 4);
        assert forall|i: int| 0 <= i < prefix@.len() implies #[trigger] prefix@[i] < 128 by {
            let z = zero_padded(member_index as nat, 4);
            if 7 <= i < 7 + z.len() {
                assert(prefix@[i] == z[i - 7]);
            }
        }
    }
    risk_formal_inputs(owner, &prefix, inputs)
}

/// The formal inputs of the named definitions the benchmark's key-rate calculation consumed,
/// numbered in order.
pub fn benchmark_risk_formal_inputs(owner: &OwnerRef, inputs: &[PortfolioRiskNamedEvidenceBinding]) -> (entries:
    Vec<FormalInputEntry>)
    ensures
        entries@.len() == inputs@.len(),
        forall|k: int|
            0 <= k < inputs@.len() ==> risk_input_is(
                #[trigger] entries@[k],
                *owner,
                inputs@[k],
                benchmark_risk_prefix() + zero_padded(k as nat, 4),
            ),
{
    let prefix: Vec<u8> = vec![98u8, 101, 110, 99, 104, 109, 97, 114, 107, 46, 114, 105, 115, 107, 46];
    assert(prefix@ =~= benchmark_risk_prefix());
    risk_formal_inputs(owner, &prefix, inputs)
}

} // verus!
