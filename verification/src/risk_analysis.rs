use vstd::prelude::*;
use vstd::multiset::Multiset;

use crate::aggregation::FactorDv01;
use crate::bytes::{
    bytes_equal, bytes_less, lemma_lex_irreflexive, lemma_lex_total, lemma_lex_transitive, lex_less, text_bytes,
};
use crate::error::{ApplicationErrorCategory, ApplicationResult, failure, lineage};
use crate::primitives::MarketTime;
use crate::text::same_text;

verus! {

broadcast use vstd::seq_lib::group_to_multiset_ensures;

/// The kind of named definition a key-rate calculation consumed.
#[derive(Clone, Copy, Debug, PartialEq, Eq, Structural)]
pub enum PortfolioRiskNamedEvidenceKind {
    FactorDefinition,
    CurveNodeDefinition,
}

/// One exact named definition consumed by a key-rate calculation, with the times it was
/// observed, made visible and in effect, where they are known.
#[derive(Clone, Debug)]
pub struct PortfolioRiskNamedEvidenceBinding {
    pub kind: PortfolioRiskNamedEvidenceKind,
    pub identity: String,
    pub content_hash: Vec<u8>,
    pub observed_at: Option<MarketTime>,
    pub visible_at: Option<MarketTime>,
    pub effective_from: Option<MarketTime>,
    pub effective_to: Option<MarketTime>,
}

/// Each named definition kind's number, in the order the kinds are declared.
pub open spec fn kind_code(kind: PortfolioRiskNamedEvidenceKind) -> u8 {
    match kind {
        PortfolioRiskNamedEvidenceKind::FactorDefinition => 0,
        PortfolioRiskNamedEvidenceKind::CurveNodeDefinition => 1,
    }
}

/// What the binding of a key-rate result reads of its exposure: the factor totals, and the
/// evidence hashes of every input its positions consumed.
#[derive(Debug)]
pub struct KeyRateExposureFacts {
    pub totals: Vec<FactorDv01>,
    pub input_evidence_hashes: Vec<Vec<u8>>,
}

/// A verified key-rate result bound to every factor and curve node definition it consumed.
#[derive(Debug)]
pub struct PortfolioRiskAnalysis {
    exposure: KeyRateExposureFacts,
    actual_inputs: Vec<PortfolioRiskNamedEvidenceBinding>,
}

/// The order key of a consumed definition: its kind, then its identity as bytes.
pub open spec fn input_key(binding: PortfolioRiskNamedEvidenceBinding) -> (u8, Seq<u8>) {
    (kind_code(binding.kind), text_bytes(binding.identity@))
}

/// Strict order of definition keys.
pub open spec fn input_key_less(a: (u8, Seq<u8>), b: (u8, Seq<u8>)) -> bool {
    a.0 < b.0 || (a.0 == b.0 && lex_less(a.1, b.1))
}

/// No definition is listed twice under the same kind and identity.
pub open spec fn inputs_distinct(inputs: Seq<PortfolioRiskNamedEvidenceBinding>) -> bool {
    forall|i: int, j: int|
        0 <= i < inputs.len() && 0 <= j < inputs.len() && i != j ==> input_key(#[trigger] inputs[i])
            != input_key(#[trigger] inputs[j])
}

/// Definitions in strictly ascending order of kind, then identity.
pub open spec fn inputs_ascending(inputs: Seq<PortfolioRiskNamedEvidenceBinding>) -> bool {
    forall|i: int, j: int| 0 <= i < j < inputs.len() ==> input_key_less(input_key(#[trigger] inputs[i]), input_key(#[trigger] inputs[j]))
}

/// How many definitions of one kind are listed.
pub open spec fn kind_count(inputs: Seq<PortfolioRiskNamedEvidenceBinding>, kind: PortfolioRiskNamedEvidenceKind) -> nat
    decreases inputs.len(),
{
    if inputs.len() == 0 {
        0
    } else {
        kind_count(inputs.drop_last(), kind) + if inputs.last().kind == kind {
            1nat
        } else {
            0nat
        }
    }
}

/// Some factor definition names the factor and its definition hash.
pub open spec fn names_factor(inputs: Seq<PortfolioRiskNamedEvidenceBinding>, total: FactorDv01) -> bool {
    exists|i: int|
        0 <= i < inputs.len() && (#[trigger] inputs[i]).kind == PortfolioRiskNamedEvidenceKind::FactorDefinition
            && inputs[i].identity@ == total.factor_id@ && inputs[i].content_hash@
            == total.factor_definition_hash@
}

/// A content hash is among the evidence hashes of the exposure's inputs.
pub open spec fn hash_consumed(hashes: Seq<Vec<u8>>, hash: Seq<u8>) -> bool {
    exists|j: int| 0 <= j < hashes.len() && (#[trigger] hashes[j])@ == hash
}

/// The definitions bind the exposure exactly: there is some factor, no definition repeats,
/// there is one factor and one curve node definition per factor total, every factor total is
/// named with its definition hash, and every curve node definition is one the positions
/// consumed.
pub open spec fn inputs_bind_exposure(
    exposure: KeyRateExposureFacts,
    inputs: Seq<PortfolioRiskNamedEvidenceBinding>,
) -> bool {
    let totals = exposure.totals@;
    &&& totals.len() > 0
    &&& inputs_distinct(inputs)
    &&& kind_count(inputs, PortfolioRiskNamedEvidenceKind::FactorDefinition) == totals.len()
    &&& kind_count(inputs, PortfolioRiskNamedEvidenceKind::CurveNodeDefinition) == totals.len()
    &&& forall|t: int| 0 <= t < totals.len() ==> names_factor(inputs, #[trigger] totals[t])
    &&& forall|i: int|
        0 <= i < inputs.len() && (#[trigger] inputs[i]).kind == PortfolioRiskNamedEvidenceKind::CurveNodeDefinition
            ==> hash_consumed(exposure.input_evidence_hashes@, inputs[i].content_hash@)
}

proof fn lemma_input_key_order(a: (u8, Seq<u8>), b: (u8, Seq<u8>), c: (u8, Seq<u8>))
    ensures
        !input_key_less(a, a),
        input_key_less(a, b) && input_key_less(b, c) ==> input_key_less(a, c),
        a != b ==> input_key_less(a, b) || input_key_less(b, a),
{
    lemma_lex_irreflexive(a.1);
    if input_key_less(a, b) && input_key_less(b, c) && a.0 == b.0 && b.0 == c.0 {
        lemma_lex_transitive(a.1, b.1, c.1);
    }
    if a != b && a.0 == b.0 {
        lemma_lex_total(a.1, b.1);
    }
}

pub(crate) fn kind_number(kind: PortfolioRiskNamedEvidenceKind) -> (code: u8)
    ensures
        code == kind_code(kind),
{
    match kind {
        PortfolioRiskNamedEvidenceKind::FactorDefinition => 0,
        PortfolioRiskNamedEvidenceKind::CurveNodeDefinition => 1,
    }
}

fn key_before(a: &PortfolioRiskNamedEvidenceBinding, b: &PortfolioRiskNamedEvidenceBinding) -> (less: bool)
    ensures
        less == input_key_less(input_key(*a), input_key(*b)),
{
    let ak = kind_number(a.kind);
    let bk = kind_number(b.kind);
    ak < bk || (ak == bk && bytes_less(a.identity.as_str().as_bytes(), b.identity.as_str().as_bytes()))
}

fn same_key(a: &PortfolioRiskNamedEvidenceBinding, b: &PortfolioRiskNamedEvidenceBinding) -> (same: bool)
    ensures
        same == (input_key(*a) == input_key(*b)),
{
    kind_number(a.kind) == kind_number(b.kind) && bytes_equal(
        a.identity.as_str().as_bytes(),
        b.identity.as_str().as_bytes(),
    )
}

fn keys_distinct(inputs: &[PortfolioRiskNamedEvidenceBinding]) -> (distinct: bool)
    ensures
        distinct == inputs_distinct(inputs@),
{
    let mut i: usize = 0;
    while i < inputs.len()
        invariant
            i <= inputs@.len(),
            forall|a: int, b: int|
                0 <= a < i && 0 <= b < inputs@.len() && a != b ==> input_key(#[trigger] inputs@[a])
                    != input_key(#[trigger] inputs@[b]),
        decreases inputs@.len() - i,
    {
        let mut j: usize = 0;
        while j < inputs.len()
            invariant
                i < inputs@.len(),
                j <= inputs@.len(),
                forall|a: int, b: int|
                    0 <= a < i && 0 <= b < inputs@.len() && a != b ==> input_key(#[trigger] inputs@[a])
                        != input_key(#[trigger] inputs@[b]),
                forall|b: int| 0 <= b < j && b != i ==> input_key(inputs@[i as int]) != input_key(#[trigger] inputs@[b]),
            decreases inputs@.len() - j,
        {
            if j != i && same_key(&inputs[i], &inputs[j]) {
                return false;
            }
            j = j + 1;
        }
        i = i + 1;
    }
    true
}

fn count_kind(inputs: &[PortfolioRiskNamedEvidenceBinding], kind: PortfolioRiskNamedEvidenceKind) -> (count: usize)
    ensures
        count == kind_count(inputs@, kind),
{
    let mut count: usize = 0;
    let mut i: usize = 0;
    while i < inputs.len()
        invariant
            i <= inputs@.len(),
            count <= i,
            count == kind_count(inputs@.subrange(0, i as int), kind),
        decreases inputs@.len() - i,
    {
        assert(inputs@.subrange(0, i + 1).drop_last() =~= inputs@.subrange(0, i as int));
        if inputs[i].kind == kind {
            count = count + 1;
        }
        i = i + 1;
    }
    assert(inputs@.subrange(0, inputs@.len() as int) =~= inputs@);
    count
}

fn factor_named(inputs: &[PortfolioRiskNamedEvidenceBinding], total: &FactorDv01) -> (named: bool)
    ensures
        named == names_factor(inputs@, *total),
{
    let mut i: usize = 0;
    while i < inputs.len()
        invariant
            i <= inputs@.len(),
            forall|k: int|
                0 <= k < i ==> !((#[trigger] inputs@[k]).kind == PortfolioRiskNamedEvidenceKind::FactorDefinition
                    && inputs@[k].identity@ == total.factor_id@ && inputs@[k].content_hash@
                    == total.factor_definition_hash@),
        decreases inputs@.len() - i,
    {
        let input = &inputs[i];
        if input.kind == PortfolioRiskNamedEvidenceKind::FactorDefinition && same_text(&input.identity, &total.factor_id)
            && bytes_equal(input.content_hash.as_slice(), total.factor_definition_hash.as_slice()) {
            return true;
        }
        i = i + 1;
    }
    false
}

fn hash_listed(hashes: &[Vec<u8>], hash: &Vec<u8>) -> (listed: bool)
    ensures
        listed == hash_consumed(hashes@, hash@),
{
    let mut j: usize = 0;
    while j < hashes.len()
        invariant
            j <= hashes@.len(),
            forall|k: int| 0 <= k < j ==> (#[trigger] hashes@[k])@ != hash@,
        decreases hashes@.len() - j,
    {
        if bytes_equal(hashes[j].as_slice(), hash.as_slice()) {
            return true;
        }
        j = j + 1;
    }
    false
}

fn sort_inputs(inputs: Vec<PortfolioRiskNamedEvidenceBinding>) -> (sorted: Vec<PortfolioRiskNamedEvidenceBinding>)
    requires
        inputs_distinct(inputs@),
    ensures
        sorted@.to_multiset() == inputs@.to_multiset(),
        inputs_ascending(sorted@),
{
    let ghost all = inputs@;
    let mut input = inputs;
    let mut sorted: Vec<PortfolioRiskNamedEvidenceBinding> = Vec::new();
    while input.len() > 0
        invariant
            sorted@.to_multiset().add(input@.to_multiset()) == all.to_multiset(),
            inputs_ascending(sorted@),
            inputs_distinct(input@),
            forall|a: int, b: int|
                0 <= a < sorted@.len() && 0 <= b < input@.len() ==> input_key(#[trigger] sorted@[a])
                    != input_key(#[trigger] input@[b]),
        decreases input.len(),
    {
        let ghost before_input = input@;
        let ghost before_sorted = sorted@;
        let entry = input.pop().unwrap();
        proof {
            assert(before_input =~= input@.push(entry));
            assert forall|a: int| 0 <= a < before_sorted.len() implies input_key(#[trigger] before_sorted[a])
                != input_key(entry) by {
                assert(entry == before_input[before_input.len() - 1]);
            }
        }
        let mut p: usize = 0;
        while p < sorted.len() && !key_before(&entry, &sorted[p])
            invariant
                p <= sorted@.len(),
                sorted@ == before_sorted,
                forall|q: int| 0 <= q < p ==> !input_key_less(input_key(entry), input_key(#[trigger] sorted@[q])),
            decreases sorted.len() - p,
        {
            p = p + 1;
        }
        sorted.insert(p, entry);
        proof {
            let s = sorted@;
            assert(s == before_sorted.insert(p as int, entry));
            assert forall|i: int, j: int| 0 <= i < j < s.len() implies input_key_less(
                input_key(#[trigger] s[i]),
                input_key(#[trigger] s[j]),
            ) by {
                if i < p && j == p {
                    lemma_input_key_order(input_key(entry), input_key(before_sorted[i]), input_key(entry));
                } else if i == p && j > p {
                    if j - 1 > p {
                        lemma_input_key_order(
                            input_key(entry),
                            input_key(before_sorted[p as int]),
                            input_key(before_sorted[j - 1]),
                        );
                    }
                } else if i < p && j > p {
                    assert(s[i] == before_sorted[i]);
                    assert(s[j] == before_sorted[j - 1]);
                } else if j < p {
                    assert(s[i] == before_sorted[i]);
                    assert(s[j] == before_sorted[j]);
                } else {
                    assert(s[i] == before_sorted[i - 1]);
                    assert(s[j] == before_sorted[j - 1]);
                }
            }
            assert forall|a: int, b: int| 0 <= a < s.len() && 0 <= b < input@.len() implies input_key(
                #[trigger] s[a],
            ) != input_key(#[trigger] input@[b]) by {
                assert(input@[b] == before_input[b]);
                if a < p {
                    assert(s[a] == before_sorted[a]);
                } else if a > p {
                    assert(s[a] == before_sorted[a - 1]);
                } else {
                    assert(entry == before_input[before_input.len() - 1]);
                }
            }
            assert forall|a: int, b: int|
                0 <= a < input@.len() && 0 <= b < input@.len() && a != b implies input_key(
                #[trigger] input@[a],
            ) != input_key(#[trigger] input@[b]) by {
                assert(input@[a] == before_input[a]);
                assert(input@[b] == before_input[b]);
            }
        }
    }
    proof {
        assert(input@ =~= Seq::<PortfolioRiskNamedEvidenceBinding>::empty());
        assert(input@.to_multiset() =~= Multiset::empty());
    }
    sorted
}

impl PortfolioRiskAnalysis {
    pub closed spec fn spec_exposure(&self) -> KeyRateExposureFacts {
        self.exposure
    }

    pub closed spec fn spec_actual_inputs(&self) -> Seq<PortfolioRiskNamedEvidenceBinding> {
        self.actual_inputs@
    }

    /// Binds a verified key-rate result to every factor and curve node definition it consumed,
    /// kept in order of kind, then identity. A lineage error when there is no factor total, or
    /// when a definition is missing, extra, repeated or names another hash.
    pub fn new(exposure: KeyRateExposureFacts, actual_inputs: Vec<PortfolioRiskNamedEvidenceBinding>) -> (result:
        ApplicationResult<Self>)
        ensures
            result is Ok <==> inputs_bind_exposure(exposure, actual_inputs@),
            result matches Ok(analysis) ==> analysis.spec_exposure() == exposure
                && analysis.spec_actual_inputs().to_multiset() == actual_inputs@.to_multiset()
                && inputs_ascending(analysis.spec_actual_inputs()),
            result matches Err(e) ==> e == failure(ApplicationErrorCategory::LineageIncomplete),
    {
        let totals = exposure.totals.as_slice();
        if totals.len() == 0 || !keys_distinct(actual_inputs.as_slice()) {
            return Err(lineage());
        }
        if count_kind(actual_inputs.as_slice(), PortfolioRiskNamedEvidenceKind::FactorDefinition) != totals.len()
            || count_kind(actual_inputs.as_slice(), PortfolioRiskNamedEvidenceKind::CurveNodeDefinition)
            != totals.len() {
            return Err(lineage());
        }
        let mut t: usize = 0;
        while t < totals.len()
            invariant
                t <= totals@.len(),
                totals@ == exposure.totals@,
                forall|k: int| 0 <= k < t ==> names_factor(actual_inputs@, #[trigger] totals@[k]),
            decreases totals@.len() - t,
        {
            if !factor_named(actual_inputs.as_slice(), &totals[t]) {
                return Err(lineage());
            }
            t = t + 1;
        }
        let mut i: usize = 0;
        while i < actual_inputs.len()
            invariant
                i <= actual_inputs@.len(),
                forall|k: int|
                    0 <= k < i && (#[trigger] actual_inputs@[k]).kind
                        == PortfolioRiskNamedEvidenceKind::CurveNodeDefinition ==> hash_consumed(
                        exposure.input_evidence_hashes@,
                        actual_inputs@[k].content_hash@,
                    ),
            decreases actual_inputs@.len() - i,
        {
            let input = &actual_inputs[i];
            if input.kind == PortfolioRiskNamedEvidenceKind::CurveNodeDefinition && !hash_listed(
                exposure.input_evidence_hashes.as_slice(),
                &input.content_hash,
            ) {
                return Err(lineage());
            }
            i = i + 1;
        }
        let sorted = sort_inputs(actual_inputs);
        Ok(PortfolioRiskAnalysis { exposure, actual_inputs: sorted })
    }

    /// The bound key-rate result.
    pub fn exposure(&self) -> (exposure: &KeyRateExposureFacts)
        ensures
            *exposure == self.spec_exposure(),
    {
        &self.exposure
    }

    /// The consumed definitions, in order of kind, then identity.
    pub fn actual_inputs(&self) -> (inputs: &[PortfolioRiskNamedEvidenceBinding])
        ensures
            inputs@ == self.spec_actual_inputs(),
    {
        self.actual_inputs.as_slice()
    }
}

} // verus!
