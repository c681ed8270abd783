use vstd::prelude::*;

use crate::bytes::{bytes_less, lemma_lex_irreflexive, lemma_lex_total, lemma_lex_transitive, lex_less, text_bytes};
use crate::decimal::{
    DecimalValue, FixedDecimal, converts_to_fixed, decimal_to_fixed, fixed_scaled_of, in_i128,
    pow10, checked_power_of_ten,
};
use crate::decimal::UnitRef;
use crate::error::{ApplicationErrorCategory, ApplicationResult, failure, lineage, validation};
use crate::evidence::{market_times_equal, same_time};
use crate::primitives::{MarketTime, OwnerRef, VersionRef, instant_before, instant_less};
use crate::text::same_text;

verus! {

/// Conversion of a quoted or registered decimal to the fixed twelve-place scale, which must not
/// lose digits: validation failure above twelve places or on overflow.
pub fn delivery_decimal_to_fixed(value: &DecimalValue) -> (result: ApplicationResult<FixedDecimal>)
    ensures
        result is Ok <==> (value.scale <= 12 && in_i128(
            value.coefficient * pow10((12 - value.scale) as nat),
        )),
        result matches Ok(f) ==> f.scaled == value.coefficient * pow10((12 - value.scale) as nat),
        result matches Err(e) ==> e == failure(ApplicationErrorCategory::ValidationFailed),
{
    if value.scale > 12 {
        return Err(validation());
    }
    let factor = checked_power_of_ten(12 - value.scale)?;
    match value.coefficient.checked_mul(factor) {
        Some(scaled) => Ok(FixedDecimal::from_scaled(scaled)),
        None => Err(validation()),
    }
}

/// Whether a decimal denotes exactly the given fixed value.
pub fn decimal_matches_fixed(value: &DecimalValue, expected: FixedDecimal) -> (matches: bool)
    ensures
        matches == (fixed_scaled_of(value.coefficient as int, value.scale as nat) == Some(
            expected.scaled as int,
        )),
{
    match decimal_to_fixed(value) {
        Ok(fixed) => fixed.scaled == expected.scaled,
        Err(_) => false,
    }
}

/// The exact midpoint of a two-sided quote: validation failure for a missing side, an
/// overflowing sum, or a midpoint between two representable values.
pub fn exact_midpoint(bid: Option<FixedDecimal>, ask: Option<FixedDecimal>) -> (result:
    ApplicationResult<FixedDecimal>)
    ensures
        result is Ok <==> (bid is Some && ask is Some && in_i128(
            bid->0.scaled + ask->0.scaled,
        ) && (bid->0.scaled + ask->0.scaled) % 2 == 0),
        result matches Ok(mid) ==> 2 * mid.scaled == bid->0.scaled + ask->0.scaled,
        result matches Err(e) ==> e == failure(ApplicationErrorCategory::ValidationFailed),
{
    let bid = match bid {
        Some(value) => value,
        None => {
            return Err(validation());
        },
    };
    let ask = match ask {
        Some(value) => value,
        None => {
            return Err(validation());
        },
    };
    let sum = match bid.scaled.checked_add(ask.scaled) {
        Some(value) => value,
        None => {
            return Err(validation());
        },
    };
    let half = if sum >= 0 {
        sum / 2
    } else {
        -((-(sum + 1)) / 2) - 1
    };
    if 2 * half != sum {
        return Err(validation());
    }
    Ok(FixedDecimal::from_scaled(half))
}

/// Whether a requested price equals the bid or the ask of a quote.
pub fn quote_matches(bid: Option<FixedDecimal>, ask: Option<FixedDecimal>, requested: FixedDecimal) -> (matches:
    bool)
    ensures
        matches == (bid == Some(requested) || ask == Some(requested)),
{
    let bid_matches = match bid {
        Some(value) => value.scaled == requested.scaled,
        None => false,
    };
    let ask_matches = match ask {
        Some(value) => value.scaled == requested.scaled,
        None => false,
    };
    bid_matches || ask_matches
}

/// What cheapest-to-deliver selection reads of a deliverable bond's result.
#[derive(Debug)]
pub struct CtdCandidate {
    pub implied_repo_rate: FixedDecimal,
    pub net_basis: FixedDecimal,
    pub bond_id: String,
}

/// `a` is preferred to `b`: a higher implied repo rate, then a lower net basis, then the
/// smaller bond identifier.
pub open spec fn ctd_preferred(a: CtdCandidate, b: CtdCandidate) -> bool {
    ||| a.implied_repo_rate.scaled > b.implied_repo_rate.scaled
    ||| (a.implied_repo_rate.scaled == b.implied_repo_rate.scaled && (a.net_basis.scaled
        < b.net_basis.scaled || (a.net_basis.scaled == b.net_basis.scaled && lex_less(
        text_bytes(a.bond_id@),
        text_bytes(b.bond_id@),
    ))))
}

/// The selection key of a candidate.
pub open spec fn ctd_key(c: CtdCandidate) -> (int, int, Seq<char>) {
    (c.implied_repo_rate.scaled as int, c.net_basis.scaled as int, c.bond_id@)
}

/// Preference is a strict order, total up to equal keys.
pub proof fn lemma_ctd_order(a: CtdCandidate, b: CtdCandidate, c: CtdCandidate)
    ensures
        !ctd_preferred(a, a),
        ctd_preferred(a, b) ==> !ctd_preferred(b, a),
        ctd_preferred(a, b) && ctd_preferred(b, c) ==> ctd_preferred(a, c),
        !ctd_preferred(a, b) && !ctd_preferred(b, a) ==> ctd_key(a) == ctd_key(b),
        ctd_key(a) == ctd_key(b) ==> (ctd_preferred(a, c) == ctd_preferred(b, c)),
        ctd_key(a) == ctd_key(b) ==> (ctd_preferred(c, a) == ctd_preferred(c, b)),
{
    let ta = text_bytes(a.bond_id@);
    let tb = text_bytes(b.bond_id@);
    let tc = text_bytes(c.bond_id@);
    lemma_lex_irreflexive(ta);
    if lex_less(ta, tb) && lex_less(tb, ta) {
        lemma_lex_transitive(ta, tb, ta);
    }
    if lex_less(ta, tb) && lex_less(tb, tc) {
        lemma_lex_transitive(ta, tb, tc);
    }
    if ta != tb {
        lemma_lex_total(ta, tb);
    } else {
        crate::bytes::lemma_text_bytes_injective(a.bond_id@, b.bond_id@);
    }
}

/// The position of the cheapest-to-deliver candidate: the first one that no other candidate
/// is preferred to.
pub open spec fn is_ctd_index(candidates: Seq<CtdCandidate>, index: int) -> bool {
    &&& 0 <= index < candidates.len()
    &&& forall|j: int| 0 <= j < candidates.len() ==> !ctd_preferred(candidates[j], candidates[index])
    &&& forall|j: int| 0 <= j < index ==> ctd_preferred(candidates[index], candidates[j])
}

fn candidate_preferred(a: &CtdCandidate, b: &CtdCandidate) -> (preferred: bool)
    ensures
        preferred == ctd_preferred(*a, *b),
{
    a.implied_repo_rate.scaled > b.implied_repo_rate.scaled || (a.implied_repo_rate.scaled
        == b.implied_repo_rate.scaled && (a.net_basis.scaled < b.net_basis.scaled || (
    a.net_basis.scaled == b.net_basis.scaled && bytes_less(
        a.bond_id.as_str().as_bytes(),
        b.bond_id.as_str().as_bytes(),
    ))))
}

/// Selects the cheapest-to-deliver bond of a basket by maximum implied repo rate, breaking
/// ties by the lower net basis and then the smaller bond identifier.
pub fn select_ctd(candidates: &[CtdCandidate]) -> (best: usize)
    requires
        candidates@.len() > 0,
    ensures
        is_ctd_index(candidates@, best as int),
{
    let mut best: usize = 0;
    let mut index: usize = 1;
    proof {
        lemma_ctd_order(candidates@[0], candidates@[0], candidates@[0]);
    }
    while index < candidates.len()
        invariant
            0 <= best < index <= candidates@.len(),
            forall|j: int| 0 <= j < index ==> !ctd_preferred(candidates@[j], candidates@[best as int]),
            forall|j: int| 0 <= j < best ==> ctd_preferred(candidates@[best as int], candidates@[j]),
        decreases candidates.len() - index,
    {
        if candidate_preferred(&candidates[index], &candidates[best]) {
            proof {
                let next = candidates@[index as int];
                let old_best = candidates@[best as int];
                assert forall|j: int| 0 <= j < index + 1 implies !ctd_preferred(
                    candidates@[j],
                    next,
                ) by {
                    lemma_ctd_order(next, old_best, candidates@[j]);
                    lemma_ctd_order(candidates@[j], old_best, next);
                    lemma_ctd_order(old_best, candidates@[j], next);
                    lemma_ctd_order(candidates@[j], next, old_best);
                }
                assert forall|j: int| 0 <= j < index implies ctd_preferred(next, candidates@[j]) by {
                    lemma_ctd_order(next, old_best, candidates@[j]);
                    lemma_ctd_order(old_best, candidates@[j], next);
                    lemma_ctd_order(candidates@[j], old_best, next);
                }
            }
            best = index;
        } else {
            proof {
                let next = candidates@[index as int];
                lemma_ctd_order(next, candidates@[best as int], next);
            }
        }
        index = index + 1;
    }
    best
}

/// The cheapest-to-deliver bond has the highest implied repo rate of its basket, and among
/// those the lowest net basis.
pub proof fn law_ctd_has_maximum_implied_repo_rate(candidates: Seq<CtdCandidate>, index: int)
    requires
        is_ctd_index(candidates, index),
    ensures
        forall|j: int|
            0 <= j < candidates.len() ==> #[trigger] candidates[j].implied_repo_rate.scaled
                <= candidates[index].implied_repo_rate.scaled,
        forall|j: int|
            0 <= j < candidates.len() && candidates[j].implied_repo_rate.scaled
                == candidates[index].implied_repo_rate.scaled ==> candidates[index].net_basis.scaled
                <= #[trigger] candidates[j].net_basis.scaled,
{
    assert forall|j: int| 0 <= j < candidates.len() implies #[trigger] candidates[j].implied_repo_rate.scaled
        <= candidates[index].implied_repo_rate.scaled by {
        assert(!ctd_preferred(candidates[j], candidates[index]));
    }
    assert forall|j: int|
        0 <= j < candidates.len() && candidates[j].implied_repo_rate.scaled
            == candidates[index].implied_repo_rate.scaled implies candidates[index].net_basis.scaled
        <= #[trigger] candidates[j].net_basis.scaled by {
        assert(!ctd_preferred(candidates[j], candidates[index]));
    }
}

/// The registered futures instrument and contract terms that a delivery materialization reads.
#[derive(Clone, Debug)]
pub struct FuturesContractFacts {
    pub instrument_owner: OwnerRef,
    pub instrument_ref: VersionRef,
    pub is_futures: bool,
    pub contract_instrument: VersionRef,
    pub product_code: Option<String>,
    pub price_unit: Option<UnitRef>,
    pub last_trade_time: MarketTime,
    pub expiry_time: MarketTime,
    pub settlement_time: MarketTime,
}

/// A registered futures contract can be delivered against at the valuation time: it is the
/// owner's futures instrument of the requested version, it names its product and price Unit,
/// trading has not ended, and its trading, expiry and settlement times are in the valuation's
/// time zone.
pub open spec fn futures_contract_valid(
    contract: FuturesContractFacts,
    owner: OwnerRef,
    requested: VersionRef,
    valuation_at: MarketTime,
) -> bool {
    &&& contract.instrument_owner.tenant_id@ == owner.tenant_id@
    &&& contract.instrument_owner.owner_id@ == owner.owner_id@
    &&& contract.instrument_ref@ == requested@
    &&& contract.is_futures
    &&& contract.product_code is Some
    &&& contract.price_unit is Some
    &&& contract.contract_instrument@ == requested@
    &&& !instant_less(contract.last_trade_time.instant, valuation_at.instant)
    &&& contract.last_trade_time.market_timezone@ == valuation_at.market_timezone@
    &&& contract.expiry_time.market_timezone@ == valuation_at.market_timezone@
    &&& contract.settlement_time.market_timezone@ == valuation_at.market_timezone@
}

/// Checks the registered futures contract of a delivery materialization; incomplete lineage
/// otherwise.
pub fn validate_futures_contract(
    contract: &FuturesContractFacts,
    owner: &OwnerRef,
    requested: &VersionRef,
    valuation_at: &MarketTime,
) -> (result: ApplicationResult<()>)
    ensures
        result is Ok <==> futures_contract_valid(*contract, *owner, *requested, *valuation_at),
        result matches Err(e) ==> e == failure(ApplicationErrorCategory::LineageIncomplete),
{
    if !contract.instrument_owner.same_as(owner) || !contract.instrument_ref.same_as(requested)
        || !contract.is_futures || contract.product_code.is_none() || contract.price_unit.is_none()
        || !contract.contract_instrument.same_as(requested) || instant_before(
        contract.last_trade_time.instant,
        valuation_at.instant,
    ) || !same_text(&contract.last_trade_time.market_timezone, &valuation_at.market_timezone)
        || !same_text(&contract.expiry_time.market_timezone, &valuation_at.market_timezone)
        || !same_text(&contract.settlement_time.market_timezone, &valuation_at.market_timezone) {
        return Err(lineage());
    }
    Ok(())
}

/// The data snapshot a delivery materialization read quotes from.
#[derive(Clone, Debug)]
pub struct DeliveryDataSnapshotFacts {
    pub id: String,
    pub owner: OwnerRef,
    pub as_of: MarketTime,
    pub visible_at: MarketTime,
}

/// A data snapshot serves a delivery materialization: it is the requested snapshot of the
/// owner, taken exactly at the valuation time, and became visible after it was taken and by
/// the knowledge instant.
pub open spec fn delivery_snapshot_valid(
    snapshot: DeliveryDataSnapshotFacts,
    requested_id: Seq<char>,
    owner: OwnerRef,
    valuation_at: MarketTime,
    knowledge_at: MarketTime,
) -> bool {
    &&& snapshot.id@ == requested_id
    &&& snapshot.owner.tenant_id@ == owner.tenant_id@
    &&& snapshot.owner.owner_id@ == owner.owner_id@
    &&& same_time(snapshot.as_of, valuation_at)
    &&& !instant_less(snapshot.visible_at.instant, snapshot.as_of.instant)
    &&& !instant_less(knowledge_at.instant, snapshot.visible_at.instant)
}

/// Checks the data snapshot of a delivery materialization; incomplete lineage otherwise.
pub fn validate_delivery_data_snapshot(
    snapshot: &DeliveryDataSnapshotFacts,
    requested_id: &String,
    owner: &OwnerRef,
    valuation_at: &MarketTime,
    knowledge_at: &MarketTime,
) -> (result: ApplicationResult<()>)
    ensures
        result is Ok <==> delivery_snapshot_valid(
            *snapshot,
            requested_id@,
            *owner,
            *valuation_at,
            *knowledge_at,
        ),
        result matches Err(e) ==> e == failure(ApplicationErrorCategory::LineageIncomplete),
{
    if !same_text(&snapshot.id, requested_id) || !snapshot.owner.same_as(owner) || !market_times_equal(
        &snapshot.as_of,
        valuation_at,
    ) || instant_before(snapshot.visible_at.instant, snapshot.as_of.instant) || instant_before(
        knowledge_at.instant,
        snapshot.visible_at.instant,
    ) {
        return Err(lineage());
    }
    Ok(())
}

/// A deliverable futures contract is the owner's futures instrument of exactly the requested
/// version, names its product and price Unit, has not stopped trading before the valuation,
/// and trades, expires and settles in the valuation's time zone.
pub proof fn law_futures_contract_fields(
    contract: FuturesContractFacts,
    owner: OwnerRef,
    requested: VersionRef,
    valuation_at: MarketTime,
)
    ensures
        futures_contract_valid(contract, owner, requested, valuation_at) ==> {
            &&& contract.instrument_owner.tenant_id@ == owner.tenant_id@
            &&& contract.instrument_owner.owner_id@ == owner.owner_id@
            &&& contract.instrument_ref.id@ == requested.id@
            &&& contract.instrument_ref.version == requested.version
            &&& contract.contract_instrument.id@ == requested.id@
            &&& contract.contract_instrument.version == requested.version
            &&& contract.is_futures
            &&& contract.product_code is Some
            &&& contract.price_unit is Some
            &&& !instant_less(contract.last_trade_time.instant, valuation_at.instant)
            &&& contract.last_trade_time.market_timezone@ == valuation_at.market_timezone@
            &&& contract.expiry_time.market_timezone@ == valuation_at.market_timezone@
            &&& contract.settlement_time.market_timezone@ == valuation_at.market_timezone@
        },
{
}

/// The data snapshot of a delivery is the requested one of the owner, taken exactly at the
/// valuation time (instant, zone and trading date), visible no earlier than it was taken and
/// no later than the knowledge instant.
pub proof fn law_delivery_snapshot_fields(
    snapshot: DeliveryDataSnapshotFacts,
    requested_id: Seq<char>,
    owner: OwnerRef,
    valuation_at: MarketTime,
    knowledge_at: MarketTime,
)
    ensures
        delivery_snapshot_valid(snapshot, requested_id, owner, valuation_at, knowledge_at) ==> {
            &&& snapshot.id@ == requested_id
            &&& snapshot.owner.tenant_id@ == owner.tenant_id@
            &&& snapshot.owner.owner_id@ == owner.owner_id@
            &&& snapshot.as_of.instant == valuation_at.instant
            &&& snapshot.as_of.market_timezone@ == valuation_at.market_timezone@
            &&& snapshot.as_of.local_trading_date == valuation_at.local_trading_date
            &&& !instant_less(snapshot.visible_at.instant, snapshot.as_of.instant)
            &&& !instant_less(knowledge_at.instant, snapshot.visible_at.instant)
        },
{
}

} // verus!
