use vstd::prelude::*;

use crate::bytes::{
    bytes_equal, bytes_less, lemma_lex_irreflexive, lemma_lex_total, lemma_lex_transitive, lex_less,
};
use crate::calendar::date_less;
use crate::decimal::{FixedDecimal, in_i128};
use crate::error::{ApplicationErrorCategory, DomainErrorCode, Rejection, failure, lineage};
use crate::futures::exact_midpoint;
use crate::primitives::{LocalDate, MarketTime, OwnerRef, VersionRef, version_ref_less};
use crate::quotes::DeliveryQuote;

verus! {

/// A requested deliverable bond and the spot clean price the request quotes for it.
#[derive(Clone, Debug)]
pub struct FuturesCandidateFacts {
    pub bond: VersionRef,
    pub spot_clean_price: FixedDecimal,
}

/// The first quote of an instrument is at `i`.
pub open spec fn first_quote_at(quotes: Seq<DeliveryQuote>, reference: VersionRef, i: int) -> bool {
    &&& 0 <= i < quotes.len()
    &&& quotes[i].instrument@ == reference@
    &&& forall|j: int| 0 <= j < i ==> (#[trigger] quotes[j]).instrument@ != reference@
}

/// The snapshot quotes the instrument, and its quote has the price on its bid or its ask.
pub open spec fn quoted_at(quotes: Seq<DeliveryQuote>, reference: VersionRef, price: FixedDecimal) -> bool {
    exists|i: int|
        #[trigger] first_quote_at(quotes, reference, i) && (quotes[i].bid == Some(price) || quotes[i].ask
            == Some(price))
}

/// A request names each deliverable bond once, at least one, and every quoted price — each
/// bond's spot price and the futures price — is the bid or the ask of the snapshot's quote.
pub open spec fn candidates_quoted(
    candidates: Seq<FuturesCandidateFacts>,
    quotes: Seq<DeliveryQuote>,
    futures_contract: VersionRef,
    futures_clean_price: FixedDecimal,
) -> bool {
    &&& candidates.len() > 0
    &&& forall|a: int, b: int|
        0 <= a < candidates.len() && 0 <= b < candidates.len() && a != b ==> (#[trigger] candidates[a]).bond@
            != (#[trigger] candidates[b]).bond@
    &&& forall|a: int| 0 <= a < candidates.len() ==> quoted_at(quotes, (#[trigger] candidates[a]).bond, candidates[a].spot_clean_price)
    &&& quoted_at(quotes, futures_contract, futures_clean_price)
}

fn quote_has_price(quotes: &[DeliveryQuote], reference: &VersionRef, price: FixedDecimal) -> (quoted: bool)
    ensures
        quoted == quoted_at(quotes@, *reference, price),
{
    let mut i: usize = 0;
    while i < quotes.len()
        invariant
            i <= quotes@.len(),
            forall|j: int| 0 <= j < i ==> (#[trigger] quotes@[j]).instrument@ != reference@,
        decreases quotes@.len() - i,
    {
        if quotes[i].instrument.same_as(reference) {
            assert(first_quote_at(quotes@, *reference, i as int));
            let found = crate::futures::quote_matches(quotes[i].bid, quotes[i].ask, price);
            proof {
                if !found {
                    assert forall|k: int| #[trigger] first_quote_at(quotes@, *reference, k) implies !(
                    quotes@[k].bid == Some(price) || quotes@[k].ask == Some(price)) by {
                        assert(k == i);
                    }
                }
            }
            return found;
        }
        i = i + 1;
    }
    proof {
        assert forall|k: int| !#[trigger] first_quote_at(quotes@, *reference, k) by {
            if 0 <= k < quotes@.len() {
                assert(quotes@[k].instrument@ != reference@);
            }
        }
    }
    false
}

/// Checks a delivery request against the quotes of its snapshot: an invalid value when no bond
/// is requested, a bond is requested twice, or a requested spot or futures price is not the
/// bid or ask of the instrument's quote.
pub fn check_requested_candidates(
    candidates: &[FuturesCandidateFacts],
    quotes: &[DeliveryQuote],
    futures_contract: &VersionRef,
    futures_clean_price: FixedDecimal,
) -> (result: Result<(), DomainErrorCode>)
    ensures
        result is Ok <==> candidates_quoted(candidates@, quotes@, *futures_contract, futures_clean_price),
        result matches Err(code) ==> code == DomainErrorCode::InvalidValue,
{
    if candidates.len() == 0 {
        return Err(DomainErrorCode::InvalidValue);
    }
    let mut i: usize = 0;
    while i < candidates.len()
        invariant
            i <= candidates@.len(),
            forall|a: int, b: int|
                0 <= a < i && 0 <= b < i && a != b ==> (#[trigger] candidates@[a]).bond@
                    != (#[trigger] candidates@[b]).bond@,
            forall|a: int| 0 <= a < i ==> quoted_at(quotes@, (#[trigger] candidates@[a]).bond, candidates@[a].spot_clean_price),
        decreases candidates@.len() - i,
    {
        let mut k: usize = 0;
        while k < i
            invariant
                i < candidates@.len(),
                k <= i,
                forall|b: int| 0 <= b < k ==> (#[trigger] candidates@[b]).bond@ != candidates@[i as int].bond@,
            decreases i - k,
        {
            if candidates[k].bond.same_as(&candidates[i].bond) {
                return Err(DomainErrorCode::InvalidValue);
            }
            k = k + 1;
        }
        if !quote_has_price(quotes, &candidates[i].bond, candidates[i].spot_clean_price) {
            return Err(DomainErrorCode::InvalidValue);
        }
        i = i + 1;
    }
    if !quote_has_price(quotes, futures_contract, futures_clean_price) {
        return Err(DomainErrorCode::InvalidValue);
    }
    Ok(())
}

/// Some bond of the list is the reference.
pub open spec fn bond_listed(values: Seq<VersionRef>, wanted: VersionRef) -> bool {
    exists|b: int| 0 <= b < values.len() && (#[trigger] values[b])@ == wanted@
}

/// Every bond of one list is in the other.
pub open spec fn same_bonds(requested: Seq<VersionRef>, eligible: Seq<VersionRef>) -> bool {
    &&& forall|a: int| 0 <= a < requested.len() ==> bond_listed(eligible, #[trigger] requested[a])
    &&& forall|b: int| 0 <= b < eligible.len() ==> bond_listed(requested, #[trigger] eligible[b])
}

fn contains_bond(values: &[VersionRef], wanted: &VersionRef) -> (found: bool)
    ensures
        found == bond_listed(values@, *wanted),
{
    let mut i: usize = 0;
    while i < values.len()
        invariant
            i <= values@.len(),
            forall|b: int| 0 <= b < i ==> (#[trigger] values@[b])@ != wanted@,
        decreases values@.len() - i,
    {
        if values[i].same_as(wanted) {
            return true;
        }
        i = i + 1;
    }
    false
}

/// The requested basket must be the complete eligible basket: an invalid value unless the
/// requested and eligible bonds are the same set.
pub fn requested_matches_eligible(requested: &[VersionRef], eligible: &[VersionRef]) -> (result: Result<
    (),
    DomainErrorCode,
>)
    ensures
        result is Ok <==> same_bonds(requested@, eligible@),
        result matches Err(code) ==> code == DomainErrorCode::InvalidValue,
{
    let mut i: usize = 0;
    while i < requested.len()
        invariant
            i <= requested@.len(),
            forall|a: int| 0 <= a < i ==> bond_listed(eligible@, #[trigger] requested@[a]),
        decreases requested@.len() - i,
    {
        if !contains_bond(eligible, &requested[i]) {
            return Err(DomainErrorCode::InvalidValue);
        }
        i = i + 1;
    }
    let mut j: usize = 0;
    while j < eligible.len()
        invariant
            j <= eligible@.len(),
            forall|a: int| 0 <= a < requested@.len() ==> bond_listed(eligible@, #[trigger] requested@[a]),
            forall|b: int| 0 <= b < j ==> bond_listed(requested@, #[trigger] eligible@[b]),
        decreases eligible@.len() - j,
    {
        if !contains_bond(requested, &eligible[j]) {
            return Err(DomainErrorCode::InvalidValue);
        }
        j = j + 1;
    }
    Ok(())
}

/// The first day of the delivery month, when the purchase date comes strictly before delivery;
/// an invalid value otherwise.
pub fn delivery_month_first(purchase_date: LocalDate, delivery_date: LocalDate) -> (result: Result<
    LocalDate,
    DomainErrorCode,
>)
    ensures
        result is Ok <==> date_less(purchase_date, delivery_date),
        result matches Ok(first) ==> first == (LocalDate { year: delivery_date.year, month: delivery_date.month, day: 1 }),
        result matches Err(code) ==> code == DomainErrorCode::InvalidValue,
{
    let first = LocalDate { year: delivery_date.year, month: delivery_date.month, day: 1 };
    if !crate::calendar::date_before(purchase_date, delivery_date) {
        return Err(DomainErrorCode::InvalidValue);
    }
    Ok(first)
}

/// A quote prices both sides and their sum halves exactly.
pub open spec fn midpoint_exact(quote: DeliveryQuote) -> bool {
    quote.bid is Some && quote.ask is Some && in_i128(quote.bid->0.scaled + quote.ask->0.scaled) && (
    quote.bid->0.scaled + quote.ask->0.scaled) % 2 == 0
}

/// The quote at `i` prices a deliverable bond of the basket: it is not the futures quote, and
/// the registered bond behind it is deliverable.
pub open spec fn basket_member(quotes: Seq<DeliveryQuote>, futures_contract: VersionRef, deliverable: Seq<bool>, i: int) -> bool {
    0 <= i < quotes.len() && quotes[i].instrument@ != futures_contract@ && deliverable[i]
}

/// The positions of the basket's quotes among the first `n`, in order.
pub open spec fn basket_positions(quotes: Seq<DeliveryQuote>, futures_contract: VersionRef, deliverable: Seq<bool>, n: int) -> Seq<int>
    decreases n,
{
    if n <= 0 {
        Seq::empty()
    } else if basket_member(quotes, futures_contract, deliverable, n - 1) {
        basket_positions(quotes, futures_contract, deliverable, n - 1).push(n - 1)
    } else {
        basket_positions(quotes, futures_contract, deliverable, n - 1)
    }
}

/// Quotes in strictly ascending order of instrument, as a snapshot's quote map lists them.
pub open spec fn quotes_ascending(quotes: Seq<DeliveryQuote>) -> bool {
    forall|i: int, j: int| 0 <= i < j < quotes.len() ==> version_ref_less((#[trigger] quotes[i]).instrument@, (#[trigger] quotes[j]).instrument@)
}

/// One materialized deliverable input of a registered futures delivery.
#[derive(Clone, Debug)]
pub struct DeliverableInput {
    pub owner: OwnerRef,
    pub futures_contract: VersionRef,
    pub bond: VersionRef,
    pub valuation_at: MarketTime,
    pub purchase_date: LocalDate,
    pub delivery_month_first: LocalDate,
    pub delivery_date: LocalDate,
    pub spot_clean_price: FixedDecimal,
    pub futures_clean_price: FixedDecimal,
    pub financing_rate: FixedDecimal,
}

/// An input is the quote's instrument, priced at the quote's exact midpoint.
pub open spec fn priced_from(input: DeliverableInput, quote: DeliveryQuote) -> bool {
    &&& midpoint_exact(quote)
    &&& input.bond@ == quote.instrument@
    &&& 2 * input.spot_clean_price.scaled == quote.bid->0.scaled + quote.ask->0.scaled
}

/// An input carries the request's owner, contract and valuation time, buys on the valuation's
/// trading date, delivers on the settlement date, shares the futures price, and finances at zero.
pub open spec fn input_for(
    input: DeliverableInput,
    owner: OwnerRef,
    futures_contract: VersionRef,
    valuation_at: MarketTime,
    delivery_date: LocalDate,
    futures_clean_price: FixedDecimal,
) -> bool {
    &&& input.owner == owner
    &&& input.futures_contract == futures_contract
    &&& input.valuation_at == valuation_at
    &&& input.purchase_date == valuation_at.local_trading_date
    &&& input.delivery_month_first == (LocalDate { year: delivery_date.year, month: delivery_date.month, day: 1 })
    &&& input.delivery_date == delivery_date
    &&& input.futures_clean_price == futures_clean_price
    &&& input.financing_rate.scaled == 0
}

/// Materializes the complete registered delivery from a snapshot's quotes, which list each
/// instrument once in ascending order. The futures contract's quote must exist (incomplete
/// lineage otherwise) and have an exact midpoint (validation failure otherwise); the purchase
/// date, the valuation's trading date, must come before the delivery date (invalid value
/// otherwise); every deliverable bond's quote must have an exact midpoint (validation failure
/// otherwise); and at least one bond must be deliverable (invalid value otherwise). The inputs
/// come in ascending order of bond, one per deliverable bond.
pub fn materialize_registered_delivery(
    owner: &OwnerRef,
    futures_contract: &VersionRef,
    valuation_at: &MarketTime,
    delivery_date: LocalDate,
    quotes: &[DeliveryQuote],
    deliverable: &[bool],
) -> (result: Result<Vec<DeliverableInput>, Rejection>)
    requires
        deliverable@.len() == quotes@.len(),
        quotes_ascending(quotes@),
    ensures
        ({
            let positions = basket_positions(quotes@, *futures_contract, deliverable@, quotes@.len() as int);
            let dated = date_less(valuation_at.local_trading_date, delivery_date);
            match result {
                Ok(inputs) => exists|f: int| {
                    &&& #[trigger] first_quote_at(quotes@, *futures_contract, f)
                    &&& midpoint_exact(quotes@[f])
                    &&& dated
                    &&& positions.len() > 0
                    &&& inputs@.len() == positions.len()
                    &&& forall|k: int| 0 <= k < inputs@.len() ==> {
                        &&& priced_from(#[trigger] inputs@[k], quotes@[positions[k]])
                        &&& input_for(inputs@[k], *owner, *futures_contract, *valuation_at, delivery_date, inputs@[0].futures_clean_price)
                        &&& date_less(inputs@[k].purchase_date, inputs@[k].delivery_date)
                        &&& inputs@[k].bond@ != futures_contract@
                    }
                    &&& 2 * inputs@[0].futures_clean_price.scaled == quotes@[f].bid->0.scaled + quotes@[f].ask->0.scaled
                    &&& forall|a: int, b: int| 0 <= a < b < inputs@.len() ==> version_ref_less((#[trigger] inputs@[a]).bond@, (#[trigger] inputs@[b]).bond@)
                },
                Err(Rejection::Application(e)) => {
                    ||| (e == failure(ApplicationErrorCategory::LineageIncomplete) && forall|f: int| !#[trigger] first_quote_at(quotes@, *futures_contract, f))
                    ||| (e == failure(ApplicationErrorCategory::ValidationFailed) && exists|f: int| #[trigger] first_quote_at(quotes@, *futures_contract, f) && (!midpoint_exact(quotes@[f])
                        || (dated && exists|k: int| 0 <= k < positions.len() && !midpoint_exact(#[trigger] quotes@[positions[k]]))))
                },
                Err(Rejection::Domain(code)) => {
                    &&& code == DomainErrorCode::InvalidValue
                    &&& exists|f: int| #[trigger] first_quote_at(quotes@, *futures_contract, f) && midpoint_exact(quotes@[f])
                    &&& (!dated || positions.len() == 0)
                },
            }
        }),
{
    let mut f: usize = 0;
    while f < quotes.len() && !quotes[f].instrument.same_as(futures_contract)
        invariant
            f <= quotes@.len(),
            forall|j: int| 0 <= j < f ==> (#[trigger] quotes@[j]).instrument@ != futures_contract@,
        decreases quotes@.len() - f,
    {
        f = f + 1;
    }
    if f == quotes.len() {
        proof {
            assert forall|g: int| !#[trigger] first_quote_at(quotes@, *futures_contract, g) by {
                if 0 <= g < quotes@.len() {
                    assert(quotes@[g].instrument@ != futures_contract@);
                }
            }
        }
        return Err(Rejection::Application(lineage()));
    }
    assert(first_quote_at(quotes@, *futures_contract, f as int));
    let futures_clean_price = match exact_midpoint(quotes[f].bid, quotes[f].ask) {
        Ok(price) => price,
        Err(e) => {
            return Err(Rejection::Application(e));
        },
    };
    let month_first = match delivery_month_first(valuation_at.local_trading_date, delivery_date) {
        Ok(first) => first,
        Err(code) => {
            return Err(Rejection::Domain(code));
        },
    };
    let ghost fi = f as int;
    let mut inputs: Vec<DeliverableInput> = Vec::new();
    let mut i: usize = 0;
    while i < quotes.len()
        invariant
            i <= quotes@.len(),
            deliverable@.len() == quotes@.len(),
            quotes_ascending(quotes@),
            first_quote_at(quotes@, *futures_contract, fi),
            midpoint_exact(quotes@[fi]),
            2 * futures_clean_price.scaled == quotes@[fi].bid->0.scaled + quotes@[fi].ask->0.scaled,
            date_less(valuation_at.local_trading_date, delivery_date),
            month_first == (LocalDate { year: delivery_date.year, month: delivery_date.month, day: 1 }),
            inputs@.len() == basket_positions(quotes@, *futures_contract, deliverable@, i as int).len(),
            forall|p: int| 0 <= p < basket_positions(quotes@, *futures_contract, deliverable@, i as int).len()
                ==> 0 <= #[trigger] basket_positions(quotes@, *futures_contract, deliverable@, i as int)[p] < i,
            forall|p: int, q: int| 0 <= p < q < basket_positions(quotes@, *futures_contract, deliverable@, i as int).len()
                ==> #[trigger] basket_positions(quotes@, *futures_contract, deliverable@, i as int)[p] < #[trigger] basket_positions(quotes@, *futures_contract, deliverable@, i as int)[q],
            forall|k: int| 0 <= k < inputs@.len() ==> priced_from(#[trigger] inputs@[k], quotes@[basket_positions(quotes@, *futures_contract, deliverable@, i as int)[k]]),
            forall|k: int| 0 <= k < inputs@.len() ==> input_for(#[trigger] inputs@[k], *owner, *futures_contract, *valuation_at, delivery_date, futures_clean_price),
            forall|k: int| 0 <= k < inputs@.len() ==> (#[trigger] inputs@[k]).bond@ != futures_contract@,
        decreases quotes@.len() - i,
    {
        let ghost before = basket_positions(quotes@, *futures_contract, deliverable@, i as int);
        if deliverable[i] && !quotes[i].instrument.same_as(futures_contract) {
            assert(basket_member(quotes@, *futures_contract, deliverable@, i as int));
            let spot = match exact_midpoint(quotes[i].bid, quotes[i].ask) {
                Ok(price) => price,
                Err(e) => {
                    proof {
                        assert(!midpoint_exact(quotes@[i as int]));
                        let all = basket_positions(quotes@, *futures_contract, deliverable@, quotes@.len() as int);
                        lemma_positions_prefix(quotes@, *futures_contract, deliverable@, i as int + 1, quotes@.len() as int);
                        assert(basket_positions(quotes@, *futures_contract, deliverable@, i as int + 1) == before.push(i as int));
                        assert(all[before.len() as int] == i as int);
                    }
                    return Err(Rejection::Application(e));
                },
            };
            let ghost old_inputs = inputs@;
            inputs.push(DeliverableInput {
                owner: owner.duplicate(),
                futures_contract: futures_contract.duplicate(),
                bond: quotes[i].instrument.duplicate(),
                valuation_at: valuation_at.duplicate(),
                purchase_date: valuation_at.local_trading_date,
                delivery_month_first: month_first,
                delivery_date,
                spot_clean_price: spot,
                futures_clean_price,
                financing_rate: FixedDecimal { scaled: 0 },
            });
            let ghost after = basket_positions(quotes@, *futures_contract, deliverable@, i as int + 1);
            assert(after == before.push(i as int));
            assert forall|k: int| 0 <= k < inputs@.len() implies priced_from(#[trigger] inputs@[k], quotes@[after[k]]) by {
                if k < old_inputs.len() {
                    assert(inputs@[k] == old_inputs[k]);
                    assert(after[k] == before[k]);
                } else {
                    assert(after[k] == i as int);
                }
            }
            assert forall|k: int| 0 <= k < inputs@.len() implies input_for(#[trigger] inputs@[k], *owner, *futures_contract, *valuation_at, delivery_date, futures_clean_price) && inputs@[k].bond@ != futures_contract@ by {
                if k < old_inputs.len() {
                    assert(inputs@[k] == old_inputs[k]);
                }
            }
        } else {
            assert(!basket_member(quotes@, *futures_contract, deliverable@, i as int));
            assert(basket_positions(quotes@, *futures_contract, deliverable@, i as int + 1) == before);
        }
        i = i + 1;
    }
    let ghost positions = basket_positions(quotes@, *futures_contract, deliverable@, quotes@.len() as int);
    if inputs.len() == 0 {
        return Err(Rejection::Domain(DomainErrorCode::InvalidValue));
    }
    proof {
        assert(inputs@[0].futures_clean_price == futures_clean_price);
        assert forall|a: int, b: int| 0 <= a < b < inputs@.len() implies version_ref_less(
            (#[trigger] inputs@[a]).bond@,
            (#[trigger] inputs@[b]).bond@,
        ) by {
            assert(positions[a] < positions[b]);
            assert(0 <= positions[a] && positions[b] < quotes@.len());
            assert(version_ref_less(quotes@[positions[a]].instrument@, quotes@[positions[b]].instrument@));
        }
    }
    Ok(inputs)
}

/// Every hash orders strictly before the next, byte by byte.
pub open spec fn hashes_ascending(hashes: Seq<Seq<u8>>) -> bool {
    forall|i: int, j: int| 0 <= i < j < hashes.len() ==> lex_less(#[trigger] hashes[i], #[trigger] hashes[j])
}

/// The bytes of each hash.
pub open spec fn hash_views(hashes: Seq<Vec<u8>>) -> Seq<Seq<u8>> {
    hashes.map_values(|h: Vec<u8>| h@)
}

/// Sorts the evidence hashes of a materialized delivery and drops repeated ones.
pub fn sorted_evidence_hashes(values: Vec<Vec<u8>>) -> (sorted: Vec<Vec<u8>>)
    ensures
        hashes_ascending(hash_views(sorted@)),
        forall|x: Seq<u8>|
            hash_views(sorted@).contains(x) <==> hash_views(values@).contains(x),
{
    let mut sorted: Vec<Vec<u8>> = Vec::new();
    let mut i: usize = 0;
    while i < values.len()
        invariant
            i <= values@.len(),
            hashes_ascending(hash_views(sorted@)),
            forall|x: Seq<u8>|
                hash_views(sorted@).contains(x) <==> hash_views(values@.subrange(
                    0,
                    i as int,
                )).contains(x),
        decreases values.len() - i,
    {
        let value = &values[i];
        let ghost v = value@;
        let ghost before = hash_views(sorted@);
        let mut p: usize = 0;
        while p < sorted.len() && bytes_less(&sorted[p], value)
            invariant
                p <= sorted@.len(),
                before == hash_views(sorted@),
                v == value@,
                forall|k: int| 0 <= k < p ==> lex_less(#[trigger] before[k], v),
            decreases sorted.len() - p,
        {
            p = p + 1;
        }
        let ghost prior = hash_views(values@.subrange(0, i as int));
        let ghost next = hash_views(values@.subrange(0, i + 1));
        proof {
            assert(next =~= prior.push(v));
        }
        if p < sorted.len() && bytes_equal(&sorted[p], value) {
            proof {
                assert(before[p as int] == v);
                assert forall|x: Seq<u8>| before.contains(x) <==> next.contains(x) by {
                    if next.contains(x) && x == v {
                        assert(before[p as int] == x);
                    }
                    if next.contains(x) && x != v {
                        let k = choose|k: int| 0 <= k < next.len() && next[k] == x;
                        assert(prior[k] == x);
                    }
                    if before.contains(x) {
                        let k = choose|k: int| 0 <= k < prior.len() && prior[k] == x;
                        assert(next[k] == x);
                    }
                }
            }
        } else {
            proof {
                if p < sorted@.len() {
                    lemma_lex_order(before[p as int], v, v);
                    assert(before[p as int] != v);
                    assert(!lex_less(before[p as int], v));
                    lemma_lex_order(v, before[p as int], v);
                }
            }
            let copy = value.clone();
            proof {
                assert(copy@ =~= v);
            }
            sorted.insert(p, copy);
            proof {
                let after = hash_views(sorted@);
                assert(after =~= before.insert(p as int, v));
                assert forall|a: int, b: int| 0 <= a < b < after.len() implies lex_less(
                    #[trigger] after[a],
                    #[trigger] after[b],
                ) by {
                    if b < p {
                        assert(after[a] == before[a] && after[b] == before[b]);
                    } else if b == p {
                        assert(after[a] == before[a]);
                    } else if a < p {
                        assert(after[a] == before[a] && after[b] == before[b - 1]);
                        if b - 1 > p {
                            lemma_lex_order(v, before[p as int], before[b - 1]);
                        }
                        lemma_lex_order(before[a], v, before[b - 1]);
                    } else if a == p {
                        assert(after[b] == before[b - 1]);
                        if b - 1 > p {
                            lemma_lex_order(v, before[p as int], before[b - 1]);
                        }
                    } else {
                        assert(after[a] == before[a - 1] && after[b] == before[b - 1]);
                    }
                }
                assert forall|x: Seq<u8>| after.contains(x) <==> next.contains(x) by {
                    if after.contains(x) {
                        let k = choose|k: int| 0 <= k < after.len() && after[k] == x;
                        if k == p {
                            assert(next[prior.len() as int] == x);
                        } else {
                            if k < p {
                                assert(before[k] == x);
                            } else {
                                assert(before[k - 1] == x);
                            }
                            assert(before.contains(x));
                            assert(prior.contains(x));
                            let q = choose|q: int| 0 <= q < prior.len() && prior[q] == x;
                            assert(next[q] == x);
                        }
                    }
                    if next.contains(x) {
                        if x == v {
                            assert(after[p as int] == x);
                        } else {
                            let k = choose|k: int| 0 <= k < next.len() && next[k] == x;
                            assert(prior[k] == x);
                            assert(before.contains(x));
                            let q = choose|q: int| 0 <= q < before.len() && before[q] == x;
                            if q < p {
                                assert(after[q] == x);
                            } else {
                                assert(after[q + 1] == x);
                            }
                        }
                    }
                }
            }
        }
        i = i + 1;
    }
    proof {
        assert(values@.subrange(0, values@.len() as int) =~= values@);
    }
    sorted
}


/// Lexicographic order on byte strings is a strict total order.
proof fn lemma_lex_order(a: Seq<u8>, b: Seq<u8>, c: Seq<u8>)
    ensures
        !lex_less(a, a),
        lex_less(a, b) && lex_less(b, c) ==> lex_less(a, c),
        a != b ==> lex_less(a, b) || lex_less(b, a),
        lex_less(a, b) ==> !lex_less(b, a),
{
    lemma_lex_irreflexive(a);
    if lex_less(a, b) && lex_less(b, c) {
        lemma_lex_transitive(a, b, c);
    }
    if a != b {
        lemma_lex_total(a, b);
    }
    if lex_less(a, b) && lex_less(b, a) {
        lemma_lex_transitive(a, b, a);
    }
}

/// The positions among the first `n` quotes are a prefix of those among the first `m`.
proof fn lemma_positions_prefix(quotes: Seq<DeliveryQuote>, futures_contract: VersionRef, deliverable: Seq<bool>, n: int, m: int)
    requires
        0 <= n <= m,
    ensures
        basket_positions(quotes, futures_contract, deliverable, n).len() <= basket_positions(quotes, futures_contract, deliverable, m).len(),
        forall|k: int| 0 <= k < basket_positions(quotes, futures_contract, deliverable, n).len() ==> #[trigger] basket_positions(quotes, futures_contract, deliverable, m)[k]
            == basket_positions(quotes, futures_contract, deliverable, n)[k],
    decreases m - n,
{
    if n < m {
        lemma_positions_prefix(quotes, futures_contract, deliverable, n, m - 1);
    }
}

/// The snapshot prices the instrument at exactly this price: some quote of it has the price
/// as its bid or its ask.
pub open spec fn priced_in_snapshot(quotes: Seq<DeliveryQuote>, reference: VersionRef, price: FixedDecimal) -> bool {
    exists|i: int|
        0 <= i < quotes.len() && (#[trigger] quotes[i]).instrument.id@ == reference.id@
            && quotes[i].instrument.version == reference.version && (quotes[i].bid == Some(price)
            || quotes[i].ask == Some(price))
}

/// Requested candidates are accepted only when there is at least one, no bond is requested
/// twice, and every quoted price — each bond's spot price and the futures price — is the bid
/// or the ask of a snapshot quote of that instrument.
pub proof fn law_requested_candidates_are_quoted(
    candidates: Seq<FuturesCandidateFacts>,
    quotes: Seq<DeliveryQuote>,
    futures_contract: VersionRef,
    futures_clean_price: FixedDecimal,
)
    ensures
        candidates_quoted(candidates, quotes, futures_contract, futures_clean_price) ==> {
            &&& candidates.len() > 0
            &&& forall|a: int, b: int| 0 <= a < b < candidates.len() ==> (#[trigger] candidates[a]).bond@
                != (#[trigger] candidates[b]).bond@
            &&& forall|a: int| 0 <= a < candidates.len() ==> priced_in_snapshot(
                quotes,
                (#[trigger] candidates[a]).bond,
                candidates[a].spot_clean_price,
            )
            &&& priced_in_snapshot(quotes, futures_contract, futures_clean_price)
        },
{
    if candidates_quoted(candidates, quotes, futures_contract, futures_clean_price) {
        assert forall|a: int| 0 <= a < candidates.len() implies priced_in_snapshot(
            quotes,
            (#[trigger] candidates[a]).bond,
            candidates[a].spot_clean_price,
        ) by {
            assert(quoted_at(quotes, candidates[a].bond, candidates[a].spot_clean_price));
            let i = choose|i: int|
                #[trigger] first_quote_at(quotes, candidates[a].bond, i) && (quotes[i].bid == Some(candidates[a].spot_clean_price)
                    || quotes[i].ask == Some(candidates[a].spot_clean_price));
            assert(quotes[i].instrument@ == candidates[a].bond@);
        }
        assert forall|a: int, b: int| 0 <= a < b < candidates.len() implies (#[trigger] candidates[a]).bond@
            != (#[trigger] candidates[b]).bond@ by {
            assert(a != b);
        }
        let f = choose|i: int|
            #[trigger] first_quote_at(quotes, futures_contract, i) && (quotes[i].bid == Some(futures_clean_price)
                || quotes[i].ask == Some(futures_clean_price));
        assert(quotes[f].instrument@ == futures_contract@);
    }
}

} // verus!
