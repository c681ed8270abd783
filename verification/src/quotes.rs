use vstd::prelude::*;

use crate::bytes::{append_token, be_u64, push_be_u64, text_bytes, token};
use crate::cursor::{decimal_bytes, push_decimal};
use crate::decimal::{FixedDecimal, UnitRef, in_i128};
use crate::digest::{content_digest, sha256};
use crate::error::{ApplicationError, ApplicationErrorCategory, ApplicationResult, failure, validation};
use crate::futures::exact_midpoint;
use crate::primitives::{Instant, LocalDate, MarketTime, VersionRef, instant_before, instant_less};
use crate::text::same_text;

verus! {

/// One canonical quote of an instrument in a data snapshot.
#[derive(Clone, Debug)]
pub struct DeliveryQuote {
    pub instrument: VersionRef,
    pub observed_at: MarketTime,
    pub visible_at: MarketTime,
    pub local_trading_date: LocalDate,
    pub bid: Option<FixedDecimal>,
    pub ask: Option<FixedDecimal>,
    pub unit: UnitRef,
}

impl DeliveryQuote {
    /// An owned copy.
    pub fn duplicate(&self) -> (copy: Self)
        ensures
            copy == *self,
    {
        DeliveryQuote {
            instrument: self.instrument.duplicate(),
            observed_at: self.observed_at.duplicate(),
            visible_at: self.visible_at.duplicate(),
            local_trading_date: self.local_trading_date,
            bid: self.bid,
            ask: self.ask,
            unit: self.unit.duplicate(),
        }
    }
}

/// The snapshot and valuation that quotes are read for.
#[derive(Debug)]
pub struct QuoteWindow {
    pub as_of: MarketTime,
    pub visible_at: MarketTime,
    pub valuation_date: LocalDate,
    pub price_unit: UnitRef,
}

/// A quote is coherent with its snapshot: observed no later than it became visible, in the
/// snapshot's time zones, and observed on its own trading date.
pub open spec fn quote_coherent(q: DeliveryQuote, window: QuoteWindow) -> bool {
    &&& !instant_less(q.visible_at.instant, q.observed_at.instant)
    &&& q.observed_at.market_timezone@ == window.as_of.market_timezone@
    &&& q.visible_at.market_timezone@ == window.visible_at.market_timezone@
    &&& q.observed_at.local_trading_date == q.local_trading_date
}

/// A quote is used: it is for the valuation date, observed and visible within the snapshot,
/// and priced in the requested unit.
pub open spec fn quote_used(q: DeliveryQuote, window: QuoteWindow) -> bool {
    &&& q.local_trading_date == window.valuation_date
    &&& !instant_less(window.as_of.instant, q.observed_at.instant)
    &&& !instant_less(window.visible_at.instant, q.visible_at.instant)
    &&& q.unit@ == window.price_unit@
}

/// Prices of a used quote: for a midpoint both sides, positive, not crossed and with an exact
/// midpoint; for a requested price at least one side, each positive, not crossed.
pub open spec fn quote_prices_valid(q: DeliveryQuote, two_sided: bool) -> bool {
    if two_sided {
        &&& q.bid is Some
        &&& q.ask is Some
        &&& q.bid->0.scaled > 0
        &&& q.ask->0.scaled > 0
        &&& q.bid->0.scaled <= q.ask->0.scaled
        &&& in_i128(q.bid->0.scaled + q.ask->0.scaled)
        &&& (q.bid->0.scaled + q.ask->0.scaled) % 2 == 0
    } else {
        &&& (q.bid is Some || q.ask is Some)
        &&& (q.bid is Some ==> q.bid->0.scaled > 0)
        &&& (q.ask is Some ==> q.ask->0.scaled > 0)
        &&& (q.bid is Some && q.ask is Some ==> q.bid->0.scaled <= q.ask->0.scaled)
    }
}

/// `a` was taken strictly before `b`: observed earlier, or observed together and visible
/// earlier.
pub open spec fn quote_earlier(a: DeliveryQuote, b: DeliveryQuote) -> bool {
    instant_less(a.observed_at.instant, b.observed_at.instant) || (a.observed_at.instant
        == b.observed_at.instant && instant_less(a.visible_at.instant, b.visible_at.instant))
}

/// Two quotes were taken at the same observation and visibility instants.
pub open spec fn quote_simultaneous(a: DeliveryQuote, b: DeliveryQuote) -> bool {
    a.observed_at.instant == b.observed_at.instant && a.visible_at.instant == b.visible_at.instant
}

/// The used quotes among the first `n`.
pub open spec fn used_before(quotes: Seq<DeliveryQuote>, window: QuoteWindow, n: int, i: int) -> bool {
    0 <= i < n && quote_used(quotes[i], window)
}

/// Quote `j` is used and ties the latest used quote of its instrument before it.
pub open spec fn ties_latest(quotes: Seq<DeliveryQuote>, window: QuoteWindow, j: int) -> bool {
    &&& quote_used(quotes[j], window)
    &&& exists|i: int|
        #![trigger quotes[i]]
        used_before(quotes, window, j, i) && quotes[i].instrument@ == quotes[j].instrument@
            && quote_simultaneous(quotes[i], quotes[j])
    &&& forall|k: int|
        #![trigger quotes[k]]
        used_before(quotes, window, j, k) && quotes[k].instrument@ == quotes[j].instrument@
            ==> !quote_earlier(quotes[j], quotes[k])
}

/// The quotes can be read: every quote is coherent, every used quote is well priced, and no
/// used quote ties the latest earlier quote of its instrument.
pub open spec fn quotes_readable(quotes: Seq<DeliveryQuote>, window: QuoteWindow, two_sided: bool) -> bool {
    forall|j: int|
        #![trigger quotes[j]]
        0 <= j < quotes.len() ==> quote_coherent(quotes[j], window) && (quote_used(quotes[j], window)
            ==> quote_prices_valid(quotes[j], two_sided)) && !ties_latest(quotes, window, j)
}

/// No two selected quotes are for the same instrument.
pub open spec fn distinct_instruments(selected: Seq<DeliveryQuote>) -> bool {
    forall|a: int, b: int|
        0 <= a < b < selected.len() ==> (#[trigger] selected[a]).instrument@ != (
        #[trigger] selected[b]).instrument@
}

/// `q` is one of the used quotes among the first `n`.
pub open spec fn is_used_quote(quotes: Seq<DeliveryQuote>, window: QuoteWindow, n: int, q: DeliveryQuote) -> bool {
    exists|i: int| #![trigger quotes[i]] used_before(quotes, window, n, i) && quotes[i] == q
}

/// Every selected quote is a used quote among the first `n`.
pub open spec fn selected_from_used(
    quotes: Seq<DeliveryQuote>,
    window: QuoteWindow,
    n: int,
    selected: Seq<DeliveryQuote>,
) -> bool {
    forall|k: int|
        0 <= k < selected.len() ==> #[trigger] is_used_quote(quotes, window, n, selected[k])
}

proof fn lemma_used_quote_extends(quotes: Seq<DeliveryQuote>, window: QuoteWindow, n: int, q: DeliveryQuote)
    requires
        is_used_quote(quotes, window, n, q),
    ensures
        is_used_quote(quotes, window, n + 1, q),
{
    let i = choose|i: int| #![trigger quotes[i]] used_before(quotes, window, n, i) && quotes[i] == q;
    assert(used_before(quotes, window, n + 1, i));
}

proof fn lemma_selected_from_used_extends(
    quotes: Seq<DeliveryQuote>,
    window: QuoteWindow,
    n: int,
    selected: Seq<DeliveryQuote>,
)
    requires
        selected_from_used(quotes, window, n, selected),
    ensures
        selected_from_used(quotes, window, n + 1, selected),
{
    assert forall|k: int| 0 <= k < selected.len() implies #[trigger] is_used_quote(
        quotes,
        window,
        n + 1,
        selected[k],
    ) by {
        lemma_used_quote_extends(quotes, window, n, selected[k]);
    }
}

/// Every used quote among the first `n` has a selected quote of its instrument taken no
/// earlier.
pub open spec fn covers_used(
    quotes: Seq<DeliveryQuote>,
    window: QuoteWindow,
    n: int,
    selected: Seq<DeliveryQuote>,
) -> bool {
    forall|j: int|
        #![trigger quotes[j]]
        used_before(quotes, window, n, j) ==> exists|k: int|
            #![trigger selected[k]]
            0 <= k < selected.len() && selected[k].instrument@ == quotes[j].instrument@
                && !quote_earlier(selected[k], quotes[j])
}

/// The selection holds, for each instrument with a used quote, exactly one quote: a used
/// quote of the input taken no earlier than any used quote of that instrument.
pub open spec fn latest_quotes(
    quotes: Seq<DeliveryQuote>,
    window: QuoteWindow,
    n: int,
    selected: Seq<DeliveryQuote>,
) -> bool {
    &&& distinct_instruments(selected)
    &&& selected_from_used(quotes, window, n, selected)
    &&& covers_used(quotes, window, n, selected)
}

fn coherent(q: &DeliveryQuote, window: &QuoteWindow) -> (ok: bool)
    ensures
        ok == quote_coherent(*q, *window),
{
    !instant_before(q.visible_at.instant, q.observed_at.instant) && same_text(
        &q.observed_at.market_timezone,
        &window.as_of.market_timezone,
    ) && same_text(&q.visible_at.market_timezone, &window.visible_at.market_timezone)
        && q.observed_at.local_trading_date == q.local_trading_date
}

fn used(q: &DeliveryQuote, window: &QuoteWindow) -> (ok: bool)
    ensures
        ok == quote_used(*q, *window),
{
    q.local_trading_date == window.valuation_date && !instant_before(
        window.as_of.instant,
        q.observed_at.instant,
    ) && !instant_before(window.visible_at.instant, q.visible_at.instant) && q.unit.same_as(
        &window.price_unit,
    )
}

fn prices_valid(q: &DeliveryQuote, two_sided: bool) -> (ok: bool)
    ensures
        ok == quote_prices_valid(*q, two_sided),
{
    if two_sided {
        match (q.bid, q.ask) {
            (Some(bid), Some(ask)) => {
                let midpoint = exact_midpoint(Some(bid), Some(ask));
                let exact = match midpoint {
                    Ok(_) => true,
                    Err(_) => false,
                };
                bid.scaled > 0 && ask.scaled > 0 && bid.scaled <= ask.scaled && exact
            },
            _ => false,
        }
    } else {
        let one_side = q.bid.is_some() || q.ask.is_some();
        let bid_ok = match q.bid {
            Some(b) => b.scaled > 0,
            None => true,
        };
        let ask_ok = match q.ask {
            Some(a) => a.scaled > 0,
            None => true,
        };
        let not_crossed = match (q.bid, q.ask) {
            (Some(b), Some(a)) => b.scaled <= a.scaled,
            _ => true,
        };
        one_side && bid_ok && ask_ok && not_crossed
    }
}

fn earlier(a: &DeliveryQuote, b: &DeliveryQuote) -> (is_earlier: bool)
    ensures
        is_earlier == quote_earlier(*a, *b),
{
    instant_before(a.observed_at.instant, b.observed_at.instant) || (a.observed_at.instant
        == b.observed_at.instant && instant_before(a.visible_at.instant, b.visible_at.instant))
}

fn position_of(selected: &Vec<DeliveryQuote>, instrument: &VersionRef) -> (position: Option<usize>)
    ensures
        match position {
            Some(k) => k < selected@.len() && selected@[k as int].instrument@ == instrument@,
            None => forall|k: int|
                0 <= k < selected@.len() ==> (#[trigger] selected@[k]).instrument@ != instrument@,
        },
{
    let mut k: usize = 0;
    while k < selected.len()
        invariant
            k <= selected@.len(),
            forall|m: int| 0 <= m < k ==> (#[trigger] selected@[m]).instrument@ != instrument@,
        decreases selected.len() - k,
    {
        if selected[k].instrument.same_as(instrument) {
            return Some(k);
        }
        k = k + 1;
    }
    None
}

proof fn lemma_instant_order(a: Instant, b: Instant, c: Instant)
    ensures
        !instant_less(a, a),
        instant_less(a, b) && instant_less(b, c) ==> instant_less(a, c),
        !instant_less(a, b) && !instant_less(b, a) ==> a == b,
{
}

proof fn lemma_quote_order(a: DeliveryQuote, b: DeliveryQuote, c: DeliveryQuote)
    ensures
        !quote_earlier(a, a),
        quote_earlier(a, b) && quote_earlier(b, c) ==> quote_earlier(a, c),
        quote_earlier(a, b) ==> !quote_earlier(b, a),
        !quote_earlier(a, b) && !quote_earlier(b, a) ==> quote_simultaneous(a, b),
        quote_simultaneous(a, b) ==> (quote_earlier(a, c) == quote_earlier(b, c)),
        quote_simultaneous(a, b) ==> (quote_earlier(c, a) == quote_earlier(c, b)),
{
    lemma_instant_order(a.observed_at.instant, b.observed_at.instant, c.observed_at.instant);
    lemma_instant_order(b.observed_at.instant, a.observed_at.instant, c.observed_at.instant);
    lemma_instant_order(a.visible_at.instant, b.visible_at.instant, c.visible_at.instant);
    lemma_instant_order(b.visible_at.instant, a.visible_at.instant, c.visible_at.instant);
}

proof fn lemma_used_quote_witness(quotes: Seq<DeliveryQuote>, window: QuoteWindow, n: int, q: DeliveryQuote) -> (i: int)
    requires
        is_used_quote(quotes, window, n, q),
    ensures
        used_before(quotes, window, n, i),
        quotes[i] == q,
{
    choose|i: int| #![trigger quotes[i]] used_before(quotes, window, n, i) && quotes[i] == q
}

proof fn lemma_covering_witness(
    quotes: Seq<DeliveryQuote>,
    window: QuoteWindow,
    n: int,
    selected: Seq<DeliveryQuote>,
    j: int,
) -> (k: int)
    requires
        covers_used(quotes, window, n, selected),
        used_before(quotes, window, n, j),
    ensures
        0 <= k < selected.len(),
        selected[k].instrument@ == quotes[j].instrument@,
        !quote_earlier(selected[k], quotes[j]),
{
    choose|k: int|
        #![trigger selected[k]]
        0 <= k < selected.len() && selected[k].instrument@ == quotes[j].instrument@
            && !quote_earlier(selected[k], quotes[j])
}

proof fn lemma_skip(qs: Seq<DeliveryQuote>, w: QuoteWindow, n: int, selected: Seq<DeliveryQuote>)
    requires
        0 <= n < qs.len(),
        latest_quotes(qs, w, n, selected),
        !quote_used(qs[n], w),
    ensures
        latest_quotes(qs, w, n + 1, selected),
        !ties_latest(qs, w, n),
{
    lemma_selected_from_used_extends(qs, w, n, selected);
    assert forall|k: int|
        #![trigger qs[k]]
        used_before(qs, w, n + 1, k) implies exists|m: int|
            #![trigger selected[m]]
            0 <= m < selected.len() && selected[m].instrument@ == qs[k].instrument@
                && !quote_earlier(selected[m], qs[k]) by {
        assert(used_before(qs, w, n, k));
        let m = lemma_covering_witness(qs, w, n, selected, k);
    }
}

proof fn lemma_push(
    qs: Seq<DeliveryQuote>,
    w: QuoteWindow,
    n: int,
    before: Seq<DeliveryQuote>,
    after: Seq<DeliveryQuote>,
)
    requires
        0 <= n < qs.len(),
        latest_quotes(qs, w, n, before),
        quote_used(qs[n], w),
        forall|m: int| 0 <= m < before.len() ==> (#[trigger] before[m]).instrument@ != qs[n].instrument@,
        after == before.push(qs[n]),
    ensures
        latest_quotes(qs, w, n + 1, after),
        !ties_latest(qs, w, n),
{
    if exists|i: int|
        #![trigger qs[i]]
        used_before(qs, w, n, i) && qs[i].instrument@ == qs[n].instrument@ {
        let i = choose|i: int|
            #![trigger qs[i]]
            used_before(qs, w, n, i) && qs[i].instrument@ == qs[n].instrument@;
        let m = lemma_covering_witness(qs, w, n, before, i);
        assert(before[m].instrument@ == qs[n].instrument@);
    }
    assert forall|a: int, b: int|
        0 <= a < b < after.len() implies (#[trigger] after[a]).instrument@ != (
        #[trigger] after[b]).instrument@ by {
        if b == before.len() {
            assert(before[a].instrument@ != qs[n].instrument@);
        } else {
            assert(before[a].instrument@ != before[b].instrument@);
        }
    }
    assert forall|k: int|
        #![trigger qs[k]]
        used_before(qs, w, n + 1, k) implies exists|m: int|
            #![trigger after[m]]
            0 <= m < after.len() && after[m].instrument@ == qs[k].instrument@ && !quote_earlier(
                after[m],
                qs[k],
            ) by {
        if k == n {
            lemma_quote_order(qs[n], qs[n], qs[n]);
            assert(after[before.len() as int] == qs[n]);
        } else {
            let m = lemma_covering_witness(qs, w, n, before, k);
            assert(after[m] == before[m]);
        }
    }
    assert forall|m: int| 0 <= m < after.len() implies #[trigger] is_used_quote(
        qs,
        w,
        n + 1,
        after[m],
    ) by {
        if m == before.len() {
            assert(used_before(qs, w, n + 1, n));
            assert(after[m] == qs[n]);
        } else {
            assert(after[m] == before[m]);
            assert(is_used_quote(qs, w, n, before[m]));
            lemma_used_quote_extends(qs, w, n, before[m]);
        }
    }
}

#[verifier::rlimit(40)]
proof fn lemma_replace(
    qs: Seq<DeliveryQuote>,
    w: QuoteWindow,
    n: int,
    before: Seq<DeliveryQuote>,
    ki: int,
    after: Seq<DeliveryQuote>,
)
    requires
        0 <= n < qs.len(),
        latest_quotes(qs, w, n, before),
        quote_used(qs[n], w),
        0 <= ki < before.len(),
        before[ki].instrument@ == qs[n].instrument@,
        quote_earlier(before[ki], qs[n]),
        after == before.update(ki, qs[n]),
    ensures
        latest_quotes(qs, w, n + 1, after),
        !ties_latest(qs, w, n),
{
    let old_q = before[ki];
    assert(is_used_quote(qs, w, n, before[ki]));
    let i0 = lemma_used_quote_witness(qs, w, n, old_q);
    lemma_quote_order(qs[n], old_q, qs[n]);
    assert(!ties_latest(qs, w, n));
    assert forall|a: int, b: int|
        0 <= a < b < after.len() implies (#[trigger] after[a]).instrument@ != (
        #[trigger] after[b]).instrument@ by {
        assert(before[a].instrument@ != before[b].instrument@);
    }
    assert forall|kk: int|
        #![trigger qs[kk]]
        used_before(qs, w, n + 1, kk) implies exists|m: int|
            #![trigger after[m]]
            0 <= m < after.len() && after[m].instrument@ == qs[kk].instrument@ && !quote_earlier(
                after[m],
                qs[kk],
            ) by {
        if kk == n {
            lemma_quote_order(qs[n], qs[n], qs[n]);
            assert(after[ki] == qs[n]);
        } else {
            let m = lemma_covering_witness(qs, w, n, before, kk);
            if m == ki {
                lemma_quote_order(qs[kk], old_q, qs[n]);
                lemma_quote_order(old_q, qs[kk], qs[n]);
                assert(after[ki] == qs[n]);
            } else {
                assert(after[m] == before[m]);
            }
        }
    }
    assert forall|m: int| 0 <= m < after.len() implies #[trigger] is_used_quote(
        qs,
        w,
        n + 1,
        after[m],
    ) by {
        if m == ki {
            assert(used_before(qs, w, n + 1, n));
            assert(after[m] == qs[n]);
        } else {
            assert(after[m] == before[m]);
            assert(is_used_quote(qs, w, n, before[m]));
            lemma_used_quote_extends(qs, w, n, before[m]);
        }
    }
}

#[verifier::rlimit(40)]
proof fn lemma_keep(qs: Seq<DeliveryQuote>, w: QuoteWindow, n: int, before: Seq<DeliveryQuote>, ki: int)
    requires
        0 <= n < qs.len(),
        latest_quotes(qs, w, n, before),
        quote_used(qs[n], w),
        0 <= ki < before.len(),
        before[ki].instrument@ == qs[n].instrument@,
        quote_earlier(qs[n], before[ki]),
    ensures
        latest_quotes(qs, w, n + 1, before),
        !ties_latest(qs, w, n),
{
    let old_q = before[ki];
    assert(is_used_quote(qs, w, n, old_q));
    let i0 = lemma_used_quote_witness(qs, w, n, old_q);
    assert(used_before(qs, w, n, i0));
    assert(!ties_latest(qs, w, n));
    lemma_selected_from_used_extends(qs, w, n, before);
    assert forall|kk: int|
        #![trigger qs[kk]]
        used_before(qs, w, n + 1, kk) implies exists|m: int|
            #![trigger before[m]]
            0 <= m < before.len() && before[m].instrument@ == qs[kk].instrument@
                && !quote_earlier(before[m], qs[kk]) by {
        if kk == n {
            lemma_quote_order(old_q, qs[n], old_q);
            assert(before[ki].instrument@ == qs[kk].instrument@);
        } else {
            let m = lemma_covering_witness(qs, w, n, before, kk);
        }
    }
}

proof fn lemma_tie(qs: Seq<DeliveryQuote>, w: QuoteWindow, n: int, before: Seq<DeliveryQuote>, ki: int)
    requires
        0 <= n < qs.len(),
        latest_quotes(qs, w, n, before),
        quote_used(qs[n], w),
        0 <= ki < before.len(),
        before[ki].instrument@ == qs[n].instrument@,
        !quote_earlier(qs[n], before[ki]),
        !quote_earlier(before[ki], qs[n]),
    ensures
        ties_latest(qs, w, n),
{
    let old_q = before[ki];
    lemma_quote_order(qs[n], old_q, qs[n]);
    assert(is_used_quote(qs, w, n, old_q));
    let i0 = lemma_used_quote_witness(qs, w, n, old_q);
    assert(used_before(qs, w, n, i0));
    assert(quote_simultaneous(qs[i0], qs[n]));
    assert forall|kk: int|
        #![trigger qs[kk]]
        used_before(qs, w, n, kk) && qs[kk].instrument@ == qs[n].instrument@ implies !quote_earlier(
        qs[n],
        qs[kk],
    ) by {
        let m = lemma_covering_witness(qs, w, n, before, kk);
        if m != ki {
            assert(before[m].instrument@ != before[ki].instrument@ || m > ki || m < ki);
            if m < ki {
                assert(before[m].instrument@ != before[ki].instrument@);
            } else {
                assert(before[ki].instrument@ != before[m].instrument@);
            }
        }
        lemma_quote_order(old_q, qs[n], qs[kk]);
        lemma_quote_order(qs[n], old_q, qs[kk]);
    }
}

/// Selects, for each instrument, the latest used quote of a snapshot; fails as invalid on an
/// incoherent quote, a badly priced used quote, or a used quote that ties the latest one.
fn select_latest(quotes: &Vec<DeliveryQuote>, window: &QuoteWindow, two_sided: bool) -> (result:
    ApplicationResult<Vec<DeliveryQuote>>)
    ensures
        result is Ok <==> quotes_readable(quotes@, *window, two_sided),
        result matches Ok(selected) ==> latest_quotes(
            quotes@,
            *window,
            quotes@.len() as int,
            selected@,
        ),
        result matches Err(e) ==> e == failure(ApplicationErrorCategory::ValidationFailed),
{
    let ghost qs = quotes@;
    let ghost w = *window;
    let mut selected: Vec<DeliveryQuote> = Vec::new();
    let mut j: usize = 0;
    while j < quotes.len()
        invariant
            qs == quotes@,
            w == *window,
            j <= qs.len(),
            forall|m: int|
                #![trigger qs[m]]
                0 <= m < j ==> quote_coherent(qs[m], w) && (quote_used(qs[m], w)
                    ==> quote_prices_valid(qs[m], two_sided)) && !ties_latest(qs, w, m),
            latest_quotes(qs, w, j as int, selected@),
        decreases qs.len() - j,
    {
        let q = &quotes[j];
        let ghost n = j as int;
        if !coherent(q, window) {
            assert(!quote_coherent(qs[n], w));
            return Err(validation());
        }
        if !used(q, window) {
            proof {
                lemma_skip(qs, w, n, selected@);
            }
            j = j + 1;
            continue;
        }
        if !prices_valid(q, two_sided) {
            assert(!quote_prices_valid(qs[n], two_sided));
            return Err(validation());
        }
        match position_of(&selected, &q.instrument) {
            None => {
                let ghost before = selected@;
                selected.push(q.duplicate());
                proof {
                    lemma_push(qs, w, n, before, selected@);
                }
            },
            Some(k) => {
                let ghost before = selected@;
                if earlier(&selected[k], q) {
                    selected.set(k, q.duplicate());
                    proof {
                        lemma_replace(qs, w, n, before, k as int, selected@);
                    }
                } else if earlier(q, &selected[k]) {
                    proof {
                        lemma_keep(qs, w, n, before, k as int);
                    }
                } else {
                    proof {
                        lemma_tie(qs, w, n, before, k as int);
                    }
                    return Err(validation());
                }
            },
        }
        j = j + 1;
    }
    Ok(selected)
}

/// The latest two-sided quote of each instrument on the valuation date, each with an exact
/// midpoint.
pub fn exact_midpoint_quotes(window: &QuoteWindow, quotes: &Vec<DeliveryQuote>) -> (result:
    ApplicationResult<Vec<DeliveryQuote>>)
    ensures
        result is Ok <==> quotes_readable(quotes@, *window, true),
        result matches Ok(selected) ==> latest_quotes(
            quotes@,
            *window,
            quotes@.len() as int,
            selected@,
        ),
        result matches Err(e) ==> e == failure(ApplicationErrorCategory::ValidationFailed),
        result matches Ok(selected) ==> forall|k: int| 0 <= k < selected@.len() ==> {
            &&& !instant_less(window.as_of.instant, (#[trigger] selected@[k]).observed_at.instant)
            &&& !instant_less(window.visible_at.instant, selected@[k].visible_at.instant)
            &&& selected@[k].local_trading_date == window.valuation_date
            &&& selected@[k].unit@ == window.price_unit@
            &&& selected@[k].bid is Some && selected@[k].ask is Some
            &&& 0 < selected@[k].bid->0.scaled <= selected@[k].ask->0.scaled
            &&& (selected@[k].bid->0.scaled + selected@[k].ask->0.scaled) % 2 == 0
        },
{
    let result = select_latest(quotes, window, true);
    proof {
        if let Ok(selected) = &result {
            law_selected_quotes_lie_in_the_window(quotes@, *window, selected@, true);
        }
    }
    result
}

/// The latest quote of each instrument on the valuation date that prices at least one side.
pub fn exact_request_quotes(window: &QuoteWindow, quotes: &Vec<DeliveryQuote>) -> (result:
    ApplicationResult<Vec<DeliveryQuote>>)
    ensures
        result is Ok <==> quotes_readable(quotes@, *window, false),
        result matches Ok(selected) ==> latest_quotes(
            quotes@,
            *window,
            quotes@.len() as int,
            selected@,
        ),
        result matches Err(e) ==> e == failure(ApplicationErrorCategory::ValidationFailed),
        result matches Ok(selected) ==> forall|k: int| 0 <= k < selected@.len() ==> {
            &&& !instant_less(window.as_of.instant, (#[trigger] selected@[k]).observed_at.instant)
            &&& !instant_less(window.visible_at.instant, selected@[k].visible_at.instant)
            &&& selected@[k].local_trading_date == window.valuation_date
            &&& selected@[k].unit@ == window.price_unit@
            &&& (selected@[k].bid is Some || selected@[k].ask is Some)
        },
{
    let result = select_latest(quotes, window, false);
    proof {
        if let Ok(selected) = &result {
            law_selected_quotes_lie_in_the_window(quotes@, *window, selected@, false);
        }
    }
    result
}

/// Every quote the latest-quote selection returns lies inside the snapshot's window: observed
/// no later than the snapshot's as-of instant, visible no later than its visibility instant,
/// for the valuation date and in the price unit. Read for a midpoint, it prices both sides,
/// positively and uncrossed, with an even sum; otherwise it prices at least one side.
pub proof fn law_selected_quotes_lie_in_the_window(
    quotes: Seq<DeliveryQuote>,
    window: QuoteWindow,
    selected: Seq<DeliveryQuote>,
    two_sided: bool,
)
    requires
        quotes_readable(quotes, window, two_sided),
        latest_quotes(quotes, window, quotes.len() as int, selected),
    ensures
        forall|k: int| 0 <= k < selected.len() ==> {
            &&& !instant_less(window.as_of.instant, (#[trigger] selected[k]).observed_at.instant)
            &&& !instant_less(window.visible_at.instant, selected[k].visible_at.instant)
            &&& selected[k].local_trading_date == window.valuation_date
            &&& selected[k].unit@ == window.price_unit@
            &&& two_sided ==> {
                &&& selected[k].bid is Some && selected[k].ask is Some
                &&& 0 < selected[k].bid->0.scaled <= selected[k].ask->0.scaled
                &&& (selected[k].bid->0.scaled + selected[k].ask->0.scaled) % 2 == 0
            }
            &&& !two_sided ==> (selected[k].bid is Some || selected[k].ask is Some)
        },
{
    assert forall|k: int| 0 <= k < selected.len() implies {
        &&& !instant_less(window.as_of.instant, (#[trigger] selected[k]).observed_at.instant)
        &&& !instant_less(window.visible_at.instant, selected[k].visible_at.instant)
        &&& selected[k].local_trading_date == window.valuation_date
        &&& selected[k].unit@ == window.price_unit@
        &&& two_sided ==> {
            &&& selected[k].bid is Some && selected[k].ask is Some
            &&& 0 < selected[k].bid->0.scaled <= selected[k].ask->0.scaled
            &&& (selected[k].bid->0.scaled + selected[k].ask->0.scaled) % 2 == 0
        }
        &&& !two_sided ==> (selected[k].bid is Some || selected[k].ask is Some)
    } by {
        assert(is_used_quote(quotes, window, quotes.len() as int, selected[k]));
        let i = choose|i: int| #![trigger quotes[i]] used_before(quotes, window, quotes.len() as int, i) && quotes[i] == selected[k];
        assert(quote_used(quotes[i], window));
        assert(quote_prices_valid(quotes[i], two_sided));
    }
}

/// The quote selected for an instrument is taken no earlier than any used quote of that
/// instrument.
pub proof fn law_selected_quote_is_latest(
    quotes: Seq<DeliveryQuote>,
    window: QuoteWindow,
    selected: Seq<DeliveryQuote>,
    k: int,
    j: int,
)
    requires
        latest_quotes(quotes, window, quotes.len() as int, selected),
        0 <= k < selected.len(),
        0 <= j < quotes.len(),
        quote_used(quotes[j], window),
        quotes[j].instrument@ == selected[k].instrument@,
    ensures
        !quote_earlier(selected[k], quotes[j]),
{
    assert(used_before(quotes, window, quotes.len() as int, j));
    let m = lemma_covering_witness(quotes, window, quotes.len() as int, selected, j);
    if m != k {
        if m < k {
            assert(selected[m].instrument@ != selected[k].instrument@);
        } else {
            assert(selected[k].instrument@ != selected[m].instrument@);
        }
    }
}

/// `value` in decimal digits, padded with leading zeros to at least `width` digits.
pub open spec fn zero_padded(value: nat, width: nat) -> Seq<u8> {
    let digits = decimal_bytes(value);
    if digits.len() < width {
        Seq::new((width - digits.len()) as nat, |_i: int| 48u8) + digits
    } else {
        digits
    }
}

/// The year as a date displays it: four digits within `0..=9999`, otherwise an explicit sign
/// and at least four digits.
pub open spec fn year_bytes(year: i32) -> Seq<u8> {
    if 0 <= year <= 9999 {
        zero_padded(year as nat, 4)
    } else if year < 0 {
        seq![45u8] + zero_padded((-year) as nat, 4)
    } else {
        seq![43u8] + zero_padded(year as nat, 4)
    }
}

/// The `YYYY-MM-DD` text of a date, as `chrono` displays a `NaiveDate`.
pub open spec fn date_bytes(date: LocalDate) -> Seq<u8> {
    year_bytes(date.year) + seq![45u8] + zero_padded(date.month as nat, 2) + seq![45u8]
        + zero_padded(date.day as nat, 2)
}

/// Microseconds since the Unix epoch of an instant.
pub open spec fn micros_of(instant: Instant) -> int {
    instant.seconds * 1_000_000 + instant.nanos / 1000
}

/// The instant's microsecond timestamp fits a signed 64-bit integer.
pub open spec fn micros_fit(instant: Instant) -> bool {
    i64::MIN <= micros_of(instant) <= i64::MAX
}

/// The sixteen big-endian two's-complement bytes of an `i128`.
pub open spec fn be_i128(value: i128) -> Seq<u8> {
    be_u64(((value as u128) >> 64u128) as u64) + be_u64(value as u64)
}

/// The scaled value of an optional price, with `i128::MIN` standing for a missing side.
pub open spec fn side_scaled(value: Option<FixedDecimal>) -> i128 {
    match value {
        Some(price) => price.scaled,
        None => i128::MIN,
    }
}

/// The canonical evidence encoding of a quote: each field length-prefixed, in the order
/// instrument identifier, instrument version, observation and visibility timestamps in
/// microseconds, trading date, bid, ask, Unit identifier and Unit version.
pub open spec fn quote_evidence_bytes(quote: DeliveryQuote) -> Seq<u8> {
    token(text_bytes(quote.instrument.id@)) + token(be_u64(quote.instrument.version)) + token(
        be_u64(micros_of(quote.observed_at.instant) as i64 as u64),
    ) + token(be_u64(micros_of(quote.visible_at.instant) as i64 as u64)) + token(
        date_bytes(quote.local_trading_date),
    ) + token(be_i128(side_scaled(quote.bid))) + token(be_i128(side_scaled(quote.ask))) + token(
        text_bytes(quote.unit.unit_id@),
    ) + token(be_u64(quote.unit.version))
}

pub(crate) fn push_zero_padded(bytes: &mut Vec<u8>, value: u64, width: usize)
    ensures
        final(bytes)@ == old(bytes)@ + zero_padded(value as nat, width as nat),
{
    let mut digits: Vec<u8> = Vec::new();
    push_decimal(&mut digits, value);
    assert(digits@ == decimal_bytes(value as nat));
    let mut k: usize = digits.len();
    while k < width
        invariant
            digits@ == decimal_bytes(value as nat),
            digits@.len() <= k,
            k <= width || k == digits@.len(),
            bytes@ == old(bytes)@ + Seq::new((k - digits@.len()) as nat, |_i: int| 48u8),
        decreases width - k,
    {
        bytes.push(48u8);
        assert(Seq::new((k + 1 - digits@.len()) as nat, |_i: int| 48u8) =~= Seq::new(
            (k - digits@.len()) as nat,
            |_i: int| 48u8,
        ).push(48u8));
        k = k + 1;
    }
    let ghost zeros = bytes@;
    crate::bytes::push_all(bytes, digits.as_slice());
    proof {
        if digits@.len() >= width {
            assert(Seq::new((k - digits@.len()) as nat, |_i: int| 48u8) =~= Seq::<u8>::empty());
            assert(bytes@ =~= old(bytes)@ + zero_padded(value as nat, width as nat));
        } else {
            assert(bytes@ =~= old(bytes)@ + zero_padded(value as nat, width as nat));
        }
    }
}

pub(crate) fn date_text(date: LocalDate) -> (text: Vec<u8>)
    ensures
        text@ == date_bytes(date),
{
    let mut text: Vec<u8> = Vec::new();
    let year = date.year;
    if 0 <= year && year <= 9999 {
        push_zero_padded(&mut text, year as u64, 4);
    } else if year < 0 {
        text.push(45u8);
        let magnitude: i64 = -(year as i64);
        push_zero_padded(&mut text, magnitude as u64, 4);
    } else {
        text.push(43u8);
        push_zero_padded(&mut text, year as u64, 4);
    }
    text.push(45u8);
    push_zero_padded(&mut text, date.month as u64, 2);
    text.push(45u8);
    push_zero_padded(&mut text, date.day as u64, 2);
    assert(text@ =~= date_bytes(date));
    text
}

fn micros_timestamp(instant: Instant) -> (micros: i64)
    requires
        micros_fit(instant),
    ensures
        micros == micros_of(instant),
{
    let wide: i128 = instant.seconds as i128 * 1_000_000 + (instant.nanos / 1000) as i128;
    wide as i64
}

pub(crate) fn push_be_i128(bytes: &mut Vec<u8>, value: i128)
    ensures
        final(bytes)@ == old(bytes)@ + be_i128(value),
{
    let bits = value as u128;
    let high = (bits >> 64u128) as u64;
    let low = bits as u64;
    assert(high == ((value as u128) >> 64u128) as u64);
    assert(low == value as u64) by (bit_vector)
        requires
            bits == value as u128,
            low == bits as u64;
    push_be_u64(bytes, high);
    push_be_u64(bytes, low);
    assert(bytes@ =~= old(bytes)@ + be_i128(value));
}

fn side_value(value: Option<FixedDecimal>) -> (scaled: i128)
    ensures
        scaled == side_scaled(value),
{
    match value {
        Some(price) => price.scaled,
        None => i128::MIN,
    }
}

/// The content hash that binds a quote as delivery evidence: the SHA-256 digest of its
/// canonical evidence encoding.
pub fn quote_evidence_hash(quote: &DeliveryQuote) -> (hash: Vec<u8>)
    requires
        micros_fit(quote.observed_at.instant),
        micros_fit(quote.visible_at.instant),
    ensures
        hash@ == sha256(quote_evidence_bytes(*quote)),
{
    let mut bytes: Vec<u8> = Vec::new();
    append_token(&mut bytes, quote.instrument.id.as_str().as_bytes());
    let mut field: Vec<u8> = Vec::new();
    push_be_u64(&mut field, quote.instrument.version);
    append_token(&mut bytes, field.as_slice());
    let mut field: Vec<u8> = Vec::new();
    push_be_u64(&mut field, micros_timestamp(quote.observed_at.instant) as u64);
    append_token(&mut bytes, field.as_slice());
    let mut field: Vec<u8> = Vec::new();
    push_be_u64(&mut field, micros_timestamp(quote.visible_at.instant) as u64);
    append_token(&mut bytes, field.as_slice());
    let date = date_text(quote.local_trading_date);
    append_token(&mut bytes, date.as_slice());
    let mut field: Vec<u8> = Vec::new();
    push_be_i128(&mut field, side_value(quote.bid));
    append_token(&mut bytes, field.as_slice());
    let mut field: Vec<u8> = Vec::new();
    push_be_i128(&mut field, side_value(quote.ask));
    append_token(&mut bytes, field.as_slice());
    append_token(&mut bytes, quote.unit.unit_id.as_str().as_bytes());
    let mut field: Vec<u8> = Vec::new();
    push_be_u64(&mut field, quote.unit.version);
    append_token(&mut bytes, field.as_slice());
    assert(bytes@ =~= quote_evidence_bytes(*quote));
    content_digest(bytes.as_slice())
}

/// Quotes are read only when every quote is coherent with its snapshot: observed no later than
/// it became visible, observed and visible in the snapshot's time zones, and observed on its own
/// trading date.
pub proof fn law_readable_quotes_are_coherent(quotes: Seq<DeliveryQuote>, window: QuoteWindow, two_sided: bool)
    ensures
        quotes_readable(quotes, window, two_sided) ==> forall|j: int| 0 <= j < quotes.len() ==> {
            &&& !instant_less((#[trigger] quotes[j]).visible_at.instant, quotes[j].observed_at.instant)
            &&& quotes[j].observed_at.market_timezone@ == window.as_of.market_timezone@
            &&& quotes[j].visible_at.market_timezone@ == window.visible_at.market_timezone@
            &&& quotes[j].observed_at.local_trading_date == quotes[j].local_trading_date
        },
{
    if quotes_readable(quotes, window, two_sided) {
        assert forall|j: int| 0 <= j < quotes.len() implies {
            &&& !instant_less((#[trigger] quotes[j]).visible_at.instant, quotes[j].observed_at.instant)
            &&& quotes[j].observed_at.market_timezone@ == window.as_of.market_timezone@
            &&& quotes[j].visible_at.market_timezone@ == window.visible_at.market_timezone@
            &&& quotes[j].observed_at.local_trading_date == quotes[j].local_trading_date
        } by {
            assert(quote_coherent(quotes[j], window));
        }
    }
}

} // verus!
