//! Laws of the prediction markets.

use vstd::prelude::*;

use crate::base::address::Address;
use crate::base::arith::{lemma_quot_bounds, quot};
use crate::base::symbol::Symbol;
use crate::prediction::contract::{
    fees_distributed, liquidity_added, liquidity_removed, market_cancelled, market_closed,
    order_cancelled, order_placed, outcome_bought, outcome_sold, pool_created, position_settled,
    resolution_submitted, tokens_redeemed, trading_finalized,
};
use crate::prediction::cpmm::{
    buy, invariant_holds, lp_share, open_pool, product_close, provide, sell, withdraw,
};
use crate::prediction::oracle::drained;
use crate::prediction::orderbook::{
    best_match, better_price, can_match, lemma_best_match, lesser, match_step, run_match, Matching,
    Taker,
};
use crate::prediction::settlement::{distribute, held_of};
use crate::prediction::state::PredictionState;
use crate::prediction::types::{
    LiquidityPoolView, MarketStatus, OrderSide, PredictionError, PredictionOrder, TradeFill,
};

verus! {

// ---------------------------------------------------------------------------
// Constant product
// ---------------------------------------------------------------------------

/// Whatever a call does to a pool, afterwards the product of every outcome is
/// exactly that of its reserves.
pub proof fn every_pool_operation_restores_the_products(
    p: LiquidityPoolView,
    i: int,
    amount: i128,
    bps: i128,
    least: i128,
    amounts: Seq<i128>,
)
    requires
        p.wf(),
    ensures
        buy(p, i, amount, bps, least) is Ok ==> buy(
            p,
            i,
            amount,
            bps,
            least,
        )->Ok_0.0.products_hold(),
        sell(p, i, amount, bps, least) is Ok ==> sell(
            p,
            i,
            amount,
            bps,
            least,
        )->Ok_0.0.products_hold(),
        provide(p, amount, amounts) is Ok ==> provide(p, amount, amounts)->Ok_0.0.products_hold(),
        withdraw(p, amount) is Ok ==> withdraw(p, amount)->Ok_0.0.products_hold(),
        distribute(p) is Ok && p.fees_accumulated > 0 ==> distribute(p)->Ok_0.0.products_hold(),
        drained(p).products_hold(),
{
    assert forall|j: int| 0 <= j < drained(p).outcome_reserves.len() implies drained(
        p,
    ).k_per_outcome[j] == drained(p).collateral_reserve * #[trigger] drained(
        p,
    ).outcome_reserves[j] by {
        assert(drained(p).collateral_reserve * 0 == 0) by (nonlinear_arith);
    }
}

/// Opening a pool makes its products those of its reserves.
pub proof fn opening_a_pool_sets_the_products(market_id: u64, num_outcomes: nat, seed: i128)
    ensures
        open_pool(market_id, num_outcomes, seed) is Ok ==> open_pool(
            market_id,
            num_outcomes,
            seed,
        )->Ok_0.products_hold(),
{
}

/// Where the products are those of the reserves, the check of the invariant succeeds.
pub proof fn products_pass_the_check(p: LiquidityPoolView)
    requires
        p.wf(),
        p.products_hold(),
    ensures
        invariant_holds(p),
{
    assert forall|i: int| 0 <= i < p.outcome_reserves.len() implies #[trigger] product_close(
        p,
        i,
    ) by {
        assert(p.k_per_outcome[i] == p.collateral_reserve * p.outcome_reserves[i]);
    }
}

/// Every pool of the state has the products of its reserves.
pub open spec fn all_products_hold(s: PredictionState) -> bool {
    forall|id: u64| #[trigger] s.pools.contains_key(id) ==> s.pools[id].products_hold()
}

/// No call of the contract leaves a pool whose products are not those of its reserves.
pub proof fn calls_keep_all_products(
    s: PredictionState,
    who: Address,
    id: u64,
    i: u32,
    amount: i128,
    least: i128,
)
    requires
        s.wf(),
        all_products_hold(s),
    ensures
        pool_created(s, who, id, amount) is Ok ==> all_products_hold(
            pool_created(s, who, id, amount)->Ok_0.0,
        ),
        liquidity_added(s, who, id, amount) is Ok ==> all_products_hold(
            liquidity_added(s, who, id, amount)->Ok_0.0,
        ),
        liquidity_removed(s, who, id, amount) is Ok ==> all_products_hold(
            liquidity_removed(s, who, id, amount)->Ok_0.0,
        ),
        outcome_bought(s, who, id, i, amount, least) is Ok ==> all_products_hold(
            outcome_bought(s, who, id, i, amount, least)->Ok_0.0,
        ),
        outcome_sold(s, who, id, i, amount, least) is Ok ==> all_products_hold(
            outcome_sold(s, who, id, i, amount, least)->Ok_0.0,
        ),
        market_closed(s, who, id) is Ok ==> all_products_hold(market_closed(s, who, id)->Ok_0.0),
        fees_distributed(s, who, id) is Ok ==> all_products_hold(
            fees_distributed(s, who, id)->Ok_0.0,
        ),
{
    if s.pools.contains_key(id) {
        let p = s.pools[id];
        every_pool_operation_restores_the_products(
            p,
            i as int,
            amount,
            s.markets[id].fee_bps,
            least,
            Seq::new(p.outcome_reserves.len(), |j: int| amount),
        );
        if s.markets.contains_key(id) {
            assert(s.markets[id].market_id == id);
        }
    }
    opening_a_pool_sets_the_products(id, s.markets[id].outcomes.len(), amount);
    if s.markets.contains_key(id) {
        assert(s.markets[id].market_id == id);
    }
}

proof fn lemma_div_product(k: int, c: int)
    requires
        k >= 0,
        c > 0,
    ensures
        quot(k, c) >= 0,
        quot(k, c) * c <= k < (quot(k, c) + 1) * c,
{
    if k > 0 {
        assert((k / c) * c <= k < (k / c + 1) * c && k / c >= 0) by (nonlinear_arith)
            requires
                k > 0,
                c > 0,
        ;
    } else {
        assert(0 * c == 0 && (0 + 1) * c == c) by (nonlinear_arith);
    }
}

/// A buy puts the collateral less the fee into the pool and keeps the
/// outcome's product up to the rounding of one token; the outcome's price
/// does not fall, and the other reserves stay.
pub proof fn a_buy_keeps_the_product(
    p: LiquidityPoolView,
    i: int,
    amount: i128,
    fee_bps: i128,
    least: i128,
)
    requires
        p.wf(),
        p.products_hold(),
        p.collateral_reserve >= 0,
        0 <= i < p.outcome_reserves.len(),
        p.outcome_reserves[i] >= 0,
        0 <= fee_bps < 10_000,
        buy(p, i, amount, fee_bps, least) is Ok,
    ensures
        ({
            let (q, swap) = buy(p, i, amount, fee_bps, least)->Ok_0;
            &&& 0 <= swap.fee <= amount
            &&& q.collateral_reserve == p.collateral_reserve + amount - swap.fee
            &&& q.fees_accumulated == p.fees_accumulated + swap.fee
            &&& swap.outcome_amount >= least
            &&& q.outcome_reserves[i] + swap.outcome_amount == p.outcome_reserves[i]
            &&& q.k_per_outcome[i] <= p.k_per_outcome[i] < q.k_per_outcome[i]
                + q.collateral_reserve
            &&& q.collateral_reserve * p.outcome_reserves[i] >= p.collateral_reserve
                * q.outcome_reserves[i]
            &&& forall|j: int|
                0 <= j < p.outcome_reserves.len() && j != i ==> #[trigger] q.outcome_reserves[j]
                    == p.outcome_reserves[j]
        }),
{
    let (q, swap) = buy(p, i, amount, fee_bps, least)->Ok_0;
    let raw = amount * fee_bps;
    assert(0 <= raw < amount * 10_000) by (nonlinear_arith)
        requires
            raw == amount * fee_bps,
            0 <= fee_bps < 10_000,
            amount > 0,
    ;
    lemma_quot_bounds(raw, 10_000);
    lemma_div_product(raw, 10_000);
    let fee = quot(raw, 10_000);
    assert(fee < amount);
    let c = p.collateral_reserve + (amount - fee);
    let k = p.collateral_reserve * p.outcome_reserves[i];
    assert(p.k_per_outcome[i] == k);
    assert(k >= 0) by (nonlinear_arith)
        requires
            k == p.collateral_reserve * p.outcome_reserves[i],
            p.collateral_reserve >= 0,
            p.outcome_reserves[i] >= 0,
    ;
    lemma_div_product(k, c);
    let r = quot(k, c);
    assert(q.outcome_reserves[i] == r);
    assert(c * r == r * c) by (nonlinear_arith);
    assert((r + 1) * c == r * c + c) by (nonlinear_arith);
    let x = p.collateral_reserve as int;
    let y = p.outcome_reserves[i] as int;
    assert(c * y >= x * r) by (nonlinear_arith)
        requires
            c >= x >= 0,
            y >= r >= 0,
    ;
}

/// A sale takes out of the collateral reserve exactly what it pays and
/// charges, never lets the outcome's product grow, and leaves the other
/// reserves.
pub proof fn a_sale_keeps_the_product(
    p: LiquidityPoolView,
    i: int,
    tokens: i128,
    fee_bps: i128,
    least: i128,
)
    requires
        p.wf(),
        p.products_hold(),
        p.collateral_reserve >= 0,
        0 <= i < p.outcome_reserves.len(),
        p.outcome_reserves[i] >= 0,
        sell(p, i, tokens, fee_bps, least) is Ok,
    ensures
        ({
            let (q, swap) = sell(p, i, tokens, fee_bps, least)->Ok_0;
            &&& q.collateral_reserve + swap.collateral_amount + swap.fee == p.collateral_reserve
            &&& q.outcome_reserves[i] == p.outcome_reserves[i] + tokens
            &&& swap.collateral_amount >= least
            &&& q.k_per_outcome[i] <= p.k_per_outcome[i] < q.k_per_outcome[i] + q.outcome_reserves[i]
            &&& forall|j: int|
                0 <= j < p.outcome_reserves.len() && j != i ==> #[trigger] q.outcome_reserves[j]
                    == p.outcome_reserves[j]
        }),
{
    let (q, swap) = sell(p, i, tokens, fee_bps, least)->Ok_0;
    let gross = p.collateral_reserve - q.collateral_reserve;
    lemma_quot_bounds(gross * fee_bps, 10_000);
    let r = p.outcome_reserves[i] + tokens;
    let k = p.collateral_reserve * p.outcome_reserves[i];
    assert(p.k_per_outcome[i] == k);
    assert(k >= 0) by (nonlinear_arith)
        requires
            k == p.collateral_reserve * p.outcome_reserves[i],
            p.collateral_reserve >= 0,
            p.outcome_reserves[i] >= 0,
    ;
    lemma_div_product(k, r);
    let c = quot(k, r);
    assert((c + 1) * r == c * r + r) by (nonlinear_arith);
    assert(q.outcome_reserves[i] == r);
}

/// Burning LP tokens gives at most what the pool has, and burning all of them
/// empties it.
pub proof fn withdrawing_is_proportional(p: LiquidityPoolView, lp: i128)
    requires
        p.wf(),
        p.collateral_reserve >= 0,
        forall|i: int|
            0 <= i < p.outcome_reserves.len() ==> #[trigger] p.outcome_reserves[i] >= 0,
        withdraw(p, lp) is Ok,
    ensures
        ({
            let (q, got) = withdraw(p, lp)->Ok_0;
            &&& q.lp_supply == p.lp_supply - lp
            &&& 0 <= got.collateral_deposited <= p.collateral_reserve
            &&& q.collateral_reserve + got.collateral_deposited == p.collateral_reserve
            &&& forall|i: int|
                0 <= i < p.outcome_reserves.len() ==> {
                    &&& 0 <= #[trigger] got.outcome_deposits[i] <= p.outcome_reserves[i]
                    &&& q.outcome_reserves[i] + got.outcome_deposits[i] == p.outcome_reserves[i]
                }
            &&& lp == p.lp_supply ==> q.collateral_reserve == 0 && forall|i: int|
                0 <= i < p.outcome_reserves.len() ==> #[trigger] q.outcome_reserves[i] == 0
        }),
{
    let (q, got) = withdraw(p, lp)->Ok_0;
    lemma_lp_share(p.collateral_reserve as int, lp as int, p.lp_supply as int);
    assert forall|i: int| 0 <= i < p.outcome_reserves.len() implies {
        &&& 0 <= #[trigger] got.outcome_deposits[i] <= p.outcome_reserves[i]
        &&& q.outcome_reserves[i] + got.outcome_deposits[i] == p.outcome_reserves[i]
        &&& lp == p.lp_supply ==> q.outcome_reserves[i] == 0
    } by {
        lemma_lp_share(p.outcome_reserves[i] as int, lp as int, p.lp_supply as int);
    }
    if lp == p.lp_supply {
        assert forall|i: int| 0 <= i < p.outcome_reserves.len() implies #[trigger]
            q.outcome_reserves[i] == 0 by {
            assert(got.outcome_deposits[i] <= p.outcome_reserves[i]);
        }
    }
}

proof fn lemma_lp_share(reserve: int, lp: int, supply: int)
    requires
        reserve >= 0,
        0 < lp <= supply,
    ensures
        0 <= lp_share(reserve, lp, supply) <= reserve,
        lp == supply ==> lp_share(reserve, lp, supply) == reserve,
{
    let x = reserve * lp;
    assert(0 <= x <= reserve * supply) by (nonlinear_arith)
        requires
            x == reserve * lp,
            reserve >= 0,
            0 < lp <= supply,
    ;
    lemma_div_product(x, supply);
    let y = quot(x, supply);
    assert(y <= reserve) by (nonlinear_arith)
        requires
            y * supply <= x,
            x <= reserve * supply,
            supply > 0,
    ;
    if lp == supply {
        assert(y >= reserve) by (nonlinear_arith)
            requires
                x < (y + 1) * supply,
                x == reserve * supply,
                supply > 0,
        ;
    }
}

// ---------------------------------------------------------------------------
// Settlement
// ---------------------------------------------------------------------------

/// Redeeming pays one unit of collateral for each winning token and takes
/// exactly these tokens off the position.
pub proof fn redeeming_pays_one_to_one(s: PredictionState, user: Address, id: u64, amount: i128)
    requires
        s.wf(),
        tokens_redeemed(s, user, id, amount) is Ok,
    ensures
        ({
            let (t, payout) = tokens_redeemed(s, user, id, amount)->Ok_0;
            let w = s.markets[id].resolved_outcome.unwrap();
            let before = s.positions[(id, user)];
            let after = t.positions[(id, user)];
            &&& payout == amount
            &&& 0 < amount <= held_of(before, w)
            &&& held_of(after, w) == held_of(before, w) - amount
            &&& forall|o: u32| o != w ==> held_of(after, o) == held_of(before, o)
        }),
{
    assert(s.markets[id].market_id == id);
}

/// A settled position pays nothing more: neither settling nor redeeming it
/// again succeeds.
pub proof fn a_position_is_settled_once(s: PredictionState, user: Address, id: u64, amount: i128)
    requires
        s.wf(),
        position_settled(s, user, id) is Ok,
    ensures
        ({
            let t = position_settled(s, user, id)->Ok_0.0;
            &&& position_settled(t, user, id) == Err::<(PredictionState, i128), PredictionError>(
                PredictionError::MarketAlreadyResolved,
            )
            &&& tokens_redeemed(t, user, id, amount) is Err
        }),
{
    assert(s.markets[id].market_id == id);
}

// ---------------------------------------------------------------------------
// Life cycle
// ---------------------------------------------------------------------------

/// A market that was closed or cancelled never trades, resolves or changes
/// its status again.
pub proof fn closed_markets_stay_closed(
    s: PredictionState,
    who: Address,
    id: u64,
    i: u32,
    amount: i128,
    least: i128,
    side: OrderSide,
    provider: Symbol,
)
    requires
        s.markets.contains_key(id),
        s.markets[id].status == MarketStatus::Closed || s.markets[id].status
            == MarketStatus::Cancelled,
    ensures
        outcome_bought(s, who, id, i, amount, least) is Err,
        outcome_sold(s, who, id, i, amount, least) is Err,
        order_placed(s, who, id, i, side, amount, least) is Err,
        pool_created(s, who, id, amount) is Err,
        liquidity_added(s, who, id, amount) is Err,
        trading_finalized(s, id) is Err,
        resolution_submitted(s, id, provider, i) is Err,
        market_closed(s, who, id) is Err,
        market_cancelled(s, who, id) is Err,
        tokens_redeemed(s, who, id, amount) is Err,
{
}

/// A cancelled order cannot be cancelled again, whoever tries.
pub proof fn an_order_is_cancelled_once(
    s: PredictionState,
    caller: Address,
    other: Address,
    id: u64,
    order_id: u64,
)
    requires
        order_cancelled(s, caller, id, order_id) is Ok,
    ensures
        order_cancelled(order_cancelled(s, caller, id, order_id)->Ok_0.0, other, id, order_id)
            == Err::<(PredictionState, Symbol), PredictionError>(PredictionError::OrderNotFound),
{
}

// ---------------------------------------------------------------------------
// Matching
// ---------------------------------------------------------------------------

/// The quantity of all fills.
pub open spec fn total_filled(fills: Seq<TradeFill>) -> int
    decreases fills.len(),
{
    if fills.len() == 0 {
        0
    } else {
        total_filled(fills.drop_last()) + fills.last().amount
    }
}

/// What the orders of a book still want.
pub open spec fn total_resting(book: Seq<PredictionOrder>) -> int
    decreases book.len(),
{
    if book.len() == 0 {
        0
    } else {
        total_resting(book.drop_last()) + book.last().remaining
    }
}

proof fn lemma_resting_update(book: Seq<PredictionOrder>, i: int, o: PredictionOrder)
    requires
        0 <= i < book.len(),
    ensures
        total_resting(book.update(i, o)) == total_resting(book) - book[i].remaining + o.remaining,
    decreases book.len(),
{
    let b = book.update(i, o);
    if i == book.len() - 1 {
        assert(b.drop_last() =~= book.drop_last());
    } else {
        lemma_resting_update(book.drop_last(), i, o);
        assert(b.drop_last() =~= book.drop_last().update(i, o));
    }
}

proof fn lemma_resting_remove(book: Seq<PredictionOrder>, i: int)
    requires
        0 <= i < book.len(),
    ensures
        total_resting(book.remove(i)) == total_resting(book) - book[i].remaining,
    decreases book.len(),
{
    let b = book.remove(i);
    if i == book.len() - 1 {
        assert(b =~= book.drop_last());
    } else {
        lemma_resting_remove(book.drop_last(), i);
        assert(b.drop_last() =~= book.drop_last().remove(i));
        assert(b.last() == book.last());
    }
}

/// A match gives the taker exactly what it takes off the resting orders: the
/// new fills add up to what the taker no longer wants and to what the book
/// lost, and the taker never gets more than wanted.
pub proof fn matching_conserves_quantity(t: Taker, m: Matching)
    requires
        forall|i: int| 0 <= i < m.book.len() ==> (#[trigger] m.book[i]).remaining > 0,
    ensures
        ({
            let r = run_match(t, m);
            &&& total_filled(r.fills) - total_filled(m.fills) == m.remaining - r.remaining
            &&& total_resting(m.book) - total_resting(r.book) == m.remaining - r.remaining
            &&& r.remaining <= m.remaining
            &&& m.remaining >= 0 ==> r.remaining >= 0
        }),
    decreases m.book.len(),
{
    lemma_best_match(t, m.book, m.book.len() as int);
    match best_match(t, m.book, m.book.len() as int) {
        None => {},
        Some(i) => {
            if m.remaining > 0 {
                let next = match_step(t, m, i);
                let o = m.book[i];
                let qty = lesser(m.remaining, o.remaining as int);
                assert(next.fills.drop_last() =~= m.fills);
                if o.remaining == qty {
                    lemma_resting_remove(m.book, i);
                } else {
                    lemma_resting_update(m.book, i, next.book[i]);
                }
                if o.remaining <= m.remaining {
                    assert forall|j: int| 0 <= j < next.book.len() implies (#[trigger]
                    next.book[j]).remaining > 0 by {
                        assert(next.book[j] == m.book[if j < i {
                            j
                        } else {
                            j + 1
                        }]);
                    }
                    matching_conserves_quantity(t, next);
                }
            }
        },
    }
}

/// Each new fill is within the taker's limit and no better than `bound`,
/// where no order that can match is better than `bound`.
proof fn lemma_fill_prices(t: Taker, m: Matching, bound: i128)
    requires
        forall|i: int| 0 <= i < m.book.len() ==> (#[trigger] m.book[i]).remaining > 0,
        forall|i: int|
            0 <= i < m.book.len() && can_match(t, #[trigger] m.book[i]) ==> !better_price(
                t,
                m.book[i].price,
                bound,
            ),
    ensures
        ({
            let r = run_match(t, m);
            &&& m.fills.len() <= r.fills.len()
            &&& forall|k: int| 0 <= k < m.fills.len() ==> #[trigger] r.fills[k] == m.fills[k]
            &&& forall|k: int|
                m.fills.len() <= k < r.fills.len() ==> {
                    &&& !better_price(t, (#[trigger] r.fills[k]).price, bound)
                    &&& r.fills[k].amount > 0
                    &&& if t.side == OrderSide::Buy {
                        r.fills[k].price <= t.limit_price
                    } else {
                        r.fills[k].price >= t.limit_price
                    }
                }
        }),
    decreases m.book.len(),
{
    lemma_best_match(t, m.book, m.book.len() as int);
    match best_match(t, m.book, m.book.len() as int) {
        None => {},
        Some(i) => {
            if m.remaining > 0 && m.book[i].remaining <= m.remaining {
                let next = match_step(t, m, i);
                assert forall|j: int| 0 <= j < next.book.len() implies {
                    &&& (#[trigger] next.book[j]).remaining > 0
                    &&& can_match(t, next.book[j]) ==> !better_price(t, next.book[j].price, bound)
                } by {
                    assert(next.book[j] == m.book[if j < i {
                        j
                    } else {
                        j + 1
                    }]);
                }
                lemma_fill_prices(t, next, bound);
                let r = run_match(t, m);
                assert(r == run_match(t, next));
                assert(next.fills[m.fills.len() as int].price == m.book[i].price);
                assert forall|k: int| 0 <= k < m.fills.len() implies #[trigger] r.fills[k]
                    == m.fills[k] by {
                    assert(r.fills[k] == next.fills[k]);
                }
                assert(r.fills[m.fills.len() as int] == next.fills[m.fills.len() as int]);
            }
        },
    }
}

/// Fills come in the order of price, best for the taker first, each within
/// the taker's limit and of a positive quantity.
pub proof fn matching_has_price_priority(t: Taker, m: Matching)
    requires
        forall|i: int| 0 <= i < m.book.len() ==> (#[trigger] m.book[i]).remaining > 0,
    ensures
        ({
            let r = run_match(t, m);
            &&& m.fills.len() <= r.fills.len()
            &&& forall|k: int|
                m.fills.len() <= k < r.fills.len() ==> {
                    &&& (#[trigger] r.fills[k]).amount > 0
                    &&& if t.side == OrderSide::Buy {
                        r.fills[k].price <= t.limit_price
                    } else {
                        r.fills[k].price >= t.limit_price
                    }
                }
            &&& forall|a: int, b: int|
                m.fills.len() <= a < b < r.fills.len() ==> !better_price(
                    t,
                    (#[trigger] r.fills[b]).price,
                    (#[trigger] r.fills[a]).price,
                )
        }),
    decreases m.book.len(),
{
    lemma_best_match(t, m.book, m.book.len() as int);
    match best_match(t, m.book, m.book.len() as int) {
        None => {},
        Some(i) => {
            let top = m.book[i].price;
            lemma_fill_prices(t, m, top);
            if m.remaining > 0 && m.book[i].remaining <= m.remaining {
                let next = match_step(t, m, i);
                assert forall|j: int| 0 <= j < next.book.len() implies {
                    &&& (#[trigger] next.book[j]).remaining > 0
                    &&& can_match(t, next.book[j]) ==> !better_price(t, next.book[j].price, top)
                } by {
                    assert(next.book[j] == m.book[if j < i {
                        j
                    } else {
                        j + 1
                    }]);
                }
                lemma_fill_prices(t, next, top);
                matching_has_price_priority(t, next);
                let r = run_match(t, m);
                assert(r == run_match(t, next));
                assert(r.fills[m.fills.len() as int] == next.fills[m.fills.len() as int]);
                assert forall|a: int, b: int|
                    m.fills.len() <= a < b < r.fills.len() implies !better_price(
                    t,
                    (#[trigger] r.fills[b]).price,
                    (#[trigger] r.fills[a]).price,
                ) by {
                    if a == m.fills.len() {
                        assert(r.fills[a].price == top);
                    }
                }
            }
        },
    }
}

/// Of the orders at one price the oldest is filled first.
pub proof fn matching_has_time_priority(t: Taker, book: Seq<PredictionOrder>, j: int)
    requires
        best_match(t, book, book.len() as int) is Some,
        0 <= j < best_match(t, book, book.len() as int).unwrap(),
        can_match(t, book[j]),
    ensures
        book[j].price != book[best_match(t, book, book.len() as int).unwrap()].price,
{
    lemma_best_match(t, book, book.len() as int);
}

} // verus!
