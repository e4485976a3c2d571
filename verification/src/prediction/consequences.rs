//! What the prediction markets do, call by call, in terms of the stored
//! markets, pools and balances and of what callers hand in and get back.

use vstd::prelude::*;

use crate::base::address::Address;
use crate::base::arith::{fits, lemma_quot_bounds, lemma_quot_rest, quot};
use crate::prediction::contract::{
    liquidity_added, liquidity_removed, outcome_bought, outcome_sold, pool_created, sum_upto,
    sums_fit,
};
use crate::prediction::cpmm::{buy, sell};
use crate::prediction::state::PredictionState;
use crate::prediction::types::{
    LiquidityPoolView, MarketStatus, MarketView, PredictionError, SwapResult,
};

verus! {

// ---------------------------------------------------------------------------
// Numbers
// ---------------------------------------------------------------------------

/// `part` is the fraction of the whole that the basis points say, rounded
/// toward zero.
pub open spec fn is_fraction(part: int, whole: int, bps: int) -> bool {
    if whole * bps >= 0 {
        part * 10_000 <= whole * bps < (part + 1) * 10_000
    } else {
        (part - 1) * 10_000 < whole * bps <= part * 10_000
    }
}

/// `q` is `a` over `b`, rounded down.
pub open spec fn is_quotient(q: int, a: int, b: int) -> bool {
    q * b <= a < (q + 1) * b
}

/// What a user has of an outcome.
pub open spec fn tokens_of(s: PredictionState, id: u64, user: Address, i: u32) -> int {
    if s.outcome_balances.contains_key((id, user, i)) {
        s.outcome_balances[(id, user, i)] as int
    } else {
        0
    }
}

/// The LP tokens that a user has of a market.
pub open spec fn lp_of(s: PredictionState, id: u64, user: Address) -> int {
    if s.lp_balances.contains_key((id, user)) {
        s.lp_balances[(id, user)] as int
    } else {
        0
    }
}

/// All LP tokens of a market.
pub open spec fn lp_supply_of(s: PredictionState, id: u64) -> int {
    if s.lp_total_supply.contains_key(id) {
        s.lp_total_supply[id] as int
    } else {
        0
    }
}

/// The volume that was traded in a market.
pub open spec fn volume_of(s: PredictionState, id: u64) -> int {
    if s.trading_volume.contains_key(id) {
        s.trading_volume[id] as int
    } else {
        0
    }
}

/// The sum of a list.
pub open spec fn total_of(list: Seq<i128>) -> int
    decreases list.len(),
{
    if list.len() == 0 {
        0
    } else {
        total_of(list.drop_last()) + list.last()
    }
}

proof fn lemma_total(list: Seq<i128>, n: int)
    requires
        0 <= n <= list.len(),
    ensures
        sum_upto(list, n) == total_of(list.take(n)),
    decreases n,
{
    if n > 0 {
        lemma_total(list, n - 1);
        assert(list.take(n).drop_last() =~= list.take(n - 1));
        assert(list.take(n).last() == list[n - 1]);
    }
}

proof fn lemma_fraction(whole: int, bps: int)
    ensures
        is_fraction(quot(whole * bps, 10_000), whole, bps),
{
    lemma_quot_rest(whole * bps, 10_000);
}

proof fn lemma_quotient(a: int, b: int)
    requires
        a >= 0,
        b > 0,
    ensures
        is_quotient(quot(a, b), a, b),
        quot(a, b) >= 0,
{
    lemma_quot_rest(a, b);
    lemma_quot_bounds(a, b);
    let q = quot(a, b);
    assert((q + 1) * b == q * b + b) by (nonlinear_arith);
}

// ---------------------------------------------------------------------------
// Trading with a pool
// ---------------------------------------------------------------------------

/// The market trades now, knows the outcome and has a pool.
pub open spec fn trades_now(s: PredictionState, id: u64, i: u32) -> bool {
    &&& s.markets.contains_key(id)
    &&& s.markets[id].status == MarketStatus::Active
    &&& s.timestamp < s.markets[id].trading_end_time
    &&& i < s.markets[id].outcomes.len()
    &&& s.pools.contains_key(id)
}

/// What a trade leaves alone: all markets and LP tokens, every other pool, and
/// what anyone else has or the trader has of anything else.
pub open spec fn trades_only(
    s: PredictionState,
    t: PredictionState,
    trader: Address,
    id: u64,
    i: u32,
) -> bool {
    &&& t.markets == s.markets
    &&& t.lp_balances == s.lp_balances
    &&& t.lp_total_supply == s.lp_total_supply
    &&& t.pools == s.pools.insert(id, t.pools[id])
    &&& t.outcome_balances == s.outcome_balances.insert(
        (id, trader, i),
        t.outcome_balances[(id, trader, i)],
    )
    &&& t.trading_volume == s.trading_volume.insert(id, t.trading_volume[id])
    &&& forall|k: (u64, Address)|
        k != (id, trader) ==> (#[trigger] t.positions.contains_key(k) <==> s.positions.contains_key(
            k,
        )) && t.positions[k] == s.positions[k]
    &&& t.orders == s.orders
    &&& t.order_books == s.order_books
}

/// All reserves of the pool but those that the trade moves stay, its products
/// are those of its reserves, and it stands for the same LP tokens.
pub open spec fn moves_one_reserve(p: LiquidityPoolView, q: LiquidityPoolView, i: int) -> bool {
    &&& q.market_id == p.market_id
    &&& q.lp_supply == p.lp_supply
    &&& q.outcome_reserves.len() == p.outcome_reserves.len()
    &&& q.k_per_outcome.len() == p.outcome_reserves.len()
    &&& forall|j: int|
        0 <= j < p.outcome_reserves.len() && j != i ==> #[trigger] q.outcome_reserves[j]
            == p.outcome_reserves[j]
    &&& forall|j: int|
        0 <= j < p.outcome_reserves.len() ==> #[trigger] q.k_per_outcome[j] == q.collateral_reserve
            * q.outcome_reserves[j]
}

/// A purchase is charged the fee of its market: that fraction of the amount
/// goes to the accumulated fees, and all the rest into the pool. The buyer
/// gets what leaves the outcome's reserve, which is then the product over the
/// new collateral, rounded down. It is never less than asked for, nor nothing.
pub proof fn purchases_pay_the_fee_of_the_market(
    s: PredictionState,
    buyer: Address,
    id: u64,
    i: u32,
    amount: i128,
    least: i128,
)
    requires
        s.wf(),
        outcome_bought(s, buyer, id, i, amount, least) is Ok,
    ensures
        ({
            let (t, swap) = outcome_bought(s, buyer, id, i, amount, least)->Ok_0;
            let m = s.markets[id];
            let p = s.pools[id];
            let q = t.pools[id];
            let net = amount - swap.fee;
            &&& trades_now(s, id, i)
            &&& m.max_outcome_supply > 0 ==> total_of(p.outcome_reserves) + amount
                <= m.max_outcome_supply
            &&& amount > 0
            &&& is_fraction(swap.fee as int, amount as int, m.fee_bps as int)
            &&& q.fees_accumulated == p.fees_accumulated + swap.fee
            &&& q.collateral_reserve == p.collateral_reserve + net
            &&& q.total_volume == p.total_volume + amount
            &&& swap.collateral_amount == amount
            &&& swap.outcome_amount > 0
            &&& swap.outcome_amount >= least
            &&& q.outcome_reserves[i as int] == p.outcome_reserves[i as int] - swap.outcome_amount
            &&& p.k_per_outcome[i as int] >= 0 && q.collateral_reserve > 0 ==> is_quotient(
                q.outcome_reserves[i as int] as int,
                p.k_per_outcome[i as int] as int,
                q.collateral_reserve as int,
            )
            &&& p.collateral_reserve > 0 && net >= 0 ==> is_quotient(
                swap.price_impact_bps as int,
                net * 10_000,
                p.collateral_reserve as int,
            )
            &&& moves_one_reserve(p, q, i as int)
            &&& tokens_of(t, id, buyer, i) == tokens_of(s, id, buyer, i) + swap.outcome_amount
            &&& volume_of(t, id) == volume_of(s, id) + amount
            &&& trades_only(s, t, buyer, id, i)
        }),
{
    let (t, swap) = outcome_bought(s, buyer, id, i, amount, least)->Ok_0;
    let m = s.markets[id];
    let p = s.pools[id];
    let n = p.outcome_reserves.len() as int;
    lemma_total(p.outcome_reserves, n);
    assert(p.outcome_reserves.take(n) =~= p.outcome_reserves);
    lemma_fraction(amount as int, m.fee_bps as int);
    lemma_quot_bounds(amount * m.fee_bps, 10_000);
    let net = amount - quot(amount * m.fee_bps, 10_000);
    let c = p.collateral_reserve + net;
    if p.k_per_outcome[i as int] >= 0 && c > 0 {
        lemma_quotient(p.k_per_outcome[i as int] as int, c);
    }
    if p.collateral_reserve > 0 && net >= 0 {
        lemma_quotient(net * 10_000, p.collateral_reserve as int);
        lemma_quot_bounds(net * 10_000, p.collateral_reserve as int);
    }
}

/// A sale puts the tokens into the outcome's reserve and leaves the product
/// over it, rounded down, as collateral. The fee of the market is that
/// fraction of what leaves the collateral reserve; the seller gets the rest,
/// which is never less than asked for, nor nothing.
pub proof fn sales_pay_the_fee_of_the_market(
    s: PredictionState,
    seller: Address,
    id: u64,
    i: u32,
    tokens: i128,
    least: i128,
)
    requires
        s.wf(),
        outcome_sold(s, seller, id, i, tokens, least) is Ok,
    ensures
        ({
            let (t, swap) = outcome_sold(s, seller, id, i, tokens, least)->Ok_0;
            let m = s.markets[id];
            let p = s.pools[id];
            let q = t.pools[id];
            let gross = p.collateral_reserve - q.collateral_reserve;
            &&& trades_now(s, id, i)
            &&& 0 < tokens <= tokens_of(s, id, seller, i)
            &&& is_fraction(swap.fee as int, gross, m.fee_bps as int)
            &&& q.fees_accumulated == p.fees_accumulated + swap.fee
            &&& swap.collateral_amount + swap.fee == gross
            &&& q.total_volume == p.total_volume + tokens
            &&& swap.outcome_amount == tokens
            &&& swap.collateral_amount > 0
            &&& swap.collateral_amount >= least
            &&& q.outcome_reserves[i as int] == p.outcome_reserves[i as int] + tokens
            &&& p.k_per_outcome[i as int] >= 0 && q.outcome_reserves[i as int] > 0 ==> is_quotient(
                q.collateral_reserve as int,
                p.k_per_outcome[i as int] as int,
                q.outcome_reserves[i as int] as int,
            )
            &&& p.collateral_reserve > 0 && gross >= 0 ==> is_quotient(
                swap.price_impact_bps as int,
                gross * 10_000,
                p.collateral_reserve as int,
            )
            &&& moves_one_reserve(p, q, i as int)
            &&& tokens_of(t, id, seller, i) == tokens_of(s, id, seller, i) - tokens
            &&& volume_of(t, id) == volume_of(s, id) + swap.collateral_amount
            &&& trades_only(s, t, seller, id, i)
        }),
{
    let (t, swap) = outcome_sold(s, seller, id, i, tokens, least)->Ok_0;
    let m = s.markets[id];
    let p = s.pools[id];
    let r = p.outcome_reserves[i as int] + tokens;
    let c = quot(p.k_per_outcome[i as int] as int, r);
    let gross = p.collateral_reserve - c;
    lemma_fraction(gross, m.fee_bps as int);
    lemma_quot_bounds(gross * m.fee_bps, 10_000);
    if p.k_per_outcome[i as int] >= 0 && r > 0 {
        lemma_quotient(p.k_per_outcome[i as int] as int, r);
    }
    if p.collateral_reserve > 0 && gross >= 0 {
        lemma_quotient(gross * 10_000, p.collateral_reserve as int);
        lemma_quot_bounds(gross * 10_000, p.collateral_reserve as int);
    }
}

/// The pool holds positive reserves of at most `max`, its products are those
/// of its reserves, and its sums are at most `max` as well.
pub open spec fn is_moderate(p: LiquidityPoolView, max: int) -> bool {
    &&& p.wf()
    &&& p.outcome_reserves.len() <= 1_000
    &&& 0 < p.collateral_reserve <= max
    &&& 0 <= p.fees_accumulated <= max
    &&& 0 <= p.total_volume <= max
    &&& forall|j: int|
        0 <= j < p.outcome_reserves.len() ==> 0 < #[trigger] p.outcome_reserves[j] <= max
            && p.k_per_outcome[j] == p.collateral_reserve * p.outcome_reserves[j]
}

proof fn lemma_moderate_sums(list: Seq<i128>, max: int, n: int)
    requires
        0 <= n <= list.len() <= 1_000,
        0 <= max <= 100_000_000_000_000_000,
        forall|j: int| 0 <= j < list.len() ==> 0 < #[trigger] list[j] <= max,
    ensures
        0 <= sum_upto(list, n) <= n * max,
        n * max <= 100_000_000_000_000_000_000,
    decreases n,
{
    assert(n * max <= 1_000 * 100_000_000_000_000_000) by (nonlinear_arith)
        requires
            0 <= n <= 1_000,
            0 <= max <= 100_000_000_000_000_000,
    ;
    if n > 0 {
        lemma_moderate_sums(list, max, n - 1);
        assert((n - 1) * max + max == n * max) by (nonlinear_arith);
    }
}

proof fn lemma_moderate_product(a: int, b: int)
    requires
        0 <= a <= 400_000_000_000_000_000,
        0 <= b <= 400_000_000_000_000_000,
    ensures
        0 <= a * b <= 160_000_000_000_000_000_000_000_000_000_000_000,
{
    assert(0 <= a * b <= 160_000_000_000_000_000_000_000_000_000_000_000) by (nonlinear_arith)
        requires
            0 <= a <= 400_000_000_000_000_000,
            0 <= b <= 400_000_000_000_000_000,
    ;
}

/// Where the market trades, is below its cap and takes a fee of less than the
/// whole, a purchase of a moderate amount from a moderate pool goes through as
/// soon as it brings something, and no less than asked for.
pub proof fn moderate_purchases_go_through(
    s: PredictionState,
    buyer: Address,
    id: u64,
    i: u32,
    amount: i128,
    least: i128,
    max: int,
)
    requires
        trades_now(s, id, i),
        0 < max <= 100_000_000_000_000_000,
        is_moderate(s.pools[id], max),
        i < s.pools[id].outcome_reserves.len(),
        s.markets[id].max_outcome_supply > 0 ==> total_of(s.pools[id].outcome_reserves) + amount
            <= s.markets[id].max_outcome_supply,
        0 <= s.markets[id].fee_bps < 10_000,
        0 < amount <= max,
        0 <= tokens_of(s, id, buyer, i) <= max,
        0 <= volume_of(s, id) <= max,
        ({
            let p = s.pools[id];
            let wanted = if least > 1 {
                least as int
            } else {
                1
            };
            let net = amount - amount * s.markets[id].fee_bps / 10_000;
            p.collateral_reserve * p.outcome_reserves[i as int] < (p.outcome_reserves[i as int]
                - wanted + 1) * (p.collateral_reserve + net)
        }),
    ensures
        outcome_bought(s, buyer, id, i, amount, least) is Ok,
{
    let p = s.pools[id];
    let m = s.markets[id];
    let n = p.outcome_reserves.len() as int;
    let x = amount * m.fee_bps;
    assert(0 <= x < amount * 10_000) by (nonlinear_arith)
        requires
            x == amount * m.fee_bps,
            0 <= m.fee_bps < 10_000,
            amount > 0,
    ;
    lemma_quot_bounds(x, 10_000);
    lemma_quot_rest(x, 10_000);
    let fee = quot(x, 10_000);
    assert(fee == x / 10_000);
    let net = amount - fee;
    let c = p.collateral_reserve + net;
    let y = p.outcome_reserves[i as int] as int;
    let k = p.collateral_reserve * y;
    assert(p.k_per_outcome[i as int] == k);
    lemma_moderate_product(p.collateral_reserve as int, y);
    lemma_quotient(k, c);
    lemma_quot_bounds(k, c);
    let r = quot(k, c);
    let wanted = if least > 1 {
        least as int
    } else {
        1
    };
    assert(r < y - wanted + 1) by (nonlinear_arith)
        requires
            r * c <= k,
            k < (y - wanted + 1) * c,
            c > 0,
    ;
    assert forall|j: int| 0 <= j <= n implies fits(#[trigger] sum_upto(p.outcome_reserves, j)) by {
        lemma_moderate_sums(p.outcome_reserves, max, j);
    }
    assert(sums_fit(p.outcome_reserves));
    lemma_moderate_sums(p.outcome_reserves, max, n);
    lemma_total(p.outcome_reserves, n);
    assert(p.outcome_reserves.take(n) =~= p.outcome_reserves);
    let moved = LiquidityPoolView {
        collateral_reserve: c as i128,
        outcome_reserves: p.outcome_reserves.update(i as int, r as i128),
        fees_accumulated: (p.fees_accumulated + fee) as i128,
        total_volume: (p.total_volume + amount) as i128,
        ..p
    };
    assert forall|j: int| 0 <= j < moved.outcome_reserves.len() implies fits(
        moved.collateral_reserve * #[trigger] moved.outcome_reserves[j],
    ) by {
        if j != i {
            assert(moved.outcome_reserves[j] == p.outcome_reserves[j]);
        }
        lemma_moderate_product(c, moved.outcome_reserves[j] as int);
    }
    assert(moved.products_fit());
    assert(buy(p, i as int, amount, m.fee_bps, least) is Ok);
}

/// Where the market trades and takes a fee of less than the whole, a sale of
/// tokens that the seller has, in balance and position, to a moderate pool
/// goes through as soon as it brings something, and no less than asked for.
pub proof fn moderate_sales_go_through(
    s: PredictionState,
    seller: Address,
    id: u64,
    i: u32,
    tokens: i128,
    least: i128,
    max: int,
)
    requires
        trades_now(s, id, i),
        0 < max <= 100_000_000_000_000_000,
        is_moderate(s.pools[id], max),
        i < s.pools[id].outcome_reserves.len(),
        0 <= s.markets[id].fee_bps < 10_000,
        0 < tokens <= tokens_of(s, id, seller, i) <= max,
        0 <= volume_of(s, id) <= max,
        s.positions.contains_key((id, seller)),
        i < s.positions[(id, seller)].outcome_amounts.len(),
        tokens <= s.positions[(id, seller)].outcome_amounts[i as int] <= max,
        ({
            let p = s.pools[id];
            let y = p.outcome_reserves[i as int] as int;
            let gross = p.collateral_reserve - p.collateral_reserve * y / (y + tokens);
            let paid = gross - gross * s.markets[id].fee_bps / 10_000;
            paid > 0 && paid >= least
        }),
    ensures
        outcome_sold(s, seller, id, i, tokens, least) is Ok,
{
    let p = s.pools[id];
    let m = s.markets[id];
    let n = p.outcome_reserves.len() as int;
    let y = p.outcome_reserves[i as int] as int;
    let r = y + tokens;
    let k = p.collateral_reserve * y;
    assert(p.k_per_outcome[i as int] == k);
    lemma_moderate_product(p.collateral_reserve as int, y);
    assert(k > 0) by (nonlinear_arith)
        requires
            k == p.collateral_reserve * y,
            p.collateral_reserve > 0,
            y > 0,
    ;
    lemma_quotient(k, r);
    lemma_quot_bounds(k, r);
    let c = quot(k, r);
    assert(c == k / r);
    assert(c <= p.collateral_reserve) by (nonlinear_arith)
        requires
            c * r <= k,
            k == p.collateral_reserve * y,
            r >= y > 0,
            p.collateral_reserve > 0,
    ;
    let gross = p.collateral_reserve - c;
    let x = gross * m.fee_bps;
    assert(0 <= x <= gross * 10_000) by (nonlinear_arith)
        requires
            x == gross * m.fee_bps,
            0 <= m.fee_bps < 10_000,
            gross >= 0,
    ;
    lemma_quot_bounds(x, 10_000);
    lemma_quot_rest(x, 10_000);
    let fee = quot(x, 10_000);
    assert(fee == x / 10_000);
    let moved = LiquidityPoolView {
        collateral_reserve: c as i128,
        outcome_reserves: p.outcome_reserves.update(i as int, r as i128),
        fees_accumulated: (p.fees_accumulated + fee) as i128,
        total_volume: (p.total_volume + tokens) as i128,
        ..p
    };
    assert forall|j: int| 0 <= j < moved.outcome_reserves.len() implies fits(
        moved.collateral_reserve * #[trigger] moved.outcome_reserves[j],
    ) by {
        if j != i {
            assert(moved.outcome_reserves[j] == p.outcome_reserves[j]);
        }
        lemma_moderate_product(c, moved.outcome_reserves[j] as int);
    }
    assert(moved.products_fit());
    assert(sell(p, i as int, tokens, m.fee_bps, least) is Ok);
    let paid = gross - fee;
    lemma_quot_bounds(paid, tokens as int);
    lemma_quot_rest(paid, tokens as int);
    let price = quot(paid, tokens as int);
    assert(0 <= price * tokens <= paid);
}

} // verus!
