//! What opening markets and pools and moving liquidity does, in terms of the
//! stored values and of what callers hand in and get back.

use vstd::prelude::*;

use crate::base::address::Address;
use crate::base::arith::{fits, lemma_quot_bounds, lemma_quot_rest, quot};
use crate::base::symbol::sym;
use crate::prediction::consequences::{is_quotient, lp_of, lp_supply_of};
use crate::prediction::contract::{
    active_markets, fees_distributed, liquidity_added, liquidity_removed, market_created,
    pool_created, MarketTerms,
};
use crate::prediction::cpmm::{
    deposit_share, first_deposit_error, lp_share, outcome_price, outcome_shares, provide,
    provide_first, withdraw,
};
use crate::prediction::state::PredictionState;
use crate::prediction::types::{
    LPResultView, LiquidityPoolView, MarketStatus, MarketView, OracleSource,
};

verus! {

proof fn lemma_down(a: int, b: int)
    requires
        a >= 0,
        b > 0,
    ensures
        is_quotient(quot(a, b), a, b),
        quot(a, b) >= 0,
{
    lemma_quot_rest(a, b);
    lemma_quot_bounds(a, b);
    let q = quot(a, b);
    assert((q + 1) * b == q * b + b) by (nonlinear_arith);
}

proof fn lemma_nonnegative(a: int, b: int)
    requires
        a >= 0,
        b >= 0,
    ensures
        a * b >= 0,
{
    assert(a * b >= 0) by (nonlinear_arith)
        requires
            a >= 0,
            b >= 0,
    ;
}

// ---------------------------------------------------------------------------
// Opening
// ---------------------------------------------------------------------------

proof fn lemma_active(s: PredictionState, ids: Seq<u64>, n: int)
    requires
        0 <= n <= ids.len(),
    ensures
        active_markets(s, ids, n) == ids.take(n).filter(
            |id: u64|
                s.markets.contains_key(id) && s.markets[id].status == MarketStatus::Active,
        ).len(),
    decreases n,
{
    reveal(Seq::filter);
    if n > 0 {
        lemma_active(s, ids, n - 1);
        assert(ids.take(n).drop_last() =~= ids.take(n - 1));
        assert(ids.take(n).last() == ids[n - 1]);
    }
}

/// A market with two to ten outcomes, whose trading ends after now and is
/// resolved after that, opens as long as fewer than ten thousand are active.
/// It gets the next number, its own terms and no collateral, is listed and
/// found under its category, and is resolved by its oracle.
pub proof fn markets_open_on_their_terms(s: PredictionState, terms: MarketTerms)
    requires
        s.next_market_id < u64::MAX,
    ensures
        ({
            let r = market_created(s, terms);
            let active = s.market_list.filter(
                |id: u64|
                    s.markets.contains_key(id) && s.markets[id].status == MarketStatus::Active,
            ).len();
            &&& r is Ok <==> {
                &&& 2 <= terms.outcomes.len() <= 10
                &&& s.timestamp < terms.trading_end_time < terms.resolution_time
                &&& active < 10_000
            }
            &&& r is Ok ==> {
                let (t, id) = r->Ok_0;
                let m = t.markets[id];
                &&& id == s.next_market_id
                &&& t.next_market_id == id + 1
                &&& t.markets == s.markets.insert(id, m)
                &&& t.market_list == s.market_list.push(id)
                &&& t.markets_by_category.contains_key(terms.category)
                &&& t.markets_by_category[terms.category].last() == id
                &&& m.market_id == id
                &&& m.status == MarketStatus::Active
                &&& m.creator == terms.creator
                &&& m.description == terms.description
                &&& m.category == terms.category
                &&& m.outcomes == terms.outcomes
                &&& m.created_at == s.timestamp
                &&& m.trading_end_time == terms.trading_end_time
                &&& m.resolution_time == terms.resolution_time
                &&& m.oracle_source == terms.oracle_source
                &&& m.max_outcome_supply == terms.max_outcome_supply
                &&& m.fee_bps == terms.fee_bps
                &&& m.allow_early_close == terms.allow_early_close
                &&& m.total_collateral == 0
                &&& m.resolved_outcome is None && m.resolved_at is None
                &&& t.oracle_sources[id].provider_id == terms.oracle_source
                &&& t.oracle_sources[id].is_active
                &&& t.pools == s.pools
                &&& t.outcome_balances == s.outcome_balances
                &&& t.lp_balances == s.lp_balances
            }
        }),
{
    lemma_active(s, s.market_list, s.market_list.len() as int);
    assert(s.market_list.take(s.market_list.len() as int) =~= s.market_list);
}

/// An active market gets a pool for a seed of at least a thousand: the seed as
/// collateral, as reserve of every outcome and as LP tokens of the creator.
pub proof fn pools_open_with_their_seed(s: PredictionState, creator: Address, id: u64, seed: i128)
    requires
        s.wf(),
        s.markets.contains_key(id),
    ensures
        ({
            let r = pool_created(s, creator, id, seed);
            &&& r is Ok <==> {
                &&& s.markets[id].status == MarketStatus::Active
                &&& seed >= 1_000
                &&& fits(seed * seed)
                &&& fits(lp_of(s, id, creator) + seed)
                &&& fits(lp_supply_of(s, id) + seed)
            }
            &&& r is Ok ==> {
                let (t, lp) = r->Ok_0;
                let p = t.pools[id];
                &&& t.pools == s.pools.insert(id, p)
                &&& p.market_id == id
                &&& p.collateral_reserve == seed
                &&& p.lp_supply == seed
                &&& p.fees_accumulated == 0 && p.total_volume == 0
                &&& p.outcome_reserves.len() == s.markets[id].outcomes.len()
                &&& p.k_per_outcome.len() == p.outcome_reserves.len()
                &&& forall|j: int|
                    0 <= j < p.outcome_reserves.len() ==> #[trigger] p.outcome_reserves[j] == seed
                &&& forall|j: int|
                    0 <= j < p.k_per_outcome.len() ==> #[trigger] p.k_per_outcome[j] == seed * seed
                &&& lp.lp_tokens_minted == seed
                &&& lp.collateral_deposited == seed
                &&& lp_of(t, id, creator) == lp_of(s, id, creator) + seed
                &&& lp_supply_of(t, id) == lp_supply_of(s, id) + seed
                &&& t.markets == s.markets.insert(
                    id,
                    MarketView { total_collateral: seed, ..s.markets[id] },
                )
            }
        }),
{
}

// ---------------------------------------------------------------------------
// Liquidity
// ---------------------------------------------------------------------------

/// No reserve of the pool is negative.
pub open spec fn has_reserves(p: LiquidityPoolView) -> bool {
    &&& p.wf()
    &&& p.collateral_reserve >= 0
    &&& forall|j: int| 0 <= j < p.outcome_reserves.len() ==> #[trigger] p.outcome_reserves[j] >= 0
}

/// What deposits and withdrawals leave alone: all other pools, the LP tokens
/// of everyone else, and everything that is traded.
pub open spec fn funds_only(
    s: PredictionState,
    t: PredictionState,
    who: Address,
    id: u64,
) -> bool {
    &&& t.pools == s.pools.insert(id, t.pools[id])
    &&& t.lp_balances == s.lp_balances.insert((id, who), t.lp_balances[(id, who)])
    &&& t.lp_total_supply == s.lp_total_supply.insert(id, t.lp_total_supply[id])
    &&& t.outcome_balances == s.outcome_balances
    &&& t.positions == s.positions
    &&& t.orders == s.orders
    &&& t.order_books == s.order_books
    &&& t.trading_volume == s.trading_volume
}

/// A deposit into the pool of an active market brings in the collateral given.
/// Every outcome's reserve grows in the same proportion, rounded down, and LP
/// tokens are minted in it; they go to the provider. Fees stay as they are.
pub proof fn deposits_are_in_proportion(
    s: PredictionState,
    provider: Address,
    id: u64,
    amount: i128,
)
    requires
        liquidity_added(s, provider, id, amount) is Ok,
        has_reserves(s.pools[id]),
        s.pools[id].collateral_reserve > 0,
        s.pools[id].lp_supply > 0,
    ensures
        ({
            let (t, lp) = liquidity_added(s, provider, id, amount)->Ok_0;
            let p = s.pools[id];
            let q = t.pools[id];
            let c = p.collateral_reserve as int;
            &&& s.markets.contains_key(id)
            &&& s.markets[id].status == MarketStatus::Active
            &&& s.pools.contains_key(id)
            &&& amount > 0
            &&& lp.collateral_deposited == amount
            &&& q.collateral_reserve == c + amount
            &&& is_quotient(lp.lp_tokens_minted as int, amount * p.lp_supply, c)
            &&& q.lp_supply == p.lp_supply + lp.lp_tokens_minted
            &&& q.outcome_reserves.len() == p.outcome_reserves.len()
            &&& lp.outcome_deposits.len() == p.outcome_reserves.len()
            &&& forall|j: int|
                0 <= j < p.outcome_reserves.len() ==> {
                    &&& is_quotient(
                        #[trigger] lp.outcome_deposits[j] as int,
                        p.outcome_reserves[j] * amount,
                        c,
                    )
                    &&& q.outcome_reserves[j] == p.outcome_reserves[j] + lp.outcome_deposits[j]
                }
            &&& q.fees_accumulated == p.fees_accumulated
            &&& lp_of(t, id, provider) == lp_of(s, id, provider) + lp.lp_tokens_minted
            &&& lp_supply_of(t, id) == lp_supply_of(s, id) + lp.lp_tokens_minted
            &&& t.markets == s.markets.insert(
                id,
                MarketView {
                    total_collateral: (s.markets[id].total_collateral + amount) as i128,
                    ..s.markets[id]
                },
            )
            &&& fits(s.markets[id].total_collateral + amount)
            &&& funds_only(s, t, provider, id)
        }),
{
    let (t, lp) = liquidity_added(s, provider, id, amount)->Ok_0;
    let p = s.pools[id];
    let c = p.collateral_reserve as int;
    lemma_nonnegative(amount as int, p.lp_supply as int);
    lemma_down(amount * p.lp_supply, c);
    assert(lp.outcome_deposits == outcome_shares(p, amount as int));
    assert forall|j: int| 0 <= j < p.outcome_reserves.len() implies {
        &&& is_quotient(
            #[trigger] lp.outcome_deposits[j] as int,
            p.outcome_reserves[j] * amount,
            c,
        )
        &&& t.pools[id].outcome_reserves[j] == p.outcome_reserves[j] + lp.outcome_deposits[j]
    } by {
        let x = p.outcome_reserves[j] as int;
        lemma_nonnegative(x, amount as int);
        lemma_down(x * amount, c);
        assert(lp.outcome_deposits[j] == deposit_share(x, amount as int, c));
    }
}

/// Into a pool without LP tokens, a deposit brings the amount as collateral
/// and as tokens of each outcome, and mints as many LP tokens.
pub proof fn first_deposits_set_the_ratio(
    s: PredictionState,
    provider: Address,
    id: u64,
    amount: i128,
)
    requires
        liquidity_added(s, provider, id, amount) is Ok,
        s.pools[id].lp_supply == 0,
    ensures
        ({
            let (t, lp) = liquidity_added(s, provider, id, amount)->Ok_0;
            let p = s.pools[id];
            let q = t.pools[id];
            &&& amount > 0
            &&& lp.lp_tokens_minted == amount
            &&& lp.collateral_deposited == amount
            &&& q.collateral_reserve == p.collateral_reserve + amount
            &&& q.lp_supply == amount
            &&& forall|j: int|
                0 <= j < p.outcome_reserves.len() ==> #[trigger] q.outcome_reserves[j]
                    == p.outcome_reserves[j] + amount
            &&& lp_of(t, id, provider) == lp_of(s, id, provider) + amount
            &&& funds_only(s, t, provider, id)
        }),
{
    let (t, lp) = liquidity_added(s, provider, id, amount)->Ok_0;
    let p = s.pools[id];
    let amounts = Seq::new(p.outcome_reserves.len(), |i: int| amount);
    assert(provide_first(p, amount, amounts) is Ok);
    assert forall|j: int| 0 <= j < p.outcome_reserves.len() implies #[trigger]
        t.pools[id].outcome_reserves[j] == p.outcome_reserves[j] + amount by {
        lemma_deposit_fits(p.outcome_reserves, amounts, p.outcome_reserves.len() as int, j);
    }
}

proof fn lemma_deposit_fits(reserves: Seq<i128>, amounts: Seq<i128>, n: int, i: int)
    requires
        0 <= i < n <= reserves.len(),
        n <= amounts.len(),
        first_deposit_error(reserves, amounts, n) is None,
    ensures
        fits(reserves[i] + amounts[i]),
    decreases n,
{
    if i < n - 1 {
        lemma_deposit_fits(reserves, amounts, n - 1, i);
    }
}

/// A withdrawal burns LP tokens that the provider has and gives their part of
/// every reserve, rounded down; exactly that leaves the pool. It is open in
/// every state of the market.
pub proof fn withdrawals_are_in_proportion(
    s: PredictionState,
    provider: Address,
    id: u64,
    lp: i128,
)
    requires
        liquidity_removed(s, provider, id, lp) is Ok,
        has_reserves(s.pools[id]),
    ensures
        ({
            let (t, got) = liquidity_removed(s, provider, id, lp)->Ok_0;
            let p = s.pools[id];
            let q = t.pools[id];
            let n = p.lp_supply as int;
            &&& s.pools.contains_key(id)
            &&& 0 < lp <= p.lp_supply
            &&& lp <= lp_of(s, id, provider)
            &&& got.lp_tokens_minted == 0
            &&& is_quotient(got.collateral_deposited as int, p.collateral_reserve * lp, n)
            &&& q.collateral_reserve == p.collateral_reserve - got.collateral_deposited
            &&& q.lp_supply == n - lp
            &&& q.outcome_reserves.len() == p.outcome_reserves.len()
            &&& forall|j: int|
                0 <= j < p.outcome_reserves.len() ==> {
                    &&& is_quotient(
                        #[trigger] got.outcome_deposits[j] as int,
                        p.outcome_reserves[j] * lp,
                        n,
                    )
                    &&& q.outcome_reserves[j] == p.outcome_reserves[j] - got.outcome_deposits[j]
                }
            &&& q.fees_accumulated == p.fees_accumulated
            &&& lp_of(t, id, provider) == lp_of(s, id, provider) - lp
            &&& lp_supply_of(t, id) == lp_supply_of(s, id) - lp
            &&& t.markets == s.markets
            &&& funds_only(s, t, provider, id)
        }),
{
    let (t, got) = liquidity_removed(s, provider, id, lp)->Ok_0;
    let p = s.pools[id];
    let n = p.lp_supply as int;
    lemma_nonnegative(p.collateral_reserve as int, lp as int);
    lemma_down(p.collateral_reserve * lp, n);
    assert forall|j: int| 0 <= j < p.outcome_reserves.len() implies {
        &&& is_quotient(
            #[trigger] got.outcome_deposits[j] as int,
            p.outcome_reserves[j] * lp,
            n,
        )
        &&& t.pools[id].outcome_reserves[j] == p.outcome_reserves[j] - got.outcome_deposits[j]
    } by {
        let x = p.outcome_reserves[j] as int;
        lemma_nonnegative(x, lp as int);
        lemma_down(x * lp, n);
        assert(got.outcome_deposits[j] == lp_share(x, lp as int, n));
    }
}

/// The administrator moves the accumulated fees, all of them, into the
/// collateral of the pool; LP tokens then stand for them.
pub proof fn fees_go_to_the_pool(s: PredictionState, admin: Address, id: u64)
    requires
        s.pools.contains_key(id),
        fees_distributed(s, admin, id) is Ok,
        s.pools[id].fees_accumulated >= 0,
    ensures
        ({
            let (t, moved) = fees_distributed(s, admin, id)->Ok_0;
            let p = s.pools[id];
            let q = t.pools[id];
            &&& s.admin == Some(admin)
            &&& moved == p.fees_accumulated
            &&& q.collateral_reserve == p.collateral_reserve + moved
            &&& q.fees_accumulated == 0
            &&& q.outcome_reserves == p.outcome_reserves
            &&& q.lp_supply == p.lp_supply
            &&& t.pools == s.pools.insert(id, q)
            &&& t.lp_balances == s.lp_balances
            &&& t.markets == s.markets
        }),
{
}

/// The price of an outcome is the collateral over the outcome's reserve, with
/// eighteen decimals, rounded down.
pub proof fn prices_are_ratios_of_reserves(p: LiquidityPoolView, i: int)
    requires
        0 <= i < p.outcome_reserves.len(),
        p.outcome_reserves[i] > 0,
        p.collateral_reserve >= 0,
        fits(p.collateral_reserve * 1_000_000_000_000_000_000),
    ensures
        outcome_price(p, i) is Ok,
        is_quotient(
            outcome_price(p, i)->Ok_0 as int,
            p.collateral_reserve * 1_000_000_000_000_000_000,
            p.outcome_reserves[i] as int,
        ),
{
    let x = p.collateral_reserve * 1_000_000_000_000_000_000;
    lemma_down(x, p.outcome_reserves[i] as int);
    lemma_quot_bounds(x, p.outcome_reserves[i] as int);
}

} // verus!
