//! What holds of the prediction markets after any sequence of calls.

use vstd::prelude::*;

use crate::base::address::Address;
use crate::base::arith::{fits, lemma_quot_bounds, quot};
use crate::base::sums::{lemma_map_sum_insert, lemma_map_sum_part, map_sum};
use crate::base::symbol::Symbol;
use crate::base::table::value_or;
use crate::prediction::contract::{
    active_markets, dispute_filed, dispute_resolved, fees_distributed, initialized, is_active,
    liquidity_added, liquidity_removed, market_cancelled, market_closed, market_created,
    order_cancelled, order_placed, outcome_bought, outcome_sold, pool_created, position_settled,
    resolution_submitted, tokens_redeemed, trading_finalized, MarketTerms,
};
use crate::prediction::cpmm::{
    at_least_one, buy, deposit_share, first_deposit_error, open_pool, provide, sell, withdraw,
};
use crate::prediction::laws::{
    every_pool_operation_restores_the_products, opening_a_pool_sets_the_products,
    withdrawing_is_proportional,
};
use crate::prediction::oracle::drained;
use crate::prediction::settlement::{distribute, held_of};
use crate::prediction::state::PredictionState;
use crate::prediction::types::{
    LiquidityPoolView, MarketView, OrderSide, PredictionError, BPS_DENOM, MAX_ACTIVE_MARKETS,
    MAX_OUTCOMES_PER_MARKET,
};

verus! {

/// A call that can change the contract, or time passing.
pub enum Call {
    Wait { until: u64 },
    Initialize { admin: Address },
    CreateMarket { terms: MarketTerms },
    CreatePool { creator: Address, id: u64, seed: i128 },
    AddLiquidity { provider: Address, id: u64, amount: i128 },
    RemoveLiquidity { provider: Address, id: u64, lp: i128 },
    Buy { buyer: Address, id: u64, outcome: u32, amount: i128, least: i128 },
    Sell { seller: Address, id: u64, outcome: u32, tokens: i128, least: i128 },
    PlaceOrder {
        owner: Address,
        id: u64,
        outcome: u32,
        side: OrderSide,
        price: i128,
        amount: i128,
    },
    CancelOrder { caller: Address, id: u64, order_id: u64 },
    SubmitResolution { id: u64, source: Symbol, outcome: u32 },
    FileDispute { disputer: Address, id: u64, outcome: u32, evidence: Symbol, bond: i128 },
    ResolveDispute { admin: Address, id: u64, accepted: bool },
    FinalizeTrading { id: u64 },
    CloseEarly { caller: Address, id: u64 },
    CancelMarket { admin: Address, id: u64 },
    Redeem { user: Address, id: u64, amount: i128 },
    Settle { user: Address, id: u64 },
    DistributeFees { admin: Address, id: u64 },
}

/// The state after a call, which is the state before it where the call was refused.
pub open spec fn settle<T>(
    s: PredictionState,
    r: Result<(PredictionState, T), PredictionError>,
) -> PredictionState {
    match r {
        Ok((t, _)) => t,
        Err(_) => s,
    }
}

/// The state after one call.
pub open spec fn step(s: PredictionState, call: Call) -> PredictionState {
    match call {
        Call::Wait { until } => PredictionState { timestamp: until, ..s },
        Call::Initialize { admin } => settle(s, initialized(s, admin)),
        Call::CreateMarket { terms } => settle(s, market_created(s, terms)),
        Call::CreatePool { creator, id, seed } => settle(s, pool_created(s, creator, id, seed)),
        Call::AddLiquidity { provider, id, amount } => settle(
            s,
            liquidity_added(s, provider, id, amount),
        ),
        Call::RemoveLiquidity { provider, id, lp } => settle(
            s,
            liquidity_removed(s, provider, id, lp),
        ),
        Call::Buy { buyer, id, outcome, amount, least } => settle(
            s,
            outcome_bought(s, buyer, id, outcome, amount, least),
        ),
        Call::Sell { seller, id, outcome, tokens, least } => settle(
            s,
            outcome_sold(s, seller, id, outcome, tokens, least),
        ),
        Call::PlaceOrder { owner, id, outcome, side, price, amount } => settle(
            s,
            order_placed(s, owner, id, outcome, side, price, amount),
        ),
        Call::CancelOrder { caller, id, order_id } => settle(
            s,
            order_cancelled(s, caller, id, order_id),
        ),
        Call::SubmitResolution { id, source, outcome } => settle(
            s,
            resolution_submitted(s, id, source, outcome),
        ),
        Call::FileDispute { disputer, id, outcome, evidence, bond } => settle(
            s,
            dispute_filed(s, disputer, id, outcome, evidence, bond),
        ),
        Call::ResolveDispute { admin, id, accepted } => settle(
            s,
            dispute_resolved(s, admin, id, accepted),
        ),
        Call::FinalizeTrading { id } => settle(s, trading_finalized(s, id)),
        Call::CloseEarly { caller, id } => settle(s, market_closed(s, caller, id)),
        Call::CancelMarket { admin, id } => settle(s, market_cancelled(s, admin, id)),
        Call::Redeem { user, id, amount } => settle(s, tokens_redeemed(s, user, id, amount)),
        Call::Settle { user, id } => settle(s, position_settled(s, user, id)),
        Call::DistributeFees { admin, id } => settle(s, fees_distributed(s, admin, id)),
    }
}

/// There is a number for a new market, and its fee is no more than the whole.
pub open spec fn is_ordinary(s: PredictionState, call: Call) -> bool {
    call matches Call::CreateMarket { terms } ==> s.next_market_id < u64::MAX && terms.fee_bps
        <= BPS_DENOM
}

/// The state after a sequence of calls.
pub open spec fn run(s: PredictionState, calls: Seq<Call>) -> PredictionState
    decreases calls.len(),
{
    if calls.len() == 0 {
        s
    } else {
        step(run(s, calls.drop_last()), calls.last())
    }
}

/// Every call of the sequence is ordinary when its turn comes.
pub open spec fn all_ordinary(s: PredictionState, calls: Seq<Call>) -> bool
    decreases calls.len(),
{
    calls.len() > 0 ==> all_ordinary(s, calls.drop_last()) && is_ordinary(
        run(s, calls.drop_last()),
        calls.last(),
    )
}

// ---------------------------------------------------------------------------
// Pools
// ---------------------------------------------------------------------------

/// No reserve of the pool is negative, and its products are those of its reserves.
pub open spec fn pool_is_sound(p: LiquidityPoolView) -> bool {
    &&& p.wf()
    &&& p.products_hold()
    &&& p.collateral_reserve >= 0
    &&& p.lp_supply >= 0
    &&& forall|i: int| 0 <= i < p.outcome_reserves.len() ==> #[trigger] p.outcome_reserves[i] >= 0
}

proof fn lemma_quot_sign(a: int, d: int)
    requires
        a >= 0,
        d > 0,
    ensures
        quot(a, d) >= 0,
{
    lemma_quot_bounds(a, d);
}

proof fn lemma_product_sign(a: int, b: int)
    requires
        a >= 0,
        b >= 0,
    ensures
        a * b >= 0,
{
    assert(a * b >= 0) by (nonlinear_arith)
        requires
            a >= 0,
            b >= 0,
    ;
}

proof fn lemma_buy(p: LiquidityPoolView, i: int, amount: i128, bps: i128, least: i128)
    requires
        pool_is_sound(p),
        bps <= BPS_DENOM,
        buy(p, i, amount, bps, least) is Ok,
    ensures
        pool_is_sound(buy(p, i, amount, bps, least)->Ok_0.0),
        buy(p, i, amount, bps, least)->Ok_0.0.lp_supply == p.lp_supply,
{
    let q = buy(p, i, amount, bps, least)->Ok_0.0;
    every_pool_operation_restores_the_products(p, i, amount, bps, least, Seq::empty());
    let raw = amount * bps;
    assert(raw <= amount * 10_000) by (nonlinear_arith)
        requires
            raw == amount * bps,
            bps <= 10_000,
            amount > 0,
    ;
    lemma_quot_bounds(raw, 10_000);
    let fee = quot(raw, 10_000);
    assert(fee <= amount);
    let c = p.collateral_reserve + (amount - fee);
    assert(p.k_per_outcome[i] == p.collateral_reserve * p.outcome_reserves[i]);
    lemma_product_sign(p.collateral_reserve as int, p.outcome_reserves[i] as int);
    lemma_quot_sign(p.k_per_outcome[i] as int, c);
}

proof fn lemma_sell(p: LiquidityPoolView, i: int, tokens: i128, bps: i128, least: i128)
    requires
        pool_is_sound(p),
        sell(p, i, tokens, bps, least) is Ok,
    ensures
        pool_is_sound(sell(p, i, tokens, bps, least)->Ok_0.0),
        sell(p, i, tokens, bps, least)->Ok_0.0.lp_supply == p.lp_supply,
{
    every_pool_operation_restores_the_products(p, i, tokens, bps, least, Seq::empty());
    let r = p.outcome_reserves[i] + tokens;
    assert(p.k_per_outcome[i] == p.collateral_reserve * p.outcome_reserves[i]);
    lemma_product_sign(p.collateral_reserve as int, p.outcome_reserves[i] as int);
    lemma_quot_sign(p.k_per_outcome[i] as int, r);
}

proof fn lemma_provide(p: LiquidityPoolView, amount: i128, amounts: Seq<i128>)
    requires
        pool_is_sound(p),
        provide(p, amount, amounts) is Ok,
        amounts == Seq::new(p.outcome_reserves.len(), |i: int| amount),
    ensures
        pool_is_sound(provide(p, amount, amounts)->Ok_0.0),
        provide(p, amount, amounts)->Ok_0.1.lp_tokens_minted >= 0,
        provide(p, amount, amounts)->Ok_0.0.lp_supply == p.lp_supply + provide(
            p,
            amount,
            amounts,
        )->Ok_0.1.lp_tokens_minted,
{
    every_pool_operation_restores_the_products(p, 0, amount, 0, 0, amounts);
    let q = provide(p, amount, amounts)->Ok_0.0;
    if p.lp_supply == 0 {
        assert forall|i: int| 0 <= i < q.outcome_reserves.len() implies #[trigger]
            q.outcome_reserves[i] >= 0 by {
            assert(p.outcome_reserves[i] >= 0);
            lemma_first_fits(p.outcome_reserves, amounts, p.outcome_reserves.len() as int, i);
        }
    } else {
        let c = p.collateral_reserve as int;
        lemma_product_sign(amount as int, p.lp_supply as int);
        lemma_quot_sign(amount * p.lp_supply, c);
        assert forall|i: int| 0 <= i < q.outcome_reserves.len() implies #[trigger]
            q.outcome_reserves[i] >= 0 by {
            assert(p.outcome_reserves[i] >= 0);
            lemma_product_sign(p.outcome_reserves[i] as int, amount as int);
            lemma_quot_sign(p.outcome_reserves[i] * amount, at_least_one(c));
            assert(deposit_share(p.outcome_reserves[i] as int, amount as int, c) >= 0);
        }
    }
}

proof fn lemma_first_fits(reserves: Seq<i128>, amounts: Seq<i128>, n: int, i: int)
    requires
        0 <= i < n <= reserves.len(),
        n <= amounts.len(),
        first_deposit_error(reserves, amounts, n) is None,
    ensures
        fits(reserves[i] + amounts[i]),
        amounts[i] > 0,
    decreases n,
{
    if i < n - 1 {
        lemma_first_fits(reserves, amounts, n - 1, i);
    }
}

proof fn lemma_withdraw(p: LiquidityPoolView, lp: i128)
    requires
        pool_is_sound(p),
        withdraw(p, lp) is Ok,
    ensures
        pool_is_sound(withdraw(p, lp)->Ok_0.0),
        withdraw(p, lp)->Ok_0.0.lp_supply == p.lp_supply - lp,
        lp > 0,
{
    every_pool_operation_restores_the_products(p, 0, lp, 0, 0, Seq::empty());
    withdrawing_is_proportional(p, lp);
    let (q, got) = withdraw(p, lp)->Ok_0;
    assert forall|i: int| 0 <= i < q.outcome_reserves.len() implies #[trigger] q.outcome_reserves[i]
        >= 0 by {
        assert(got.outcome_deposits[i] <= p.outcome_reserves[i]);
    }
}

proof fn lemma_rest(p: LiquidityPoolView)
    requires
        pool_is_sound(p),
    ensures
        distribute(p) is Ok ==> pool_is_sound(distribute(p)->Ok_0.0)
            && distribute(p)->Ok_0.0.lp_supply == p.lp_supply,
        pool_is_sound(drained(p)),
        drained(p).lp_supply == p.lp_supply,
{
    every_pool_operation_restores_the_products(p, 0, 0, 0, 0, Seq::empty());
    if distribute(p) is Ok {
        let q = distribute(p)->Ok_0.0;
        assert(q.outcome_reserves == p.outcome_reserves);
    }
}

// ---------------------------------------------------------------------------
// LP tokens
// ---------------------------------------------------------------------------

/// The LP tokens of each provider of a market.
pub open spec fn holdings(balances: Map<(u64, Address), i128>, id: u64) -> Map<Address, i128> {
    Map::new(|a: Address| balances.contains_key((id, a)), |a: Address| balances[(id, a)])
}

/// The LP tokens of a market: no balance is negative, the balances add up to
/// the supply, and the pool, which is sound, holds no more than the supply.
pub open spec fn lp_adds_up(s: PredictionState, id: u64) -> bool {
    let held = holdings(s.lp_balances, id);
    &&& held.dom().finite()
    &&& forall|a: Address| #[trigger] held.contains_key(a) ==> held[a] >= 0
    &&& map_sum(held) == value_or(s.lp_total_supply, id, 0)
    &&& if s.pools.contains_key(id) {
        s.pools[id].lp_supply <= value_or(s.lp_total_supply, id, 0) && pool_is_sound(s.pools[id])
    } else {
        value_or(s.lp_total_supply, id, 0) == 0
    }
}

/// The market stands under its number, with a fee that is no more than the
/// whole and no more outcomes than allowed.
pub open spec fn market_is_sound(id: u64, m: MarketView) -> bool {
    m.market_id == id && m.fee_bps <= BPS_DENOM && m.outcomes.len() <= MAX_OUTCOMES_PER_MARKET
}

/// Every market is sound, and its LP tokens add up.
pub open spec fn lp_is_sound(s: PredictionState) -> bool {
    &&& forall|id: u64| #[trigger]
        s.markets.contains_key(id) ==> market_is_sound(id, s.markets[id])
    &&& forall|id: u64| #[trigger] lp_adds_up(s, id)
}

/// LP tokens of one provider come or go together with the supply.
proof fn lemma_lp_moved(s: PredictionState, t: PredictionState, id: u64, who: Address, delta: int)
    requires
        lp_is_sound(s),
        t.markets.dom() == s.markets.dom(),
        forall|k: u64| #[trigger]
            s.markets.contains_key(k) ==> market_is_sound(k, t.markets[k]),
        t.pools.contains_key(id),
        t.pools == s.pools.insert(id, t.pools[id]),
        pool_is_sound(t.pools[id]),
        t.lp_balances == s.lp_balances.insert((id, who), t.lp_balances[(id, who)]),
        t.lp_total_supply == s.lp_total_supply.insert(id, t.lp_total_supply[id]),
        t.lp_balances[(id, who)] == value_or(s.lp_balances, (id, who), 0) + delta,
        t.lp_total_supply[id] == value_or(s.lp_total_supply, id, 0) + delta,
        t.lp_balances[(id, who)] >= 0,
        t.pools[id].lp_supply <= t.lp_total_supply[id],
    ensures
        lp_is_sound(t),
{
    assert forall|k: u64| #[trigger] t.markets.contains_key(k) implies market_is_sound(
        k,
        t.markets[k],
    ) by {
        assert(s.markets.dom().contains(k));
        assert(s.markets.contains_key(k));
    }
    assert forall|k: u64| #[trigger] lp_adds_up(t, k) by {
        assert(lp_adds_up(s, k));
        let before = holdings(s.lp_balances, k);
        let after = holdings(t.lp_balances, k);
        if k == id {
            assert(after =~= before.insert(who, t.lp_balances[(id, who)]));
            lemma_map_sum_insert(before, who, t.lp_balances[(id, who)]);
            assert forall|a: Address| #[trigger] after.contains_key(a) implies after[a] >= 0 by {
                assert(a != who ==> before.contains_key(a));
            }
        } else {
            assert(after =~= before);
        }
    }
}

/// LP tokens stay as they are.
proof fn lemma_lp_kept(s: PredictionState, t: PredictionState, id: u64)
    requires
        lp_is_sound(s),
        t.lp_balances == s.lp_balances,
        t.lp_total_supply == s.lp_total_supply,
        forall|k: u64| #[trigger]
            t.markets.contains_key(k) ==> market_is_sound(k, t.markets[k]),
        t.pools == s.pools || {
            &&& s.pools.contains_key(id)
            &&& t.pools == s.pools.insert(id, t.pools[id])
            &&& pool_is_sound(t.pools[id])
            &&& t.pools[id].lp_supply == s.pools[id].lp_supply
        },
    ensures
        lp_is_sound(t),
{
    assert forall|k: u64| #[trigger] lp_adds_up(t, k) by {
        assert(lp_adds_up(s, k));
    }
}

spec fn moves_lp(call: Call) -> bool {
    call is CreatePool || call is AddLiquidity || call is RemoveLiquidity
}

spec fn moves_pool(call: Call) -> Option<u64> {
    match call {
        Call::Buy { id, .. } => Some(id),
        Call::Sell { id, .. } => Some(id),
        Call::CloseEarly { id, .. } => Some(id),
        Call::DistributeFees { id, .. } => Some(id),
        _ => None,
    }
}

/// What the calls that neither mint nor burn LP tokens leave alone.
proof fn lemma_lp_left_alone(s: PredictionState, call: Call)
    requires
        lp_is_sound(s),
        is_ordinary(s, call),
        !moves_lp(call),
    ensures
        step(s, call).lp_balances == s.lp_balances,
        step(s, call).lp_total_supply == s.lp_total_supply,
        moves_pool(call) is None ==> step(s, call).pools == s.pools,
        forall|k: u64| #[trigger]
            step(s, call).markets.contains_key(k) ==> market_is_sound(k, step(s, call).markets[k]),
{
    let t = step(s, call);
    assert forall|k: u64| #[trigger] t.markets.contains_key(k) implies market_is_sound(
        k,
        t.markets[k],
    ) by {
        assert(s.markets.contains_key(k) ==> market_is_sound(k, s.markets[k]));
    }
}

/// The calls that trade with a pool keep it sound, with the LP tokens it has.
proof fn lemma_pool_moved(s: PredictionState, call: Call, id: u64)
    requires
        lp_is_sound(s),
        moves_pool(call) == Some(id),
    ensures
        step(s, call).pools == s.pools || {
            let t = step(s, call);
            &&& s.pools.contains_key(id)
            &&& t.pools == s.pools.insert(id, t.pools[id])
            &&& pool_is_sound(t.pools[id])
            &&& t.pools[id].lp_supply == s.pools[id].lp_supply
        },
{
    assert(lp_adds_up(s, id));
    let p = s.pools[id];
    let m = s.markets[id];
    match call {
        Call::Buy { buyer, outcome, amount, least, .. } => {
            if outcome_bought(s, buyer, id, outcome, amount, least) is Ok {
                assert(s.markets.contains_key(id));
                lemma_buy(p, outcome as int, amount, m.fee_bps, least);
            }
        },
        Call::Sell { seller, outcome, tokens, least, .. } => {
            if outcome_sold(s, seller, id, outcome, tokens, least) is Ok {
                lemma_sell(p, outcome as int, tokens, m.fee_bps, least);
            }
        },
        Call::CloseEarly { caller, .. } => {
            if market_closed(s, caller, id) is Ok {
                assert(s.markets.contains_key(id));
                if s.pools.contains_key(id) {
                    lemma_rest(p);
                }
            }
        },
        Call::DistributeFees { admin, .. } => {
            if fees_distributed(s, admin, id) is Ok {
                lemma_rest(p);
            }
        },
        _ => {},
    }
}

proof fn lemma_lp_calls(s: PredictionState, call: Call)
    requires
        lp_is_sound(s),
        moves_lp(call),
    ensures
        lp_is_sound(step(s, call)),
{
    let t = step(s, call);
    match call {
        Call::CreatePool { creator, id, seed } => {
            assert(lp_adds_up(s, id));
            if pool_created(s, creator, id, seed) is Ok {
                lemma_balance(s, id, creator);
                a_balance_is_part_of_the_supply(s, id, creator);
                opening_a_pool_sets_the_products(id, s.markets[id].outcomes.len(), seed);
                assert(open_pool(id, s.markets[id].outcomes.len(), seed) is Ok);
                assert(t.markets.dom() =~= s.markets.dom());
                lemma_lp_moved(s, t, id, creator, seed as int);
            }
        },
        Call::AddLiquidity { provider, id, amount } => {
            assert(lp_adds_up(s, id));
            if liquidity_added(s, provider, id, amount) is Ok {
                let p = s.pools[id];
                let amounts = Seq::new(p.outcome_reserves.len(), |i: int| amount);
                lemma_provide(p, amount, amounts);
                let minted = provide(p, amount, amounts)->Ok_0.1.lp_tokens_minted;
                lemma_balance(s, id, provider);
                assert(t.markets.dom() =~= s.markets.dom());
                lemma_lp_moved(s, t, id, provider, minted as int);
            }
        },
        Call::RemoveLiquidity { provider, id, lp } => {
            assert(lp_adds_up(s, id));
            if liquidity_removed(s, provider, id, lp) is Ok {
                lemma_withdraw(s.pools[id], lp);
                lemma_lp_moved(s, t, id, provider, -lp);
            }
        },
        _ => {},
    }
}

/// A provider's balance is not negative.
proof fn lemma_balance(s: PredictionState, id: u64, who: Address)
    requires
        lp_adds_up(s, id),
    ensures
        value_or(s.lp_balances, (id, who), 0) >= 0,
{
    let held = holdings(s.lp_balances, id);
    if s.lp_balances.contains_key((id, who)) {
        assert(held.contains_key(who));
    }
}

/// Every call keeps LP balances from going negative, and keeps them adding up
/// to the supply of the market, of which the pool holds no more than all.
pub proof fn lp_balances_add_up(s: PredictionState, call: Call)
    requires
        lp_is_sound(s),
        is_ordinary(s, call),
    ensures
        lp_is_sound(step(s, call)),
{
    if moves_lp(call) {
        lemma_lp_calls(s, call);
    } else {
        lemma_lp_left_alone(s, call);
        match moves_pool(call) {
            Some(id) => {
                lemma_pool_moved(s, call, id);
                lemma_lp_kept(s, step(s, call), id);
            },
            None => {
                lemma_lp_kept(s, step(s, call), 0);
            },
        }
    }
}

/// The pools of all markets hold the whole LP supply.
pub open spec fn pools_hold_the_supply(s: PredictionState) -> bool {
    forall|id: u64| #[trigger]
        s.pools.contains_key(id) ==> s.pools[id].lp_supply == value_or(s.lp_total_supply, id, 0)
}

/// The call opens no pool where there is one.
pub open spec fn opens_once(s: PredictionState, call: Call) -> bool {
    call matches Call::CreatePool { id, .. } ==> !s.pools.contains_key(id)
}

/// Every call of the sequence opens a pool only where there is none.
pub open spec fn all_open_once(s: PredictionState, calls: Seq<Call>) -> bool
    decreases calls.len(),
{
    calls.len() > 0 ==> all_open_once(s, calls.drop_last()) && opens_once(
        run(s, calls.drop_last()),
        calls.last(),
    )
}

/// As long as no pool takes the place of another, the LP balances of a market
/// add up to the supply of its pool as well.
pub proof fn pools_opened_once_hold_the_supply(s: PredictionState, call: Call)
    requires
        lp_is_sound(s),
        is_ordinary(s, call),
        pools_hold_the_supply(s),
        opens_once(s, call),
    ensures
        pools_hold_the_supply(step(s, call)),
{
    let t = step(s, call);
    match call {
        Call::CreatePool { creator, id, seed } => {
            assert(lp_adds_up(s, id));
        },
        Call::AddLiquidity { provider, id, amount } => {
            if liquidity_added(s, provider, id, amount) is Ok {
                assert(lp_adds_up(s, id));
                let p = s.pools[id];
                lemma_provide(p, amount, Seq::new(p.outcome_reserves.len(), |i: int| amount));
            }
        },
        Call::RemoveLiquidity { provider, id, lp } => {
            if liquidity_removed(s, provider, id, lp) is Ok {
                assert(lp_adds_up(s, id));
                lemma_withdraw(s.pools[id], lp);
            }
        },
        _ => {
            lemma_lp_left_alone(s, call);
            if moves_pool(call) is Some {
                lemma_pool_moved(s, call, moves_pool(call)->Some_0);
            }
        },
    }
}

/// Taking out more liquidity than one holds is refused.
pub proof fn nobody_withdraws_more_than_they_hold(
    s: PredictionState,
    provider: Address,
    id: u64,
    lp: i128,
)
    requires
        value_or(s.lp_balances, (id, provider), 0) < lp,
    ensures
        liquidity_removed(s, provider, id, lp) is Err,
        step(s, Call::RemoveLiquidity { provider, id, lp }) == s,
        s.pools.contains_key(id) && withdraw(s.pools[id], lp) is Ok ==> liquidity_removed(
            s,
            provider,
            id,
            lp,
        )->Err_0 == PredictionError::InsufficientBalance,
{
}

/// Whoever holds LP tokens of a market holds no more than its supply.
pub proof fn a_balance_is_part_of_the_supply(s: PredictionState, id: u64, who: Address)
    requires
        lp_is_sound(s),
    ensures
        0 <= value_or(s.lp_balances, (id, who), 0) <= value_or(s.lp_total_supply, id, 0),
{
    assert(lp_adds_up(s, id));
    lemma_balance(s, id, who);
    lemma_map_sum_part(holdings(s.lp_balances, id), who);
}

// ---------------------------------------------------------------------------
// Sales
// ---------------------------------------------------------------------------

/// A sale takes the tokens off the seller's balance and position alike, and
/// nobody sells more than either holds.
pub proof fn sold_tokens_leave_the_position(
    s: PredictionState,
    seller: Address,
    id: u64,
    i: u32,
    tokens: i128,
    least: i128,
)
    requires
        s.wf(),
        outcome_sold(s, seller, id, i, tokens, least) is Ok,
    ensures
        ({
            let t = outcome_sold(s, seller, id, i, tokens, least)->Ok_0.0;
            &&& s.positions.contains_key((id, seller))
            &&& held_of(t.positions[(id, seller)], i) == held_of(s.positions[(id, seller)], i)
                - tokens
            &&& held_of(t.positions[(id, seller)], i) >= 0
            &&& value_or(t.outcome_balances, (id, seller, i), 0) == value_or(
                s.outcome_balances,
                (id, seller, i),
                0,
            ) - tokens
            &&& value_or(t.outcome_balances, (id, seller, i), 0) >= 0
        }),
{
}

// ---------------------------------------------------------------------------
// Active markets
// ---------------------------------------------------------------------------

/// No more markets are active than allowed, and the next number is not given
/// out yet.
pub open spec fn within_market_limit(s: PredictionState) -> bool {
    &&& active_markets(s, s.market_list, s.market_list.len() as int) <= MAX_ACTIVE_MARKETS
    &&& forall|i: int|
        0 <= i < s.market_list.len() ==> #[trigger] s.market_list[i] < s.next_market_id
}

proof fn lemma_count(s: PredictionState, t: PredictionState, a: Seq<u64>, b: Seq<u64>, n: int)
    requires
        0 <= n <= a.len(),
        n <= b.len(),
        forall|i: int| 0 <= i < n ==> #[trigger] a[i] == b[i],
        forall|i: int| 0 <= i < n && is_active(t, #[trigger] b[i]) ==> is_active(s, a[i]),
    ensures
        active_markets(t, b, n) <= active_markets(s, a, n),
    decreases n,
{
    if n > 0 {
        lemma_count(s, t, a, b, n - 1);
        assert(a[n - 1] == b[n - 1]);
    }
}

/// The call leaves the markets alone.
spec fn leaves_markets(call: Call) -> bool {
    call is Wait || call is Initialize || call is RemoveLiquidity || call is Buy || call is Sell
        || call is PlaceOrder || call is CancelOrder || call is Redeem || call is Settle
        || call is DistributeFees
}

proof fn lemma_markets_left_alone(s: PredictionState, call: Call)
    requires
        leaves_markets(call),
    ensures
        step(s, call).market_list == s.market_list,
        step(s, call).next_market_id == s.next_market_id,
        step(s, call).markets == s.markets,
{
}

proof fn lemma_funding_activates_none(s: PredictionState, call: Call, k: u64)
    requires
        call is CreatePool || call is AddLiquidity,
    ensures
        step(s, call).market_list == s.market_list,
        step(s, call).next_market_id == s.next_market_id,
        is_active(step(s, call), k) ==> is_active(s, k),
{
}

proof fn lemma_ending_activates_none(s: PredictionState, call: Call, k: u64)
    requires
        call is SubmitResolution || call is FileDispute || call is ResolveDispute,
    ensures
        step(s, call).market_list == s.market_list,
        step(s, call).next_market_id == s.next_market_id,
        is_active(step(s, call), k) ==> is_active(s, k),
{
}

proof fn lemma_closing_activates_none(s: PredictionState, call: Call, k: u64)
    requires
        call is FinalizeTrading || call is CloseEarly || call is CancelMarket,
    ensures
        step(s, call).market_list == s.market_list,
        step(s, call).next_market_id == s.next_market_id,
        is_active(step(s, call), k) ==> is_active(s, k),
{
}

/// Besides creating a market, no call makes one active or touches the list.
proof fn lemma_none_activated(s: PredictionState, call: Call, k: u64)
    requires
        !(call is CreateMarket),
    ensures
        step(s, call).market_list == s.market_list,
        step(s, call).next_market_id == s.next_market_id,
        is_active(step(s, call), k) ==> is_active(s, k),
{
    if leaves_markets(call) {
        lemma_markets_left_alone(s, call);
    } else if call is CreatePool || call is AddLiquidity {
        lemma_funding_activates_none(s, call, k);
    } else if call is SubmitResolution || call is FileDispute || call is ResolveDispute {
        lemma_ending_activates_none(s, call, k);
    } else {
        lemma_closing_activates_none(s, call, k);
    }
}

/// Every call keeps the number of active markets within the limit, and a
/// market beyond it is refused.
pub proof fn active_markets_stay_within_the_limit(s: PredictionState, call: Call)
    requires
        within_market_limit(s),
        is_ordinary(s, call),
    ensures
        within_market_limit(step(s, call)),
        call is CreateMarket && active_markets(s, s.market_list, s.market_list.len() as int)
            == MAX_ACTIVE_MARKETS ==> step(s, call) == s,
{
    let t = step(s, call);
    let n = s.market_list.len() as int;
    if call is CreateMarket {
        if t != s {
            assert forall|i: int| 0 <= i < n && is_active(
                t,
                #[trigger] t.market_list[i],
            ) implies is_active(s, s.market_list[i]) by {
                assert(s.market_list[i] < s.next_market_id);
            }
            lemma_count(s, t, s.market_list, t.market_list, n);
        }
    } else {
        assert forall|i: int| 0 <= i < n && is_active(
            t,
            #[trigger] t.market_list[i],
        ) implies is_active(s, s.market_list[i]) by {
            lemma_none_activated(s, call, s.market_list[i]);
        }
        lemma_none_activated(s, call, 0);
        lemma_count(s, t, s.market_list, t.market_list, n);
    }
}

// ---------------------------------------------------------------------------
// Histories
// ---------------------------------------------------------------------------

/// After any sequence of calls LP tokens add up, pools are sound and the
/// active markets are within their limit; and where no pool took the place of
/// another, the pools hold the whole LP supply.
pub proof fn every_history_is_sound(timestamp: u64, calls: Seq<Call>)
    requires
        all_ordinary(PredictionState::fresh(timestamp), calls),
    ensures
        lp_is_sound(run(PredictionState::fresh(timestamp), calls)),
        within_market_limit(run(PredictionState::fresh(timestamp), calls)),
        all_open_once(PredictionState::fresh(timestamp), calls) ==> pools_hold_the_supply(
            run(PredictionState::fresh(timestamp), calls),
        ),
    decreases calls.len(),
{
    let fresh = PredictionState::fresh(timestamp);
    if calls.len() == 0 {
        assert forall|id: u64| #[trigger] lp_adds_up(fresh, id) by {
            assert(holdings(fresh.lp_balances, id) =~= Map::empty());
        }
    } else {
        every_history_is_sound(timestamp, calls.drop_last());
        let before = run(fresh, calls.drop_last());
        lp_balances_add_up(before, calls.last());
        active_markets_stay_within_the_limit(before, calls.last());
        if all_open_once(fresh, calls) {
            pools_opened_once_hold_the_supply(before, calls.last());
        }
    }
}

} // verus!
