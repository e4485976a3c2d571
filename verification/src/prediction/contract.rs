//! The prediction market contract.

use vstd::prelude::*;

use crate::base::address::Address;
use crate::base::arith::{checked_quot, fits, lemma_quot_bounds, quot};
use crate::base::effect::effect;
use crate::base::symbol::{sym, symbol_short, Symbol};
use crate::base::table::value_or;
use crate::base::vecs::{copy_vec, repeat_vec};
use crate::prediction::cpmm;
use crate::prediction::oracle;
use crate::prediction::orderbook;
use crate::prediction::settlement;
use crate::prediction::state::{PredictionEnv, PredictionEvent, PredictionState};
use crate::prediction::types::{
    Dispute, LPResult, LPResultView, LiquidityPool, Market, MarketCategory, MarketStatus,
    MarketView, OracleSource, OrderBookSnapshot, OrderSide, Outcome, Position, PredictionError,
    PredictionOrder, ResolutionData, SwapResult, MAX_ACTIVE_MARKETS,
    MAX_OUTCOMES_PER_MARKET,
};

verus! {

/// AstraPort prediction markets: binary and multi-outcome event trading.
pub struct PredictionMarket;

// ---------------------------------------------------------------------------
// What the calls do
// ---------------------------------------------------------------------------

/// What initializing does.
pub open spec fn initialized(s: PredictionState, admin: Address) -> Result<
    (PredictionState, Symbol),
    PredictionError,
> {
    if s.admin is Some {
        Err(PredictionError::AlreadyInitialized)
    } else {
        Ok((PredictionState { admin: Some(admin), ..s }, sym("ok"@)))
    }
}

/// The terms of a new market.
pub struct MarketTerms {
    pub creator: Address,
    pub description: Symbol,
    pub category: MarketCategory,
    pub outcomes: Seq<Outcome>,
    pub trading_end_time: u64,
    pub resolution_time: u64,
    pub oracle_source: Symbol,
    pub max_outcome_supply: i128,
    pub fee_bps: i128,
    pub allow_early_close: bool,
}

/// The market that the terms open.
pub open spec fn opened_market(id: u64, now: u64, t: MarketTerms) -> MarketView {
    MarketView {
        market_id: id,
        description: t.description,
        category: t.category,
        outcomes: t.outcomes,
        collateral_token: sym("USDC"@),
        status: MarketStatus::Active,
        created_at: now,
        trading_end_time: t.trading_end_time,
        resolution_time: t.resolution_time,
        oracle_source: t.oracle_source,
        resolved_outcome: None,
        creator: t.creator,
        max_outcome_supply: t.max_outcome_supply,
        total_collateral: 0,
        fee_bps: t.fee_bps,
        allow_early_close: t.allow_early_close,
        resolved_at: None,
    }
}

/// The market is there and active.
pub open spec fn is_active(s: PredictionState, id: u64) -> bool {
    s.markets.contains_key(id) && s.markets[id].status == MarketStatus::Active
}

/// Number of active markets among the first `n` of a list.
pub open spec fn active_markets(s: PredictionState, ids: Seq<u64>, n: int) -> nat
    decreases n,
{
    if n <= 0 {
        0
    } else {
        active_markets(s, ids, n - 1) + if is_active(s, ids[n - 1]) {
            1nat
        } else {
            0nat
        }
    }
}

/// What creating a market does.
pub open spec fn market_created(s: PredictionState, t: MarketTerms) -> Result<
    (PredictionState, u64),
    PredictionError,
> {
    if t.outcomes.len() < 2 || t.outcomes.len() > MAX_OUTCOMES_PER_MARKET {
        Err(PredictionError::TooManyOutcomes)
    } else if t.trading_end_time <= s.timestamp || t.resolution_time <= t.trading_end_time {
        Err(PredictionError::InvalidMarketParams)
    } else if active_markets(s, s.market_list, s.market_list.len() as int) >= MAX_ACTIVE_MARKETS {
        Err(PredictionError::MarketCapReached)
    } else {
        let id = s.next_market_id;
        Ok(
            (
                PredictionState {
                    next_market_id: (id + 1) as u64,
                    markets: s.markets.insert(id, opened_market(id, s.timestamp, t)),
                    market_list: s.market_list.push(id),
                    markets_by_category: s.markets_by_category.insert(
                        t.category,
                        value_or(s.markets_by_category, t.category, Seq::empty()).push(id),
                    ),
                    oracle_sources: s.oracle_sources.insert(
                        id,
                        OracleSource {
                            provider_id: t.oracle_source,
                            feed_id: sym("default"@),
                            max_staleness: 300,
                            is_active: true,
                        },
                    ),
                    ..s
                }.emit(
                    PredictionEvent::MarketAdded {
                        market_id: id,
                        description: t.description,
                        creator: t.creator,
                    },
                ),
                id,
            ),
        )
    }
}

/// What opening a pool does. Where the market has a pool already, the new one
/// takes its place; LP tokens of the old one stay with their holders.
pub open spec fn pool_created(
    s: PredictionState,
    creator: Address,
    id: u64,
    seed: i128,
) -> Result<(PredictionState, LPResultView), PredictionError> {
    if !s.markets.contains_key(id) {
        Err(PredictionError::MarketNotFound)
    } else if !s.markets[id].tradable() {
        Err(PredictionError::MarketNotTradable)
    } else {
        let m = s.markets[id];
        let held = value_or(s.lp_balances, (id, creator), 0) + seed;
        let supply = value_or(s.lp_total_supply, id, 0) + seed;
        match cpmm::open_pool(id, m.outcomes.len(), seed) {
            Err(e) => Err(e),
            Ok(p) => if !fits(held) || !fits(supply) {
                Err(PredictionError::ArithmeticOverflow)
            } else {
                Ok(
                    (
                        PredictionState {
                            pools: s.pools.insert(id, p),
                            lp_balances: s.lp_balances.insert((id, creator), held as i128),
                            lp_total_supply: s.lp_total_supply.insert(id, supply as i128),
                            markets: s.markets.insert(
                                id,
                                MarketView { total_collateral: seed, ..m },
                            ),
                            ..s
                        }.emit(
                            PredictionEvent::LiquidityAdded {
                                market_id: id,
                                provider: creator,
                                collateral: seed,
                                lp_tokens: seed,
                            },
                        ),
                        LPResultView {
                            lp_tokens_minted: seed,
                            collateral_deposited: seed,
                            outcome_deposits: Seq::new(m.outcomes.len(), |i: int| seed),
                        },
                    ),
                )
            },
        }
    }
}

/// What adding liquidity does.
pub open spec fn liquidity_added(
    s: PredictionState,
    provider: Address,
    id: u64,
    amount: i128,
) -> Result<(PredictionState, LPResultView), PredictionError> {
    if !s.markets.contains_key(id) {
        Err(PredictionError::MarketNotFound)
    } else if !s.markets[id].tradable() {
        Err(PredictionError::MarketNotTradable)
    } else if !s.pools.contains_key(id) {
        Err(PredictionError::NoLiquidityPool)
    } else {
        let m = s.markets[id];
        let p = s.pools[id];
        match cpmm::provide(p, amount, Seq::new(p.outcome_reserves.len(), |i: int| amount)) {
            Err(e) => Err(e),
            Ok((q, lp)) => {
                let held = value_or(s.lp_balances, (id, provider), 0) + lp.lp_tokens_minted;
                let supply = value_or(s.lp_total_supply, id, 0) + lp.lp_tokens_minted;
                if !fits(held) || !fits(supply) || !fits(m.total_collateral + amount) {
                    Err(PredictionError::ArithmeticOverflow)
                } else {
                    Ok(
                        (
                            PredictionState {
                                pools: s.pools.insert(id, q),
                                lp_balances: s.lp_balances.insert((id, provider), held as i128),
                                lp_total_supply: s.lp_total_supply.insert(id, supply as i128),
                                markets: s.markets.insert(
                                    id,
                                    MarketView {
                                        total_collateral: (m.total_collateral + amount) as i128,
                                        ..m
                                    },
                                ),
                                ..s
                            }.emit(
                                PredictionEvent::LiquidityAdded {
                                    market_id: id,
                                    provider,
                                    collateral: amount,
                                    lp_tokens: lp.lp_tokens_minted,
                                },
                            ),
                            lp,
                        ),
                    )
                }
            },
        }
    }
}

/// What removing liquidity does.
pub open spec fn liquidity_removed(
    s: PredictionState,
    provider: Address,
    id: u64,
    lp_amount: i128,
) -> Result<(PredictionState, LPResultView), PredictionError> {
    if !s.pools.contains_key(id) {
        Err(PredictionError::NoLiquidityPool)
    } else {
        match cpmm::withdraw(s.pools[id], lp_amount) {
            Err(e) => Err(e),
            Ok((q, lp)) => {
                let held = value_or(s.lp_balances, (id, provider), 0) - lp_amount;
                let supply = value_or(s.lp_total_supply, id, 0) - lp_amount;
                if held < 0 {
                    Err(PredictionError::InsufficientBalance)
                } else if !fits(held) || !fits(supply) {
                    Err(PredictionError::ArithmeticOverflow)
                } else {
                    Ok(
                        (
                            PredictionState {
                                pools: s.pools.insert(id, q),
                                lp_balances: s.lp_balances.insert((id, provider), held as i128),
                                lp_total_supply: s.lp_total_supply.insert(id, supply as i128),
                                ..s
                            }.emit(
                                PredictionEvent::LiquidityRemoved {
                                    market_id: id,
                                    provider,
                                    lp_tokens: lp_amount,
                                    collateral: lp.collateral_deposited,
                                },
                            ),
                            lp,
                        ),
                    )
                }
            },
        }
    }
}

/// The sum of the first `n` numbers.
pub open spec fn sum_upto(s: Seq<i128>, n: int) -> int
    decreases n,
{
    if n <= 0 {
        0
    } else {
        sum_upto(s, n - 1) + s[n - 1]
    }
}

/// The running sums of a list all are `i128`.
pub open spec fn sums_fit(s: Seq<i128>) -> bool {
    forall|n: int| 0 <= n <= s.len() ==> fits(#[trigger] sum_upto(s, n))
}

/// What buying outcome tokens does.
pub open spec fn outcome_bought(
    s: PredictionState,
    buyer: Address,
    id: u64,
    i: u32,
    amount: i128,
    min_tokens: i128,
) -> Result<(PredictionState, SwapResult), PredictionError> {
    if !s.markets.contains_key(id) {
        Err(PredictionError::MarketNotFound)
    } else if !s.markets[id].trading_open(s.timestamp) {
        Err(PredictionError::MarketNotTradable)
    } else if i >= s.markets[id].outcomes.len() {
        Err(PredictionError::InvalidOutcomeIndex)
    } else if !s.pools.contains_key(id) {
        Err(PredictionError::NoLiquidityPool)
    } else {
        let m = s.markets[id];
        let p = s.pools[id];
        let supply = sum_upto(p.outcome_reserves, p.outcome_reserves.len() as int);
        let capped = m.max_outcome_supply > 0;
        if !sums_fit(p.outcome_reserves) || (capped && !fits(supply + amount)) {
            Err(PredictionError::ArithmeticOverflow)
        } else if capped && supply + amount > m.max_outcome_supply {
            Err(PredictionError::MarketCapReached)
        } else {
            match cpmm::buy(p, i as int, amount, m.fee_bps, min_tokens) {
                Err(e) => Err(e),
                Ok((q, swap)) => {
                    let held = value_or(s.outcome_balances, (id, buyer, i), 0)
                        + swap.outcome_amount;
                    let volume = value_or(s.trading_volume, id, 0) + amount;
                    let price = quot(swap.collateral_amount as int, swap.outcome_amount as int);
                    let positions = match settlement::record(
                        s,
                        id,
                        buyer,
                        i,
                        true,
                        swap.outcome_amount,
                        price as i128,
                    ) {
                        Ok(recorded) => recorded.positions,
                        Err(_) => s.positions,
                    };
                    if !fits(held) || !fits(volume) {
                        Err(PredictionError::ArithmeticOverflow)
                    } else {
                        Ok(
                            (
                                PredictionState {
                                    pools: s.pools.insert(id, q),
                                    outcome_balances: s.outcome_balances.insert(
                                        (id, buyer, i),
                                        held as i128,
                                    ),
                                    positions,
                                    trading_volume: s.trading_volume.insert(id, volume as i128),
                                    ..s
                                }.emit(
                                    PredictionEvent::Bought {
                                        market_id: id,
                                        buyer,
                                        outcome_index: i,
                                        outcome_amount: swap.outcome_amount,
                                        collateral_amount: swap.collateral_amount,
                                    },
                                ),
                                swap,
                            ),
                        )
                    }
                },
            }
        }
    }
}

/// What selling outcome tokens does: they leave the balance and the position.
pub open spec fn outcome_sold(
    s: PredictionState,
    seller: Address,
    id: u64,
    i: u32,
    tokens: i128,
    min_collateral: i128,
) -> Result<(PredictionState, SwapResult), PredictionError> {
    if !s.markets.contains_key(id) {
        Err(PredictionError::MarketNotFound)
    } else if !s.markets[id].trading_open(s.timestamp) {
        Err(PredictionError::MarketNotTradable)
    } else if i >= s.markets[id].outcomes.len() {
        Err(PredictionError::InvalidOutcomeIndex)
    } else if value_or(s.outcome_balances, (id, seller, i), 0) < tokens {
        Err(PredictionError::InsufficientBalance)
    } else if !s.pools.contains_key(id) {
        Err(PredictionError::NoLiquidityPool)
    } else {
        match cpmm::sell(s.pools[id], i as int, tokens, s.markets[id].fee_bps, min_collateral) {
            Err(e) => Err(e),
            Ok((q, swap)) => {
                let held = value_or(s.outcome_balances, (id, seller, i), 0) - tokens;
                let volume = value_or(s.trading_volume, id, 0) + swap.collateral_amount;
                let price = quot(swap.collateral_amount as int, tokens as int);
                if !fits(held) || !fits(volume) {
                    Err(PredictionError::ArithmeticOverflow)
                } else {
                    match settlement::record(s, id, seller, i, false, tokens, price as i128) {
                        Err(e) => Err(e),
                        Ok(recorded) => Ok(
                            (
                                PredictionState {
                                    pools: s.pools.insert(id, q),
                                    outcome_balances: s.outcome_balances.insert(
                                        (id, seller, i),
                                        held as i128,
                                    ),
                                    positions: recorded.positions,
                                    trading_volume: s.trading_volume.insert(id, volume as i128),
                                    ..s
                                }.emit(
                                    PredictionEvent::Sold {
                                        market_id: id,
                                        seller,
                                        outcome_index: i,
                                        outcome_amount: tokens,
                                        collateral_amount: swap.collateral_amount,
                                    },
                                ),
                                swap,
                            ),
                        ),
                    }
                }
            },
        }
    }
}

/// What placing a limit order does.
pub open spec fn order_placed(
    s: PredictionState,
    owner: Address,
    id: u64,
    i: u32,
    side: OrderSide,
    price: i128,
    amount: i128,
) -> Result<(PredictionState, u64), PredictionError> {
    if !s.markets.contains_key(id) {
        Err(PredictionError::MarketNotFound)
    } else if !s.markets[id].trading_open(s.timestamp) {
        Err(PredictionError::MarketNotTradable)
    } else if i >= s.markets[id].outcomes.len() {
        Err(PredictionError::InvalidOutcomeIndex)
    } else {
        match orderbook::place(s, id, owner, i, side, price, amount) {
            Err(e) => Err(e),
            Ok((t, order_id)) => Ok(
                (
                    t.emit(
                        PredictionEvent::OrderPlaced {
                            market_id: id,
                            order_id,
                            outcome_index: i,
                            side,
                            price,
                            amount,
                        },
                    ),
                    order_id,
                ),
            ),
        }
    }
}

/// What cancelling an order does.
pub open spec fn order_cancelled(
    s: PredictionState,
    caller: Address,
    id: u64,
    order_id: u64,
) -> Result<(PredictionState, Symbol), PredictionError> {
    match orderbook::cancel(s, id, order_id, caller, s.is_admin(caller)) {
        Err(e) => Err(e),
        Ok(t) => Ok(
            (
                t.emit(PredictionEvent::OrderCancelled { market_id: id, order_id, caller }),
                sym("ok"@),
            ),
        ),
    }
}

/// The state with a market put back.
pub open spec fn with_market(s: PredictionState, id: u64, m: MarketView) -> PredictionState {
    PredictionState { markets: s.markets.insert(id, m), ..s }
}

/// What submitting a resolution does.
pub open spec fn resolution_submitted(
    s: PredictionState,
    id: u64,
    provider: Symbol,
    outcome: u32,
) -> Result<(PredictionState, ResolutionData), PredictionError> {
    if !s.markets.contains_key(id) {
        Err(PredictionError::MarketNotFound)
    } else {
        match oracle::resolve(s, s.markets[id], provider, outcome) {
            Err(e) => Err(e),
            Ok((t, m, data)) => Ok(
                (
                    with_market(t, id, m).emit(
                        PredictionEvent::Resolved {
                            market_id: id,
                            resolved_outcome: outcome,
                            submitted_at: data.submitted_at,
                        },
                    ),
                    data,
                ),
            ),
        }
    }
}

/// What filing a dispute does.
pub open spec fn dispute_filed(
    s: PredictionState,
    disputer: Address,
    id: u64,
    claimed_outcome: u32,
    evidence: Symbol,
    bond: i128,
) -> Result<(PredictionState, Dispute), PredictionError> {
    if !s.markets.contains_key(id) {
        Err(PredictionError::MarketNotFound)
    } else {
        match oracle::dispute(s, s.markets[id], disputer, claimed_outcome, evidence, bond) {
            Err(e) => Err(e),
            Ok((t, d)) => Ok(
                (
                    with_market(
                        t,
                        id,
                        MarketView { status: MarketStatus::Disputed, ..s.markets[id] },
                    ).emit(
                        PredictionEvent::Disputed {
                            market_id: id,
                            claimed_outcome,
                            bond_amount: bond,
                        },
                    ),
                    d,
                ),
            ),
        }
    }
}

/// What resolving a dispute does.
pub open spec fn dispute_resolved(
    s: PredictionState,
    admin: Address,
    id: u64,
    accepted: bool,
) -> Result<(PredictionState, Dispute), PredictionError> {
    if !s.is_admin(admin) {
        Err(PredictionError::Unauthorized)
    } else if !s.markets.contains_key(id) {
        Err(PredictionError::MarketNotFound)
    } else {
        match oracle::settle_dispute(s, s.markets[id], accepted) {
            Err(e) => Err(e),
            Ok((t, m, d)) => Ok(
                (
                    with_market(t, id, MarketView { status: MarketStatus::Resolved, ..m }).emit(
                        PredictionEvent::DisputeResolved {
                            market_id: id,
                            accepted,
                            claimed_outcome: d.claimed_outcome,
                        },
                    ),
                    d,
                ),
            ),
        }
    }
}

/// What ending the trading of a market does.
pub open spec fn trading_finalized(s: PredictionState, id: u64) -> Result<
    (PredictionState, Symbol),
    PredictionError,
> {
    if !s.markets.contains_key(id) {
        Err(PredictionError::MarketNotFound)
    } else {
        match oracle::end_trading(s.markets[id], s.timestamp) {
            Err(e) => Err(e),
            Ok(m) => Ok(
                (
                    with_market(s, id, m).emit(PredictionEvent::TradingEnded { market_id: id }),
                    sym("ok"@),
                ),
            ),
        }
    }
}

/// What closing a market early does.
pub open spec fn market_closed(s: PredictionState, caller: Address, id: u64) -> Result<
    (PredictionState, Symbol),
    PredictionError,
> {
    if !s.markets.contains_key(id) {
        Err(PredictionError::MarketNotFound)
    } else if !s.is_admin(caller) && s.markets[id].creator != caller {
        Err(PredictionError::Unauthorized)
    } else {
        match oracle::close_early(s, s.markets[id]) {
            Err(e) => Err(e),
            Ok((t, m)) => Ok(
                (
                    with_market(t, id, m).emit(
                        PredictionEvent::MarketClosed { market_id: id, caller },
                    ),
                    sym("ok"@),
                ),
            ),
        }
    }
}

/// What cancelling a market does.
pub open spec fn market_cancelled(s: PredictionState, admin: Address, id: u64) -> Result<
    (PredictionState, Symbol),
    PredictionError,
> {
    if !s.is_admin(admin) {
        Err(PredictionError::Unauthorized)
    } else if !s.markets.contains_key(id) {
        Err(PredictionError::MarketNotFound)
    } else {
        match oracle::cancelled(s.markets[id]) {
            Err(e) => Err(e),
            Ok(m) => Ok(
                (
                    with_market(s, id, m).emit(
                        PredictionEvent::MarketCancelled { market_id: id, admin },
                    ),
                    sym("ok"@),
                ),
            ),
        }
    }
}

/// What redeeming tokens does.
pub open spec fn tokens_redeemed(s: PredictionState, user: Address, id: u64, amount: i128) -> Result<
    (PredictionState, i128),
    PredictionError,
> {
    if !s.markets.contains_key(id) {
        Err(PredictionError::MarketNotFound)
    } else {
        match settlement::redeem(s, s.markets[id], user, amount) {
            Err(e) => Err(e),
            Ok(t) => Ok(
                (
                    t.emit(
                        PredictionEvent::Redeemed { market_id: id, user, payout: amount, amount },
                    ),
                    amount,
                ),
            ),
        }
    }
}

/// What settling a position does.
pub open spec fn position_settled(s: PredictionState, user: Address, id: u64) -> Result<
    (PredictionState, i128),
    PredictionError,
> {
    if !s.markets.contains_key(id) {
        Err(PredictionError::MarketNotFound)
    } else {
        match settlement::settle(s, s.markets[id], user) {
            Err(e) => Err(e),
            Ok((t, payout)) => Ok(
                (t.emit(PredictionEvent::Settled { market_id: id, user, payout }), payout),
            ),
        }
    }
}

/// What distributing fees does.
pub open spec fn fees_distributed(s: PredictionState, admin: Address, id: u64) -> Result<
    (PredictionState, i128),
    PredictionError,
> {
    if !s.is_admin(admin) {
        Err(PredictionError::Unauthorized)
    } else if !s.pools.contains_key(id) {
        Err(PredictionError::NoLiquidityPool)
    } else {
        match settlement::distribute(s.pools[id]) {
            Err(e) => Err(e),
            Ok((p, amount)) => Ok(
                (
                    PredictionState { pools: s.pools.insert(id, p), ..s }.emit(
                        PredictionEvent::FeesDistributed { market_id: id, amount },
                    ),
                    amount,
                ),
            ),
        }
    }
}

/// The result of a call that gives LP tokens.
pub open spec fn lp_effect(
    expected: Result<(PredictionState, LPResultView), PredictionError>,
    r: Result<LPResult, PredictionError>,
    before: PredictionState,
    after: PredictionState,
) -> bool {
    match expected {
        Ok((s, lp)) => r is Ok && r->Ok_0@ == lp && after == s,
        Err(e) => r is Err && r->Err_0 == e && after == before,
    }
}

/// Adds up the reserves, or `None` where a running sum leaves `i128`.
fn checked_sum(v: &Vec<i128>) -> (r: Option<i128>)
    ensures
        match r {
            Some(x) => sums_fit(v@) && x == sum_upto(v@, v@.len() as int),
            None => !sums_fit(v@),
        },
{
    let mut total: i128 = 0;
    let mut i: usize = 0;
    while i < v.len()
        invariant
            i <= v@.len(),
            total == sum_upto(v@, i as int),
            forall|n: int| 0 <= n <= i ==> fits(#[trigger] sum_upto(v@, n)),
        decreases v@.len() - i,
    {
        match total.checked_add(v[i]) {
            Some(x) => {
                total = x;
            },
            None => {
                assert(!fits(sum_upto(v@, i + 1)));
                return None;
            },
        }
        i += 1;
    }
    Some(total)
}

impl PredictionMarket {
    // =======================================================================
    // Lifecycle
    // =======================================================================

    /// Initialize the prediction market contract with an admin address.
    ///
    /// Can only be called once.
    pub fn initialize(env: &mut PredictionEnv, admin: Address) -> (r: Result<
        Symbol,
        PredictionError,
    >)
        ensures
            effect(initialized(old(env)@, admin), r, old(env)@, final(env)@),
    {
        if env.admin.is_some() {
            return Err(PredictionError::AlreadyInitialized);
        }
        env.admin = Some(admin);
        assert(env@ =~= initialized(old(env)@, admin)->Ok_0.0);
        Ok(symbol_short("ok"))
    }

    /// Assert that the caller is the admin.
    fn assert_admin(env: &PredictionEnv, caller: Address) -> (r: Result<(), PredictionError>)
        ensures
            r is Ok <==> env@.is_admin(caller),
            r is Err ==> r->Err_0 == PredictionError::Unauthorized,
    {
        match env.admin {
            Some(a) => if a == caller {
                Ok(())
            } else {
                Err(PredictionError::Unauthorized)
            },
            None => Err(PredictionError::Unauthorized),
        }
    }

    fn load_market(env: &PredictionEnv, market_id: u64) -> (r: Result<Market, PredictionError>)
        ensures
            match r {
                Ok(m) => env@.markets.contains_key(market_id) && m@ == env@.markets[market_id],
                Err(e) => !env@.markets.contains_key(market_id) && e
                    == PredictionError::MarketNotFound,
            },
    {
        match env.markets.get(market_id) {
            Some(m) => Ok(m.copy()),
            None => Err(PredictionError::MarketNotFound),
        }
    }

    fn save_market(env: &mut PredictionEnv, market_id: u64, market: Market)
        ensures
            final(env)@ == with_market(old(env)@, market_id, market@),
    {
        env.markets.set(market_id, market);
        assert(env@ =~= with_market(old(env)@, market_id, market@));
    }

    // =======================================================================
    // Market creation & management
    // =======================================================================

    /// Create a new prediction market.
    ///
    /// Supports binary (2 outcomes) and multi-outcome (up to 10) markets.
    pub fn create_market(
        env: &mut PredictionEnv,
        creator: Address,
        description: Symbol,
        category: MarketCategory,
        outcomes: Vec<Outcome>,
        trading_end_time: u64,
        resolution_time: u64,
        oracle_source: Symbol,
        max_outcome_supply: i128,
        fee_bps: i128,
        allow_early_close: bool,
    ) -> (r: Result<u64, PredictionError>)
        requires
            old(env)@.authorized(creator),
            old(env)@.wf(),
            old(env)@.next_market_id < u64::MAX,
        ensures
            effect(
                market_created(
                    old(env)@,
                    MarketTerms {
                        creator,
                        description,
                        category,
                        outcomes: outcomes@,
                        trading_end_time,
                        resolution_time,
                        oracle_source,
                        max_outcome_supply,
                        fee_bps,
                        allow_early_close,
                    },
                ),
                r,
                old(env)@,
                final(env)@,
            ),
            final(env)@.wf(),
    {
        let ghost terms = MarketTerms {
            creator,
            description,
            category,
            outcomes: outcomes@,
            trading_end_time,
            resolution_time,
            oracle_source,
            max_outcome_supply,
            fee_bps,
            allow_early_close,
        };
        let num_outcomes: usize = outcomes.len();
        if num_outcomes < 2 || num_outcomes > MAX_OUTCOMES_PER_MARKET as usize {
            return Err(PredictionError::TooManyOutcomes);
        }
        let now: u64 = env.timestamp;
        if trading_end_time <= now || resolution_time <= trading_end_time {
            return Err(PredictionError::InvalidMarketParams);
        }
        if Self::count_active_markets(env) >= MAX_ACTIVE_MARKETS as usize {
            return Err(PredictionError::MarketCapReached);
        }
        let market_id: u64 = Self::next_market_id(env);
        let market = Market {
            market_id,
            description,
            category,
            outcomes,
            collateral_token: symbol_short("USDC"),
            status: MarketStatus::Active,
            created_at: now,
            trading_end_time,
            resolution_time,
            oracle_source,
            resolved_outcome: None,
            creator,
            max_outcome_supply,
            total_collateral: 0,
            fee_bps,
            allow_early_close,
            resolved_at: None,
        };
        assert(market@ =~= opened_market(market_id, now, terms));
        Self::save_market(env, market_id, market);
        env.market_list.push(market_id);
        Self::add_market_to_category(env, category, market_id);
        let source = OracleSource {
            provider_id: oracle_source,
            feed_id: symbol_short("default"),
            max_staleness: 300,
            is_active: true,
        };
        let _ = oracle::set_oracle_source(env, market_id, source);
        env.publish(PredictionEvent::MarketAdded { market_id, description, creator });
        assert(env@ =~= market_created(old(env)@, terms)->Ok_0.0);
        Ok(market_id)
    }

    /// The number of active markets.
    fn count_active_markets(env: &PredictionEnv) -> (n: usize)
        ensures
            n == active_markets(env@, env@.market_list, env@.market_list.len() as int),
    {
        let mut n: usize = 0;
        let mut i: usize = 0;
        while i < env.market_list.len()
            invariant
                n <= i <= env@.market_list.len(),
                n == active_markets(env@, env@.market_list, i as int),
            decreases env@.market_list.len() - i,
        {
            let is_open: bool = match env.markets.get(env.market_list[i]) {
                Some(m) => m.status == MarketStatus::Active,
                None => false,
            };
            if is_open {
                n += 1;
            }
            i += 1;
        }
        n
    }

    /// Get the next market ID and increment the counter.
    fn next_market_id(env: &mut PredictionEnv) -> (id: u64)
        requires
            old(env)@.next_market_id < u64::MAX,
        ensures
            id == old(env)@.next_market_id,
            final(env)@ == (PredictionState { next_market_id: (id + 1) as u64, ..old(env)@ }),
    {
        let id: u64 = env.next_market_id;
        env.next_market_id = id + 1;
        id
    }

    /// Add a market to a category index.
    fn add_market_to_category(env: &mut PredictionEnv, category: MarketCategory, market_id: u64)
        ensures
            final(env)@ == (PredictionState {
                markets_by_category: old(env)@.markets_by_category.insert(
                    category,
                    value_or(old(env)@.markets_by_category, category, Seq::empty()).push(market_id),
                ),
                ..old(env)@
            }),
    {
        let mut ids: Vec<u64> = Self::get_markets_by_category(env, category);
        ids.push(market_id);
        env.markets_by_category.set(category, ids);
        assert(env@ =~= (PredictionState {
            markets_by_category: old(env)@.markets_by_category.insert(
                category,
                value_or(old(env)@.markets_by_category, category, Seq::empty()).push(market_id),
            ),
            ..old(env)@
        }));
    }

    /// Get a market by ID.
    pub fn get_market(env: &PredictionEnv, market_id: u64) -> (r: Option<Market>)
        ensures
            match r {
                Some(m) => env@.markets.contains_key(market_id) && m@ == env@.markets[market_id],
                None => !env@.markets.contains_key(market_id),
            },
    {
        match env.markets.get(market_id) {
            Some(m) => Some(m.copy()),
            None => None,
        }
    }

    /// Get all market IDs.
    pub fn get_all_market_ids(env: &PredictionEnv) -> (r: Vec<u64>)
        ensures
            r@ == env@.market_list,
    {
        copy_vec(&env.market_list)
    }

    /// Get markets by category.
    pub fn get_markets_by_category(env: &PredictionEnv, category: MarketCategory) -> (r: Vec<u64>)
        ensures
            r@ == value_or(env@.markets_by_category, category, Seq::empty()),
    {
        match env.markets_by_category.get(category) {
            Some(ids) => copy_vec(ids),
            None => {
                let ids: Vec<u64> = Vec::new();
                assert(ids@ =~= Seq::empty());
                ids
            },
        }
    }

    /// Get the total number of markets.
    pub fn get_market_count(env: &PredictionEnv) -> (n: u32)
        requires
            env@.market_list.len() <= u32::MAX,
        ensures
            n == env@.market_list.len(),
    {
        env.market_list.len() as u32
    }

    // =======================================================================
    // Liquidity provision
    // =======================================================================

    fn lp_balance(env: &PredictionEnv, market_id: u64, user: Address) -> (x: i128)
        ensures
            x == value_or(env@.lp_balances, (market_id, user), 0),
    {
        match env.lp_balances.copied((market_id, user)) {
            Some(x) => x,
            None => 0,
        }
    }

    fn lp_supply(env: &PredictionEnv, market_id: u64) -> (x: i128)
        ensures
            x == value_or(env@.lp_total_supply, market_id, 0),
    {
        match env.lp_total_supply.copied(market_id) {
            Some(x) => x,
            None => 0,
        }
    }

    /// Create the liquidity pool for a market with initial seed liquidity.
    pub fn create_liquidity_pool(
        env: &mut PredictionEnv,
        creator: Address,
        market_id: u64,
        initial_collateral: i128,
    ) -> (r: Result<LPResult, PredictionError>)
        requires
            old(env)@.authorized(creator),
            old(env)@.wf(),
        ensures
            lp_effect(
                pool_created(old(env)@, creator, market_id, initial_collateral),
                r,
                old(env)@,
                final(env)@,
            ),
            final(env)@.wf(),
    {
        let mut market: Market = match Self::load_market(env, market_id) {
            Ok(m) => m,
            Err(e) => return Err(e),
        };
        if !market.is_tradable() {
            return Err(PredictionError::MarketNotTradable);
        }
        let n: usize = market.outcomes.len();
        let pool: LiquidityPool = match cpmm::new_pool(market_id, n as u32, initial_collateral) {
            Ok(p) => p,
            Err(e) => return Err(e),
        };
        let held: i128 = match Self::lp_balance(env, market_id, creator).checked_add(
            initial_collateral,
        ) {
            Some(x) => x,
            None => return Err(PredictionError::ArithmeticOverflow),
        };
        let supply: i128 = match Self::lp_supply(env, market_id).checked_add(initial_collateral) {
            Some(x) => x,
            None => return Err(PredictionError::ArithmeticOverflow),
        };
        cpmm::save_pool(env, pool);
        env.lp_balances.set((market_id, creator), held);
        env.lp_total_supply.set(market_id, supply);
        market.total_collateral = initial_collateral;
        Self::save_market(env, market_id, market);
        env.publish(
            PredictionEvent::LiquidityAdded {
                market_id,
                provider: creator,
                collateral: initial_collateral,
                lp_tokens: initial_collateral,
            },
        );
        assert(env@ =~= pool_created(
            old(env)@,
            creator,
            market_id,
            initial_collateral,
        )->Ok_0.0);
        Ok(
            LPResult {
                lp_tokens_minted: initial_collateral,
                collateral_deposited: initial_collateral,
                outcome_deposits: repeat_vec(initial_collateral, n),
            },
        )
    }

    /// Add liquidity to an existing pool.
    pub fn add_liquidity(
        env: &mut PredictionEnv,
        provider: Address,
        market_id: u64,
        collateral_amount: i128,
    ) -> (r: Result<LPResult, PredictionError>)
        requires
            old(env)@.authorized(provider),
            old(env)@.wf(),
        ensures
            lp_effect(
                liquidity_added(old(env)@, provider, market_id, collateral_amount),
                r,
                old(env)@,
                final(env)@,
            ),
            final(env)@.wf(),
    {
        let mut market: Market = match Self::load_market(env, market_id) {
            Ok(m) => m,
            Err(e) => return Err(e),
        };
        if !market.is_tradable() {
            return Err(PredictionError::MarketNotTradable);
        }
        let mut pool: LiquidityPool = match cpmm::load_pool(env, market_id) {
            Ok(p) => p,
            Err(e) => return Err(e),
        };
        let amounts: Vec<i128> = repeat_vec(collateral_amount, pool.outcome_reserves.len());
        let result: LPResult = match cpmm::add_liquidity(&mut pool, collateral_amount, amounts) {
            Ok(x) => x,
            Err(e) => return Err(e),
        };
        let held: i128 = match Self::lp_balance(env, market_id, provider).checked_add(
            result.lp_tokens_minted,
        ) {
            Some(x) => x,
            None => return Err(PredictionError::ArithmeticOverflow),
        };
        let supply: i128 = match Self::lp_supply(env, market_id).checked_add(
            result.lp_tokens_minted,
        ) {
            Some(x) => x,
            None => return Err(PredictionError::ArithmeticOverflow),
        };
        let total: i128 = match market.total_collateral.checked_add(collateral_amount) {
            Some(x) => x,
            None => return Err(PredictionError::ArithmeticOverflow),
        };
        cpmm::save_pool(env, pool);
        env.lp_balances.set((market_id, provider), held);
        env.lp_total_supply.set(market_id, supply);
        market.total_collateral = total;
        Self::save_market(env, market_id, market);
        env.publish(
            PredictionEvent::LiquidityAdded {
                market_id,
                provider,
                collateral: collateral_amount,
                lp_tokens: result.lp_tokens_minted,
            },
        );
        assert(env@ =~= liquidity_added(
            old(env)@,
            provider,
            market_id,
            collateral_amount,
        )->Ok_0.0);
        Ok(result)
    }

    /// Remove liquidity from a pool.
    pub fn remove_liquidity(
        env: &mut PredictionEnv,
        provider: Address,
        market_id: u64,
        lp_amount: i128,
    ) -> (r: Result<LPResult, PredictionError>)
        requires
            old(env)@.authorized(provider),
            old(env)@.wf(),
        ensures
            lp_effect(
                liquidity_removed(old(env)@, provider, market_id, lp_amount),
                r,
                old(env)@,
                final(env)@,
            ),
            final(env)@.wf(),
    {
        let mut pool: LiquidityPool = match cpmm::load_pool(env, market_id) {
            Ok(p) => p,
            Err(e) => return Err(e),
        };
        let result: LPResult = match cpmm::remove_liquidity(&mut pool, lp_amount) {
            Ok(x) => x,
            Err(e) => return Err(e),
        };
        let balance: i128 = Self::lp_balance(env, market_id, provider);
        if balance < lp_amount {
            return Err(PredictionError::InsufficientBalance);
        }
        let held: i128 = match balance.checked_sub(lp_amount) {
            Some(x) => x,
            None => return Err(PredictionError::ArithmeticOverflow),
        };
        let supply: i128 = match Self::lp_supply(env, market_id).checked_sub(lp_amount) {
            Some(x) => x,
            None => return Err(PredictionError::ArithmeticOverflow),
        };
        cpmm::save_pool(env, pool);
        env.lp_balances.set((market_id, provider), held);
        env.lp_total_supply.set(market_id, supply);
        env.publish(
            PredictionEvent::LiquidityRemoved {
                market_id,
                provider,
                lp_tokens: lp_amount,
                collateral: result.collateral_deposited,
            },
        );
        assert(env@ =~= liquidity_removed(old(env)@, provider, market_id, lp_amount)->Ok_0.0);
        Ok(result)
    }

    /// Get the LP token balance for a user in a market.
    pub fn get_lp_balance(env: &PredictionEnv, market_id: u64, user: Address) -> (x: i128)
        ensures
            x == value_or(env@.lp_balances, (market_id, user), 0),
    {
        Self::lp_balance(env, market_id, user)
    }

    // =======================================================================
    // CPMM trading
    // =======================================================================

    /// Buy outcome tokens from the CPMM pool using collateral.
    pub fn buy_outcome(
        env: &mut PredictionEnv,
        buyer: Address,
        market_id: u64,
        outcome_index: u32,
        collateral_amount: i128,
        min_outcome_tokens: i128,
    ) -> (r: Result<SwapResult, PredictionError>)
        requires
            old(env)@.authorized(buyer),
            old(env)@.wf(),
        ensures
            effect(
                outcome_bought(
                    old(env)@,
                    buyer,
                    market_id,
                    outcome_index,
                    collateral_amount,
                    min_outcome_tokens,
                ),
                r,
                old(env)@,
                final(env)@,
            ),
            final(env)@.wf(),
    {
        let market: Market = match Self::load_market(env, market_id) {
            Ok(m) => m,
            Err(e) => return Err(e),
        };
        if !market.is_trading_open(env.timestamp) {
            return Err(PredictionError::MarketNotTradable);
        }
        if outcome_index as usize >= market.outcomes.len() {
            return Err(PredictionError::InvalidOutcomeIndex);
        }
        let mut pool: LiquidityPool = match cpmm::load_pool(env, market_id) {
            Ok(p) => p,
            Err(e) => return Err(e),
        };
        let total: i128 = match checked_sum(&pool.outcome_reserves) {
            Some(x) => x,
            None => return Err(PredictionError::ArithmeticOverflow),
        };
        if market.max_outcome_supply > 0 {
            let wanted: i128 = match total.checked_add(collateral_amount) {
                Some(x) => x,
                None => return Err(PredictionError::ArithmeticOverflow),
            };
            if wanted > market.max_outcome_supply {
                return Err(PredictionError::MarketCapReached);
            }
        }
        let swap: SwapResult = match cpmm::buy_outcome_tokens(
            &mut pool,
            outcome_index,
            collateral_amount,
            market.fee_bps,
            min_outcome_tokens,
        ) {
            Ok(x) => x,
            Err(e) => return Err(e),
        };
        let held: i128 = match Self::outcome_balance(env, market_id, buyer, outcome_index).checked_add(
            swap.outcome_amount,
        ) {
            Some(x) => x,
            None => return Err(PredictionError::ArithmeticOverflow),
        };
        let volume: i128 = match Self::get_trading_volume(env, market_id).checked_add(
            collateral_amount,
        ) {
            Some(x) => x,
            None => return Err(PredictionError::ArithmeticOverflow),
        };
        proof {
            lemma_quot_bounds(swap.collateral_amount as int, swap.outcome_amount as int);
        }
        let price: i128 = match checked_quot(swap.collateral_amount, swap.outcome_amount) {
            Some(x) => x,
            None => 0,
        };
        // A position that cannot record the trade stays as it is.
        let _ = settlement::record_trade(
            env,
            market_id,
            buyer,
            outcome_index,
            true,
            swap.outcome_amount,
            price,
        );
        cpmm::save_pool(env, pool);
        env.outcome_balances.set((market_id, buyer, outcome_index), held);
        env.trading_volume.set(market_id, volume);
        env.publish(
            PredictionEvent::Bought {
                market_id,
                buyer,
                outcome_index,
                outcome_amount: swap.outcome_amount,
                collateral_amount: swap.collateral_amount,
            },
        );
        assert(env@ =~= outcome_bought(
            old(env)@,
            buyer,
            market_id,
            outcome_index,
            collateral_amount,
            min_outcome_tokens,
        )->Ok_0.0);
        Ok(swap)
    }

    /// Sell outcome tokens for collateral via the CPMM pool.
    pub fn sell_outcome(
        env: &mut PredictionEnv,
        seller: Address,
        market_id: u64,
        outcome_index: u32,
        outcome_tokens: i128,
        min_collateral: i128,
    ) -> (r: Result<SwapResult, PredictionError>)
        requires
            old(env)@.authorized(seller),
            old(env)@.wf(),
        ensures
            effect(
                outcome_sold(
                    old(env)@,
                    seller,
                    market_id,
                    outcome_index,
                    outcome_tokens,
                    min_collateral,
                ),
                r,
                old(env)@,
                final(env)@,
            ),
            final(env)@.wf(),
    {
        let market: Market = match Self::load_market(env, market_id) {
            Ok(m) => m,
            Err(e) => return Err(e),
        };
        if !market.is_trading_open(env.timestamp) {
            return Err(PredictionError::MarketNotTradable);
        }
        if outcome_index as usize >= market.outcomes.len() {
            return Err(PredictionError::InvalidOutcomeIndex);
        }
        let balance: i128 = Self::outcome_balance(env, market_id, seller, outcome_index);
        if balance < outcome_tokens {
            return Err(PredictionError::InsufficientBalance);
        }
        let mut pool: LiquidityPool = match cpmm::load_pool(env, market_id) {
            Ok(p) => p,
            Err(e) => return Err(e),
        };
        let swap: SwapResult = match cpmm::sell_outcome_tokens(
            &mut pool,
            outcome_index,
            outcome_tokens,
            market.fee_bps,
            min_collateral,
        ) {
            Ok(x) => x,
            Err(e) => return Err(e),
        };
        let held: i128 = match balance.checked_sub(outcome_tokens) {
            Some(x) => x,
            None => return Err(PredictionError::ArithmeticOverflow),
        };
        let volume: i128 = match Self::get_trading_volume(env, market_id).checked_add(
            swap.collateral_amount,
        ) {
            Some(x) => x,
            None => return Err(PredictionError::ArithmeticOverflow),
        };
        proof {
            lemma_quot_bounds(swap.collateral_amount as int, outcome_tokens as int);
        }
        let price: i128 = match checked_quot(swap.collateral_amount, outcome_tokens) {
            Some(x) => x,
            None => return Err(PredictionError::ArithmeticOverflow),
        };
        match settlement::record_trade(
            env,
            market_id,
            seller,
            outcome_index,
            false,
            outcome_tokens,
            price,
        ) {
            Ok(()) => {},
            Err(e) => return Err(e),
        }
        cpmm::save_pool(env, pool);
        env.outcome_balances.set((market_id, seller, outcome_index), held);
        env.trading_volume.set(market_id, volume);
        env.publish(
            PredictionEvent::Sold {
                market_id,
                seller,
                outcome_index,
                outcome_amount: outcome_tokens,
                collateral_amount: swap.collateral_amount,
            },
        );
        assert(env@ =~= outcome_sold(
            old(env)@,
            seller,
            market_id,
            outcome_index,
            outcome_tokens,
            min_collateral,
        )->Ok_0.0);
        Ok(swap)
    }

    /// Get the CPMM price for a specific outcome.
    pub fn get_outcome_price(env: &PredictionEnv, market_id: u64, outcome_index: u32) -> (r: Result<
        i128,
        PredictionError,
    >)
        ensures
            r == (if env@.pools.contains_key(market_id) {
                cpmm::outcome_price(env@.pools[market_id], outcome_index as int)
            } else {
                Err(PredictionError::NoLiquidityPool)
            }),
    {
        match cpmm::load_pool(env, market_id) {
            Ok(p) => cpmm::get_outcome_price(&p, outcome_index),
            Err(e) => Err(e),
        }
    }

    /// Get CPMM prices for all outcomes in a market.
    pub fn get_all_prices(env: &PredictionEnv, market_id: u64) -> (r: Result<
        Vec<i128>,
        PredictionError,
    >)
        requires
            env@.wf(),
        ensures
            if !env@.pools.contains_key(market_id) {
                r is Err && r->Err_0 == PredictionError::NoLiquidityPool
            } else {
                let p = env@.pools[market_id];
                match cpmm::first_price_error(p, p.outcome_reserves.len() as int) {
                    Some(e) => r is Err && r->Err_0 == e,
                    None => r is Ok && r->Ok_0@ == cpmm::price_list(p, p.outcome_reserves.len()),
                }
            },
    {
        match cpmm::load_pool(env, market_id) {
            Ok(p) => cpmm::get_all_outcome_prices(&p),
            Err(e) => Err(e),
        }
    }

    /// Verify the CPMM invariant for a market's pool.
    pub fn verify_pool_invariant(env: &PredictionEnv, market_id: u64) -> (r: Result<
        bool,
        PredictionError,
    >)
        requires
            env@.wf(),
        ensures
            r == (if env@.pools.contains_key(market_id) {
                Ok(cpmm::invariant_holds(env@.pools[market_id]))
            } else {
                Err(PredictionError::NoLiquidityPool)
            }),
    {
        match cpmm::load_pool(env, market_id) {
            Ok(p) => Ok(cpmm::verify_invariant(&p)),
            Err(e) => Err(e),
        }
    }

    fn outcome_balance(
        env: &PredictionEnv,
        market_id: u64,
        user: Address,
        outcome_index: u32,
    ) -> (x: i128)
        ensures
            x == value_or(env@.outcome_balances, (market_id, user, outcome_index), 0),
    {
        match env.outcome_balances.copied((market_id, user, outcome_index)) {
            Some(x) => x,
            None => 0,
        }
    }

    /// Get the outcome token balance for a user.
    pub fn get_outcome_balance(
        env: &PredictionEnv,
        market_id: u64,
        user: Address,
        outcome_index: u32,
    ) -> (x: i128)
        ensures
            x == value_or(env@.outcome_balances, (market_id, user, outcome_index), 0),
    {
        Self::outcome_balance(env, market_id, user, outcome_index)
    }

    // =======================================================================
    // Order book trading
    // =======================================================================

    /// Place a limit order on the outcome token order book.
    pub fn place_order(
        env: &mut PredictionEnv,
        owner: Address,
        market_id: u64,
        outcome_index: u32,
        side: OrderSide,
        price: i128,
        amount: i128,
    ) -> (r: Result<u64, PredictionError>)
        requires
            old(env)@.authorized(owner),
            old(env)@.wf(),
            orderbook::next_id(old(env)@, market_id) < u64::MAX,
        ensures
            effect(
                order_placed(old(env)@, owner, market_id, outcome_index, side, price, amount),
                r,
                old(env)@,
                final(env)@,
            ),
            final(env)@.wf(),
    {
        let market: Market = match Self::load_market(env, market_id) {
            Ok(m) => m,
            Err(e) => return Err(e),
        };
        if !market.is_trading_open(env.timestamp) {
            return Err(PredictionError::MarketNotTradable);
        }
        if outcome_index as usize >= market.outcomes.len() {
            return Err(PredictionError::InvalidOutcomeIndex);
        }
        let order_id: u64 = match orderbook::place_order(
            env,
            market_id,
            owner,
            outcome_index,
            side,
            price,
            amount,
        ) {
            Ok(x) => x,
            Err(e) => return Err(e),
        };
        env.publish(
            PredictionEvent::OrderPlaced {
                market_id,
                order_id,
                outcome_index,
                side,
                price,
                amount,
            },
        );
        Ok(order_id)
    }

    /// Cancel an existing order.
    pub fn cancel_order(
        env: &mut PredictionEnv,
        caller: Address,
        market_id: u64,
        order_id: u64,
    ) -> (r: Result<Symbol, PredictionError>)
        requires
            old(env)@.authorized(caller),
            old(env)@.wf(),
        ensures
            effect(
                order_cancelled(old(env)@, caller, market_id, order_id),
                r,
                old(env)@,
                final(env)@,
            ),
            final(env)@.wf(),
    {
        let is_admin: bool = Self::assert_admin(env, caller).is_ok();
        match orderbook::cancel_order(env, market_id, order_id, caller, is_admin) {
            Ok(()) => {},
            Err(e) => return Err(e),
        }
        env.publish(PredictionEvent::OrderCancelled { market_id, order_id, caller });
        Ok(symbol_short("ok"))
    }

    /// Get a specific order by market and ID.
    pub fn get_order(env: &PredictionEnv, market_id: u64, order_id: u64) -> (r: Option<
        PredictionOrder,
    >)
        ensures
            r == (if env@.orders.contains_key((market_id, order_id)) {
                Some(env@.orders[(market_id, order_id)])
            } else {
                None
            }),
    {
        orderbook::get_order(env, market_id, order_id)
    }

    /// Get the order book snapshot for a market outcome.
    pub fn get_order_book(env: &PredictionEnv, market_id: u64, outcome_index: u32) -> (r:
        OrderBookSnapshot)
        requires
            env@.wf(),
        ensures
            orderbook::snapshot_of(
                orderbook::book_of(env@, market_id),
                market_id,
                outcome_index,
                r,
            ),
    {
        orderbook::get_book_snapshot(env, market_id, outcome_index)
    }

    // =======================================================================
    // Oracle resolution & disputes
    // =======================================================================

    /// Submit an oracle resolution for a market.
    pub fn submit_resolution(
        env: &mut PredictionEnv,
        market_id: u64,
        oracle_provider: Symbol,
        resolved_outcome: u32,
    ) -> (r: Result<ResolutionData, PredictionError>)
        requires
            old(env)@.wf(),
        ensures
            effect(
                resolution_submitted(old(env)@, market_id, oracle_provider, resolved_outcome),
                r,
                old(env)@,
                final(env)@,
            ),
            final(env)@.wf(),
    {
        let mut market: Market = match Self::load_market(env, market_id) {
            Ok(m) => m,
            Err(e) => return Err(e),
        };
        let data: ResolutionData = match oracle::submit_resolution(
            env,
            &mut market,
            oracle_provider,
            resolved_outcome,
        ) {
            Ok(x) => x,
            Err(e) => return Err(e),
        };
        Self::save_market(env, market_id, market);
        env.publish(
            PredictionEvent::Resolved {
                market_id,
                resolved_outcome,
                submitted_at: data.submitted_at,
            },
        );
        Ok(data)
    }

    /// File a dispute against a market resolution.
    pub fn file_dispute(
        env: &mut PredictionEnv,
        disputer: Address,
        market_id: u64,
        claimed_outcome: u32,
        evidence: Symbol,
        bond_amount: i128,
    ) -> (r: Result<Dispute, PredictionError>)
        requires
            old(env)@.authorized(disputer),
            old(env)@.wf(),
        ensures
            effect(
                dispute_filed(
                    old(env)@,
                    disputer,
                    market_id,
                    claimed_outcome,
                    evidence,
                    bond_amount,
                ),
                r,
                old(env)@,
                final(env)@,
            ),
            final(env)@.wf(),
    {
        let mut market: Market = match Self::load_market(env, market_id) {
            Ok(m) => m,
            Err(e) => return Err(e),
        };
        let d: Dispute = match oracle::file_dispute(
            env,
            &market,
            disputer,
            claimed_outcome,
            evidence,
            bond_amount,
        ) {
            Ok(x) => x,
            Err(e) => return Err(e),
        };
        market.status = MarketStatus::Disputed;
        Self::save_market(env, market_id, market);
        env.publish(PredictionEvent::Disputed { market_id, claimed_outcome, bond_amount });
        Ok(d)
    }

    /// Resolve a dispute. Admin only.
    pub fn resolve_dispute(
        env: &mut PredictionEnv,
        admin: Address,
        market_id: u64,
        accepted: bool,
    ) -> (r: Result<Dispute, PredictionError>)
        requires
            old(env)@.authorized(admin),
            old(env)@.wf(),
        ensures
            effect(
                dispute_resolved(old(env)@, admin, market_id, accepted),
                r,
                old(env)@,
                final(env)@,
            ),
            final(env)@.wf(),
    {
        match Self::assert_admin(env, admin) {
            Ok(()) => {},
            Err(e) => return Err(e),
        }
        let mut market: Market = match Self::load_market(env, market_id) {
            Ok(m) => m,
            Err(e) => return Err(e),
        };
        let d: Dispute = match oracle::resolve_dispute(env, &mut market, accepted) {
            Ok(x) => x,
            Err(e) => return Err(e),
        };
        market.status = MarketStatus::Resolved;
        Self::save_market(env, market_id, market);
        env.publish(
            PredictionEvent::DisputeResolved {
                market_id,
                accepted,
                claimed_outcome: d.claimed_outcome,
            },
        );
        Ok(d)
    }

    /// Get the dispute for a market.
    pub fn get_dispute(env: &PredictionEnv, market_id: u64) -> (r: Option<Dispute>)
        ensures
            r == (if env@.disputes.contains_key(market_id) {
                Some(env@.disputes[market_id])
            } else {
                None
            }),
    {
        oracle::get_dispute(env, market_id)
    }

    /// Get the resolution data for a market.
    pub fn get_resolution(env: &PredictionEnv, market_id: u64) -> (r: Option<ResolutionData>)
        ensures
            r == (if env@.resolutions.contains_key(market_id) {
                Some(env@.resolutions[market_id])
            } else {
                None
            }),
    {
        oracle::get_resolution_data(env, market_id)
    }

    // =======================================================================
    // Market transitions
    // =======================================================================

    /// Transition a market to PendingResolution (called when trading ends).
    pub fn finalize_trading(env: &mut PredictionEnv, market_id: u64) -> (r: Result<
        Symbol,
        PredictionError,
    >)
        requires
            old(env)@.wf(),
        ensures
            effect(trading_finalized(old(env)@, market_id), r, old(env)@, final(env)@),
            final(env)@.wf(),
    {
        let mut market: Market = match Self::load_market(env, market_id) {
            Ok(m) => m,
            Err(e) => return Err(e),
        };
        match oracle::transition_to_pending_resolution(env, &mut market) {
            Ok(()) => {},
            Err(e) => return Err(e),
        }
        Self::save_market(env, market_id, market);
        env.publish(PredictionEvent::TradingEnded { market_id });
        Ok(symbol_short("ok"))
    }

    /// Early close a market (admin or creator only).
    pub fn early_close(env: &mut PredictionEnv, caller: Address, market_id: u64) -> (r: Result<
        Symbol,
        PredictionError,
    >)
        requires
            old(env)@.authorized(caller),
            old(env)@.wf(),
        ensures
            effect(market_closed(old(env)@, caller, market_id), r, old(env)@, final(env)@),
            final(env)@.wf(),
    {
        let mut market: Market = match Self::load_market(env, market_id) {
            Ok(m) => m,
            Err(e) => return Err(e),
        };
        let is_admin: bool = Self::assert_admin(env, caller).is_ok();
        if !is_admin && market.creator != caller {
            return Err(PredictionError::Unauthorized);
        }
        match oracle::early_close_market(env, &mut market) {
            Ok(()) => {},
            Err(e) => return Err(e),
        }
        Self::save_market(env, market_id, market);
        env.publish(PredictionEvent::MarketClosed { market_id, caller });
        Ok(symbol_short("ok"))
    }

    /// Cancel a market (admin only, no trades allowed).
    pub fn cancel_market(env: &mut PredictionEnv, admin: Address, market_id: u64) -> (r: Result<
        Symbol,
        PredictionError,
    >)
        requires
            old(env)@.authorized(admin),
            old(env)@.wf(),
        ensures
            effect(market_cancelled(old(env)@, admin, market_id), r, old(env)@, final(env)@),
            final(env)@.wf(),
    {
        match Self::assert_admin(env, admin) {
            Ok(()) => {},
            Err(e) => return Err(e),
        }
        let mut market: Market = match Self::load_market(env, market_id) {
            Ok(m) => m,
            Err(e) => return Err(e),
        };
        match oracle::cancel_market(&mut market) {
            Ok(()) => {},
            Err(e) => return Err(e),
        }
        Self::save_market(env, market_id, market);
        env.publish(PredictionEvent::MarketCancelled { market_id, admin });
        Ok(symbol_short("ok"))
    }

    // =======================================================================
    // Settlement & redemption
    // =======================================================================

    /// Redeem winning outcome tokens for collateral at 1:1 rate.
    pub fn redeem_tokens(
        env: &mut PredictionEnv,
        user: Address,
        market_id: u64,
        amount: i128,
    ) -> (r: Result<i128, PredictionError>)
        requires
            old(env)@.authorized(user),
            old(env)@.wf(),
            settlement::spent_is_negatable(old(env)@, market_id, user),
        ensures
            effect(
                tokens_redeemed(old(env)@, user, market_id, amount),
                r,
                old(env)@,
                final(env)@,
            ),
            final(env)@.wf(),
    {
        let market: Market = match Self::load_market(env, market_id) {
            Ok(m) => m,
            Err(e) => return Err(e),
        };
        let payout: i128 = match settlement::redeem_winning_tokens(env, &market, user, amount) {
            Ok(x) => x,
            Err(e) => return Err(e),
        };
        env.publish(PredictionEvent::Redeemed { market_id, user, payout, amount });
        Ok(payout)
    }

    /// Settle a user's entire position (redeem all winning tokens).
    pub fn settle_position(env: &mut PredictionEnv, user: Address, market_id: u64) -> (r: Result<
        i128,
        PredictionError,
    >)
        requires
            old(env)@.authorized(user),
            old(env)@.wf(),
            settlement::spent_is_negatable(old(env)@, market_id, user),
        ensures
            effect(position_settled(old(env)@, user, market_id), r, old(env)@, final(env)@),
            final(env)@.wf(),
    {
        let market: Market = match Self::load_market(env, market_id) {
            Ok(m) => m,
            Err(e) => return Err(e),
        };
        let payout: i128 = match settlement::settle_position(env, &market, user) {
            Ok(x) => x,
            Err(e) => return Err(e),
        };
        env.publish(PredictionEvent::Settled { market_id, user, payout });
        Ok(payout)
    }

    /// Distribute accumulated LP fees after market resolution.
    pub fn distribute_fees(env: &mut PredictionEnv, admin: Address, market_id: u64) -> (r: Result<
        i128,
        PredictionError,
    >)
        requires
            old(env)@.authorized(admin),
            old(env)@.wf(),
        ensures
            effect(fees_distributed(old(env)@, admin, market_id), r, old(env)@, final(env)@),
            final(env)@.wf(),
    {
        match Self::assert_admin(env, admin) {
            Ok(()) => {},
            Err(e) => return Err(e),
        }
        let mut pool: LiquidityPool = match cpmm::load_pool(env, market_id) {
            Ok(p) => p,
            Err(e) => return Err(e),
        };
        let amount: i128 = match settlement::distribute_lp_fees(&mut pool) {
            Ok(x) => x,
            Err(e) => return Err(e),
        };
        cpmm::save_pool(env, pool);
        env.publish(PredictionEvent::FeesDistributed { market_id, amount });
        Ok(amount)
    }

    // =======================================================================
    // Statistics & queries
    // =======================================================================

    /// Get the liquidity pool for a market.
    pub fn get_liquidity_pool(env: &PredictionEnv, market_id: u64) -> (r: Result<
        LiquidityPool,
        PredictionError,
    >)
        ensures
            match r {
                Ok(p) => env@.pools.contains_key(market_id) && p@ == env@.pools[market_id],
                Err(e) => !env@.pools.contains_key(market_id) && e
                    == PredictionError::NoLiquidityPool,
            },
    {
        cpmm::load_pool(env, market_id)
    }

    /// Get the trading volume for a market.
    pub fn get_trading_volume(env: &PredictionEnv, market_id: u64) -> (x: i128)
        ensures
            x == value_or(env@.trading_volume, market_id, 0),
    {
        match env.trading_volume.copied(market_id) {
            Some(x) => x,
            None => 0,
        }
    }

    /// Get the user's position in a market.
    pub fn get_user_position(env: &PredictionEnv, market_id: u64, user: Address) -> (r: Option<
        Position,
    >)
        ensures
            match r {
                Some(p) => env@.positions.contains_key((market_id, user)) && p@
                    == env@.positions[(market_id, user)],
                None => !env@.positions.contains_key((market_id, user)),
            },
    {
        settlement::get_position(env, market_id, user)
    }

    /// Check if a market's pool CPMM invariant is maintained.
    pub fn check_invariant(env: &PredictionEnv, market_id: u64) -> (b: bool)
        requires
            env@.wf(),
        ensures
            b == (env@.pools.contains_key(market_id) && cpmm::invariant_holds(
                env@.pools[market_id],
            )),
    {
        match cpmm::load_pool(env, market_id) {
            Ok(p) => cpmm::verify_invariant(&p),
            Err(_) => false,
        }
    }
}

} // verus!
