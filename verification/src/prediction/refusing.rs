//! Why calls are refused, in the order in which it is asked, what they tell,
//! and what a market place looks like before any call.

use vstd::prelude::*;

use crate::base::address::Address;
use crate::base::symbol::{sym, Symbol};
use crate::prediction::contract::{
    dispute_filed, dispute_resolved, fees_distributed, initialized, liquidity_added,
    liquidity_removed, market_cancelled, market_closed, market_created, order_cancelled,
    order_placed, outcome_bought, outcome_sold, pool_created, position_settled,
    resolution_submitted, tokens_redeemed, trading_finalized, MarketTerms,
};
use crate::prediction::settlement::positions_of;
use crate::prediction::state::{PredictionEvent, PredictionState};
use crate::prediction::types::{
    DisputeStatus, MarketStatus, MarketView, OrderSide, OrderStatus, PredictionError,
};

verus! {

/// The state is the one before, but for one more event.
pub open spec fn tells(s: PredictionState, t: PredictionState, e: PredictionEvent) -> bool {
    t.events == s.events.push(e)
}

/// The first to initialize becomes the administrator.
pub proof fn the_first_initializes(s: PredictionState, admin: Address)
    ensures
        s.admin is None ==> initialized(s, admin) == Ok::<_, PredictionError>(
            (PredictionState { admin: Some(admin), ..s }, sym("ok"@)),
        ),
        s.admin is Some ==> initialized(s, admin) == Err::<(PredictionState, Symbol), _>(
            PredictionError::AlreadyInitialized,
        ),
{
}

/// Why a market is not opened, and what is told of one that is.
pub proof fn markets_are_refused_and_told(s: PredictionState, t: MarketTerms)
    ensures
        ({
            let r = market_created(s, t);
            let n = t.outcomes.len();
            let timely = s.timestamp < t.trading_end_time < t.resolution_time;
            &&& n < 2 || n > 10 ==> r is Err && r->Err_0 == PredictionError::TooManyOutcomes
            &&& 2 <= n <= 10 && !timely ==> r is Err && r->Err_0
                == PredictionError::InvalidMarketParams
            &&& 2 <= n <= 10 && timely && r is Err ==> r->Err_0
                == PredictionError::MarketCapReached
            &&& r is Ok ==> tells(
                s,
                r->Ok_0.0,
                PredictionEvent::MarketAdded {
                    market_id: r->Ok_0.1,
                    description: t.description,
                    creator: t.creator,
                },
            )
        }),
{
}

/// Why liquidity is neither seeded, added nor removed, and what is told of it.
pub proof fn liquidity_is_refused_and_told(
    s: PredictionState,
    who: Address,
    id: u64,
    amount: i128,
)
    ensures
        ({
            let c = pool_created(s, who, id, amount);
            let a = liquidity_added(s, who, id, amount);
            let w = liquidity_removed(s, who, id, amount);
            let known = s.markets.contains_key(id);
            let active = known && s.markets[id].status == MarketStatus::Active;
            let pooled = s.pools.contains_key(id);
            let held: int = if s.lp_balances.contains_key((id, who)) {
                s.lp_balances[(id, who)] as int
            } else {
                0
            };
            &&& !known ==> c is Err && c->Err_0 == PredictionError::MarketNotFound && a is Err
                && a->Err_0 == PredictionError::MarketNotFound
            &&& known && !active ==> c is Err && c->Err_0 == PredictionError::MarketNotTradable
                && a is Err && a->Err_0 == PredictionError::MarketNotTradable
            &&& active && amount < 1_000 ==> c is Err && c->Err_0
                == PredictionError::InsufficientLiquidity
            &&& active && amount >= 1_000 && c is Err ==> c->Err_0
                == PredictionError::ArithmeticOverflow
            &&& active && !pooled ==> a is Err && a->Err_0 == PredictionError::NoLiquidityPool
            &&& active && pooled && amount <= 0 ==> a is Err && a->Err_0
                == PredictionError::InvalidOrderAmount
            &&& !pooled ==> w is Err && w->Err_0 == PredictionError::NoLiquidityPool
            &&& pooled && (amount <= 0 || amount > s.pools[id].lp_supply) ==> w is Err && w->Err_0
                == PredictionError::InvalidOrderAmount
            &&& pooled && 0 < amount <= s.pools[id].lp_supply && w is Err ==> w->Err_0
                == PredictionError::ArithmeticOverflow || (held < amount && w->Err_0
                == PredictionError::InsufficientBalance)
            &&& c is Ok ==> tells(
                s,
                c->Ok_0.0,
                PredictionEvent::LiquidityAdded {
                    market_id: id,
                    provider: who,
                    collateral: amount,
                    lp_tokens: amount,
                },
            )
            &&& a is Ok ==> tells(
                s,
                a->Ok_0.0,
                PredictionEvent::LiquidityAdded {
                    market_id: id,
                    provider: who,
                    collateral: amount,
                    lp_tokens: a->Ok_0.1.lp_tokens_minted,
                },
            )
            &&& w is Ok ==> tells(
                s,
                w->Ok_0.0,
                PredictionEvent::LiquidityRemoved {
                    market_id: id,
                    provider: who,
                    lp_tokens: amount,
                    collateral: w->Ok_0.1.collateral_deposited,
                },
            ) && w->Ok_0.1.lp_tokens_minted == 0
        }),
{
}

/// Why nothing is bought or sold, and what is told of a trade.
pub proof fn trades_are_refused_and_told(
    s: PredictionState,
    who: Address,
    id: u64,
    i: u32,
    amount: i128,
    least: i128,
)
    ensures
        ({
            let b = outcome_bought(s, who, id, i, amount, least);
            let x = outcome_sold(s, who, id, i, amount, least);
            let m = s.markets[id];
            let known = s.markets.contains_key(id);
            let open = known && m.status == MarketStatus::Active && s.timestamp
                < m.trading_end_time;
            let listed = open && i < m.outcomes.len();
            let pooled = s.pools.contains_key(id);
            let held: int = if s.outcome_balances.contains_key((id, who, i)) {
                s.outcome_balances[(id, who, i)] as int
            } else {
                0
            };
            &&& !known ==> b is Err && b->Err_0 == PredictionError::MarketNotFound && x is Err
                && x->Err_0 == PredictionError::MarketNotFound
            &&& known && !open ==> b is Err && b->Err_0 == PredictionError::MarketNotTradable
                && x is Err && x->Err_0 == PredictionError::MarketNotTradable
            &&& open && !listed ==> b is Err && b->Err_0 == PredictionError::InvalidOutcomeIndex
                && x is Err && x->Err_0 == PredictionError::InvalidOutcomeIndex
            &&& listed && !pooled ==> b is Err && b->Err_0 == PredictionError::NoLiquidityPool
            &&& listed && held < amount ==> x is Err && x->Err_0
                == PredictionError::InsufficientBalance
            &&& listed && held >= amount && !pooled ==> x is Err && x->Err_0
                == PredictionError::NoLiquidityPool
            &&& listed && held >= amount && pooled && amount <= 0 ==> x is Err && x->Err_0
                == PredictionError::InvalidOrderAmount
            &&& b is Ok ==> tells(
                s,
                b->Ok_0.0,
                PredictionEvent::Bought {
                    market_id: id,
                    buyer: who,
                    outcome_index: i,
                    outcome_amount: b->Ok_0.1.outcome_amount,
                    collateral_amount: b->Ok_0.1.collateral_amount,
                },
            )
            &&& x is Ok ==> tells(
                s,
                x->Ok_0.0,
                PredictionEvent::Sold {
                    market_id: id,
                    seller: who,
                    outcome_index: i,
                    outcome_amount: amount,
                    collateral_amount: x->Ok_0.1.collateral_amount,
                },
            )
        }),
{
}

/// Why an order is neither placed nor cancelled, and what is told of it.
pub proof fn orders_are_refused_and_told(
    s: PredictionState,
    who: Address,
    id: u64,
    i: u32,
    side: OrderSide,
    price: i128,
    amount: i128,
    order_id: u64,
)
    ensures
        ({
            let p = order_placed(s, who, id, i, side, price, amount);
            let c = order_cancelled(s, who, id, order_id);
            let m = s.markets[id];
            let known = s.markets.contains_key(id);
            let open = known && m.status == MarketStatus::Active && s.timestamp
                < m.trading_end_time;
            let listed = open && i < m.outcomes.len();
            let o = s.orders[(id, order_id)];
            let live = s.orders.contains_key((id, order_id)) && (o.status == OrderStatus::Active
                || o.status == OrderStatus::PartiallyFilled);
            &&& !known ==> p is Err && p->Err_0 == PredictionError::MarketNotFound
            &&& known && !open ==> p is Err && p->Err_0 == PredictionError::MarketNotTradable
            &&& open && !listed ==> p is Err && p->Err_0 == PredictionError::InvalidOutcomeIndex
            &&& listed && (amount <= 0 || price <= 0) ==> p is Err && p->Err_0
                == PredictionError::InvalidOrderAmount
            &&& listed && amount > 0 && price > 0 && p is Err ==> p->Err_0
                == PredictionError::ArithmeticOverflow
            &&& !live ==> c is Err && c->Err_0 == PredictionError::OrderNotFound
            &&& live && c is Err ==> c->Err_0 == PredictionError::NotOrderOwner
            &&& p is Ok ==> tells(
                s,
                p->Ok_0.0,
                PredictionEvent::OrderPlaced {
                    market_id: id,
                    order_id: p->Ok_0.1,
                    outcome_index: i,
                    side,
                    price,
                    amount,
                },
            )
            &&& c is Ok ==> c->Ok_0.1 == sym("ok"@) && tells(
                s,
                c->Ok_0.0,
                PredictionEvent::OrderCancelled { market_id: id, order_id, caller: who },
            )
        }),
{
}

/// Why a market is not resolved, and what is told where it is.
pub proof fn resolutions_are_refused_and_told(
    s: PredictionState,
    id: u64,
    provider: Symbol,
    outcome: u32,
)
    requires
        s.markets.contains_key(id) ==> s.markets[id].market_id == id,
    ensures
        ({
            let r = resolution_submitted(s, id, provider, outcome);
            let m = s.markets[id];
            let known = s.markets.contains_key(id);
            let pending = known && m.status == MarketStatus::PendingResolution;
            let timely = pending && s.timestamp >= m.resolution_time;
            let listed = timely && outcome < m.outcomes.len();
            let sourced = listed && s.oracle_sources.contains_key(id);
            &&& !known ==> r is Err && r->Err_0 == PredictionError::MarketNotFound
            &&& known && !pending ==> r is Err && r->Err_0 == PredictionError::MarketNotTradable
            &&& pending && !timely ==> r is Err && r->Err_0
                == PredictionError::ResolutionWindowNotClosed
            &&& timely && !listed ==> r is Err && r->Err_0 == PredictionError::InvalidOutcomeIndex
            &&& listed && !sourced ==> r is Err && r->Err_0 == PredictionError::OracleNotConfigured
            &&& sourced && s.oracle_sources[id].provider_id != provider ==> r is Err && r->Err_0
                == PredictionError::Unauthorized
            &&& sourced && s.oracle_sources[id].provider_id == provider
                && !s.oracle_sources[id].is_active ==> r is Err && r->Err_0
                == PredictionError::OracleNotConfigured
            &&& r is Ok ==> tells(
                s,
                r->Ok_0.0,
                PredictionEvent::Resolved {
                    market_id: id,
                    resolved_outcome: outcome,
                    submitted_at: s.timestamp,
                },
            )
        }),
{
}

/// Why a dispute is neither filed nor decided, and what is told of it.
pub proof fn disputes_are_refused_and_told(
    s: PredictionState,
    who: Address,
    id: u64,
    claimed: u32,
    evidence: Symbol,
    bond: i128,
    accepted: bool,
)
    requires
        s.markets.contains_key(id) ==> s.markets[id].market_id == id,
    ensures
        ({
            let f = dispute_filed(s, who, id, claimed, evidence, bond);
            let d = dispute_resolved(s, who, id, accepted);
            let m = s.markets[id];
            let known = s.markets.contains_key(id);
            let resolved = known && m.status == MarketStatus::Resolved;
            let pending = s.disputes.contains_key(id) && s.disputes[id].status
                == DisputeStatus::Pending;
            &&& !known ==> f is Err && f->Err_0 == PredictionError::MarketNotFound
            &&& known && !resolved ==> f is Err && f->Err_0 == PredictionError::MarketNotResolved
            &&& resolved && m.resolved_at is Some && s.timestamp > m.resolved_at->Some_0 + 86_400
                ==> f is Err && f->Err_0 == PredictionError::DisputePeriodExpired
            &&& resolved && m.resolved_at is None && claimed >= m.outcomes.len() ==> f is Err
                && f->Err_0 == PredictionError::InvalidOutcomeIndex
            &&& resolved && m.resolved_at is None && claimed < m.outcomes.len() && pending ==> f
                is Err && f->Err_0 == PredictionError::AlreadyExists
            &&& resolved && m.resolved_at is None && claimed < m.outcomes.len() && !pending && f
                is Err ==> f->Err_0 == PredictionError::InsufficientBalance
            &&& s.admin != Some(who) ==> d is Err && d->Err_0 == PredictionError::Unauthorized
            &&& s.admin == Some(who) && !known ==> d is Err && d->Err_0
                == PredictionError::MarketNotFound
            &&& s.admin == Some(who) && known && !s.disputes.contains_key(id) ==> d is Err
                && d->Err_0 == PredictionError::NoDispute
            &&& s.admin == Some(who) && known && s.disputes.contains_key(id) && !pending ==> d
                is Err && d->Err_0 == PredictionError::InvalidMarketParams
            &&& s.admin == Some(who) && known && pending && d is Err ==> d->Err_0
                == PredictionError::MarketNotResolved
            &&& f is Ok ==> tells(
                s,
                f->Ok_0.0,
                PredictionEvent::Disputed {
                    market_id: id,
                    claimed_outcome: claimed,
                    bond_amount: bond,
                },
            )
            &&& d is Ok ==> tells(
                s,
                d->Ok_0.0,
                PredictionEvent::DisputeResolved {
                    market_id: id,
                    accepted,
                    claimed_outcome: s.disputes[id].claimed_outcome,
                },
            )
        }),
{
}

/// Why a market does not end, and what is told where it does.
pub proof fn endings_are_refused_and_told(s: PredictionState, who: Address, id: u64)
    ensures
        ({
            let e = trading_finalized(s, id);
            let c = market_closed(s, who, id);
            let x = market_cancelled(s, who, id);
            let m = s.markets[id];
            let known = s.markets.contains_key(id);
            let allowed = s.admin == Some(who) || m.creator == who;
            &&& !known ==> e is Err && e->Err_0 == PredictionError::MarketNotFound && c is Err
                && c->Err_0 == PredictionError::MarketNotFound
            &&& known && m.status != MarketStatus::Active ==> e is Err && e->Err_0
                == PredictionError::InvalidMarketParams
            &&& known && m.status == MarketStatus::Active && s.timestamp < m.trading_end_time ==> e
                is Err && e->Err_0 == PredictionError::ResolutionWindowNotClosed
            &&& known && !allowed ==> c is Err && c->Err_0 == PredictionError::Unauthorized
            &&& known && allowed && c is Err ==> c->Err_0 == PredictionError::InvalidMarketParams
            &&& s.admin != Some(who) ==> x is Err && x->Err_0 == PredictionError::Unauthorized
            &&& s.admin == Some(who) && !known ==> x is Err && x->Err_0
                == PredictionError::MarketNotFound
            &&& s.admin == Some(who) && known && m.total_collateral > 0 ==> x is Err && x->Err_0
                == PredictionError::ActivePositionsExist
            &&& s.admin == Some(who) && known && m.total_collateral <= 0 && x is Err ==> x->Err_0
                == PredictionError::InvalidMarketParams
            &&& e is Ok ==> e->Ok_0.1 == sym("ok"@) && tells(
                s,
                e->Ok_0.0,
                PredictionEvent::TradingEnded { market_id: id },
            )
            &&& c is Ok ==> c->Ok_0.1 == sym("ok"@) && tells(
                s,
                c->Ok_0.0,
                PredictionEvent::MarketClosed { market_id: id, caller: who },
            )
            &&& x is Ok ==> x->Ok_0.1 == sym("ok"@) && tells(
                s,
                x->Ok_0.0,
                PredictionEvent::MarketCancelled { market_id: id, admin: who },
            )
        }),
{
}

/// Why nothing is paid out, and what is told of a payment.
pub proof fn payments_are_refused_and_told(
    s: PredictionState,
    who: Address,
    id: u64,
    amount: i128,
)
    requires
        s.markets.contains_key(id) ==> s.markets[id].market_id == id,
    ensures
        ({
            let r = tokens_redeemed(s, who, id, amount);
            let p = position_settled(s, who, id);
            let f = fees_distributed(s, who, id);
            let m = s.markets[id];
            let known = s.markets.contains_key(id);
            let resolved = known && m.status == MarketStatus::Resolved && m.resolved_outcome is Some;
            let held = s.positions.contains_key((id, who));
            let done = held && s.positions[(id, who)].settled;
            &&& !known ==> r is Err && r->Err_0 == PredictionError::MarketNotFound && p is Err
                && p->Err_0 == PredictionError::MarketNotFound
            &&& known && !resolved ==> r is Err && r->Err_0 == PredictionError::MarketNotResolved
            &&& resolved && amount <= 0 ==> r is Err && r->Err_0
                == PredictionError::InvalidOrderAmount
            &&& resolved && amount > 0 && !held ==> r is Err && r->Err_0
                == PredictionError::InsufficientBalance
            &&& resolved && amount > 0 && done ==> r is Err && r->Err_0
                == PredictionError::MarketAlreadyResolved
            &&& resolved && amount > 0 && held && !done && r is Err ==> r->Err_0
                == PredictionError::InsufficientBalance
            &&& known && !held ==> p is Err && p->Err_0 == PredictionError::InsufficientBalance
            &&& known && done ==> p is Err && p->Err_0 == PredictionError::MarketAlreadyResolved
            &&& known && held && !done && p is Err ==> p->Err_0
                == PredictionError::MarketNotResolved
            &&& s.admin != Some(who) ==> f is Err && f->Err_0 == PredictionError::Unauthorized
            &&& s.admin == Some(who) && !s.pools.contains_key(id) ==> f is Err && f->Err_0
                == PredictionError::NoLiquidityPool
            &&& s.admin == Some(who) && s.pools.contains_key(id) && f is Err ==> f->Err_0
                == PredictionError::ArithmeticOverflow
            &&& s.admin == Some(who) && s.pools.contains_key(id)
                && s.pools[id].fees_accumulated <= 0 ==> f is Ok && f->Ok_0.1 == 0
                && f->Ok_0.0.pools == s.pools
            &&& r is Ok ==> r->Ok_0.1 == amount && tells(
                s,
                r->Ok_0.0,
                PredictionEvent::Redeemed { market_id: id, user: who, payout: amount, amount },
            )
            &&& p is Ok ==> tells(
                s,
                p->Ok_0.0,
                PredictionEvent::Settled { market_id: id, user: who, payout: p->Ok_0.1 },
            )
            &&& f is Ok ==> tells(
                s,
                f->Ok_0.0,
                PredictionEvent::FeesDistributed { market_id: id, amount: f->Ok_0.1 },
            )
        }),
{
}

proof fn lemma_positions(s: PredictionState, id: u64, users: Seq<Address>, n: int)
    requires
        0 <= n <= users.len(),
    ensures
        positions_of(s, id, users, n) == users.take(n).filter(
            |u: Address| s.positions.contains_key((id, u)),
        ).map_values(|u: Address| s.positions[(id, u)]),
    decreases n,
{
    reveal(Seq::filter);
    let held = |u: Address| s.positions.contains_key((id, u));
    let position = |u: Address| s.positions[(id, u)];
    if n > 0 {
        lemma_positions(s, id, users, n - 1);
        assert(users.take(n).drop_last() =~= users.take(n - 1));
        assert(users.take(n).last() == users[n - 1]);
        let before = users.take(n - 1).filter(held);
        assert(before.push(users[n - 1]).map_values(position) =~= before.map_values(position).push(
            position(users[n - 1]),
        ));
    } else {
        assert(users.take(0).filter(held).map_values(position) =~= Seq::empty());
    }
}

/// The positions of users in a market are those that are stored, in the order
/// of the users.
pub proof fn stored_positions_are_given(s: PredictionState, id: u64, users: Seq<Address>)
    ensures
        positions_of(s, id, users, users.len() as int) == users.filter(
            |u: Address| s.positions.contains_key((id, u)),
        ).map_values(|u: Address| s.positions[(id, u)]),
{
    lemma_positions(s, id, users, users.len() as int);
    assert(users.take(users.len() as int) =~= users);
}

/// Before any call there is no administrator, no market and no balance; the
/// first market gets the number one.
pub proof fn nothing_is_there_at_first(now: u64)
    ensures
        ({
            let s = PredictionState::fresh(now);
            &&& s.timestamp == now
            &&& s.admin is None
            &&& s.next_market_id == 1
            &&& s.auths.len() == 0
            &&& s.events.len() == 0
            &&& s.market_list.len() == 0
            &&& s.markets == Map::<u64, MarketView>::empty()
            &&& s.lp_balances == Map::<(u64, Address), i128>::empty()
            &&& s.lp_total_supply == Map::<u64, i128>::empty()
            &&& s.outcome_balances == Map::<(u64, Address, u32), i128>::empty()
            &&& s.trading_volume == Map::<u64, i128>::empty()
        }),
{
}

} // verus!
