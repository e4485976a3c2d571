//! How markets end and pay out, in terms of the stored values and of what
//! callers hand in and get back.

use vstd::prelude::*;

use crate::base::address::Address;
use crate::base::arith::{fits, lemma_quot_bounds, lemma_quot_rest};
use crate::base::symbol::Symbol;
use crate::prediction::consequences::{is_quotient, purchases_pay_the_fee_of_the_market};
use crate::prediction::contract::{
    dispute_filed, dispute_resolved, market_cancelled, market_closed, outcome_bought, outcome_sold,
    position_settled, resolution_submitted, tokens_redeemed, trading_finalized,
};
use crate::prediction::settlement::record;
use crate::prediction::state::PredictionState;
use crate::prediction::types::{
    DisputeStatus, MarketStatus, MarketView, PositionView, PredictionError,
};

verus! {

// ---------------------------------------------------------------------------
// Life cycle
// ---------------------------------------------------------------------------

/// The trading of an active market ends, for anyone who asks, from its end
/// time on; the market then waits for its resolution.
pub proof fn trading_ends_at_its_time(s: PredictionState, id: u64)
    ensures
        trading_finalized(s, id) is Ok <==> {
            &&& s.markets.contains_key(id)
            &&& s.markets[id].status == MarketStatus::Active
            &&& s.timestamp >= s.markets[id].trading_end_time
        },
        trading_finalized(s, id) is Ok ==> ({
            let t = trading_finalized(s, id)->Ok_0.0;
            t == PredictionState {
                markets: s.markets.insert(
                    id,
                    MarketView { status: MarketStatus::PendingResolution, ..s.markets[id] },
                ),
                events: t.events,
                ..s
            }
        }),
{
}

/// A market whose trading has ended is resolved from its resolution time on,
/// to one of its outcomes, by the oracle it was given.
pub proof fn the_oracle_resolves(s: PredictionState, id: u64, provider: Symbol, outcome: u32)
    requires
        s.wf(),
    ensures
        ({
            let r = resolution_submitted(s, id, provider, outcome);
            let m = s.markets[id];
            &&& r is Ok <==> {
                &&& s.markets.contains_key(id)
                &&& m.status == MarketStatus::PendingResolution
                &&& s.timestamp >= m.resolution_time
                &&& outcome < m.outcomes.len()
                &&& s.oracle_sources.contains_key(id)
                &&& s.oracle_sources[id].provider_id == provider
                &&& s.oracle_sources[id].is_active
            }
            &&& r is Ok ==> {
                let (t, data) = r->Ok_0;
                &&& data.market_id == id
                &&& data.resolved_outcome == outcome
                &&& data.oracle_provider == provider
                &&& data.submitted_at == s.timestamp
                &&& t.resolutions == s.resolutions.insert(id, data)
                &&& t.markets == s.markets.insert(
                    id,
                    MarketView {
                        status: MarketStatus::Resolved,
                        resolved_outcome: Some(outcome),
                        resolved_at: Some(s.timestamp),
                        ..m
                    },
                )
                &&& t.positions == s.positions
                &&& t.pools == s.pools
            }
        }),
{
}

/// For a day after its resolution a market can be disputed, once at a time,
/// in favor of one of its outcomes and for a bond of at least one percent of
/// its collateral. It is then disputed, and nothing else of it changes.
pub proof fn disputes_take_a_bond_in_time(
    s: PredictionState,
    disputer: Address,
    id: u64,
    claimed: u32,
    evidence: Symbol,
    bond: i128,
)
    requires
        s.wf(),
        s.markets.contains_key(id),
        s.markets[id].resolved_at is Some,
        0 <= s.markets[id].total_collateral,
        fits(s.markets[id].total_collateral * 100),
        s.markets[id].resolved_at->Some_0 + 86_400 <= u64::MAX,
    ensures
        ({
            let r = dispute_filed(s, disputer, id, claimed, evidence, bond);
            let m = s.markets[id];
            &&& r is Ok <==> {
                &&& m.status == MarketStatus::Resolved
                &&& s.timestamp <= m.resolved_at->Some_0 + 86_400
                &&& claimed < m.outcomes.len()
                &&& s.disputes.contains_key(id) ==> s.disputes[id].status != DisputeStatus::Pending
                &&& (bond + 1) * 100 > m.total_collateral
            }
            &&& r is Ok ==> {
                let (t, d) = r->Ok_0;
                &&& d.market_id == id
                &&& d.disputer == disputer
                &&& d.claimed_outcome == claimed
                &&& d.evidence == evidence
                &&& d.bond_amount == bond
                &&& d.filed_at == s.timestamp
                &&& d.status == DisputeStatus::Pending
                &&& d.resolved_at is None
                &&& t.disputes == s.disputes.insert(id, d)
                &&& t.markets == s.markets.insert(
                    id,
                    MarketView { status: MarketStatus::Disputed, ..m },
                )
                &&& t.resolutions == s.resolutions
            }
        }),
{
    let c = s.markets[id].total_collateral;
    lemma_quot_rest(c * 100, 10_000);
}

/// The administrator decides a pending dispute. Accepted, it makes the claimed
/// outcome the winner; rejected, it leaves the winner. Either way the market
/// is resolved again.
pub proof fn the_administrator_decides_disputes(
    s: PredictionState,
    admin: Address,
    id: u64,
    accepted: bool,
)
    requires
        s.wf(),
    ensures
        ({
            let r = dispute_resolved(s, admin, id, accepted);
            let m = s.markets[id];
            &&& r is Ok <==> {
                &&& s.admin == Some(admin)
                &&& s.markets.contains_key(id)
                &&& s.disputes.contains_key(id)
                &&& s.disputes[id].status == DisputeStatus::Pending
                &&& accepted ==> s.resolutions.contains_key(id)
            }
            &&& r is Ok ==> {
                let (t, d) = r->Ok_0;
                let winner = t.markets[id].resolved_outcome;
                &&& t.markets == s.markets.insert(id, t.markets[id])
                &&& t.markets[id].status == MarketStatus::Resolved
                &&& winner == if accepted {
                    Some(s.disputes[id].claimed_outcome)
                } else {
                    m.resolved_outcome
                }
                &&& d.status == if accepted {
                    DisputeStatus::Accepted
                } else {
                    DisputeStatus::Rejected
                }
                &&& d.resolved_at == Some(s.timestamp)
                &&& d.claimed_outcome == s.disputes[id].claimed_outcome
                &&& t.disputes == s.disputes.insert(id, d)
                &&& accepted ==> t.resolutions[id].resolved_outcome == d.claimed_outcome
                &&& !accepted ==> t.resolutions == s.resolutions
            }
        }),
{
}

/// The creator and the administrator close an active market early, where its
/// terms allow it; it then has no winner, and its pool no outcome tokens. The
/// administrator cancels an active market that holds no collateral.
pub proof fn markets_close_and_are_cancelled(s: PredictionState, caller: Address, id: u64)
    requires
        s.wf(),
        s.markets.contains_key(id),
    ensures
        ({
            let m = s.markets[id];
            let closed = market_closed(s, caller, id);
            let cancelled = market_cancelled(s, caller, id);
            &&& closed is Ok <==> {
                &&& s.admin == Some(caller) || m.creator == caller
                &&& m.allow_early_close
                &&& m.status == MarketStatus::Active
            }
            &&& closed is Ok ==> {
                let t = closed->Ok_0.0;
                &&& t.markets == s.markets.insert(
                    id,
                    MarketView {
                        status: MarketStatus::Closed,
                        resolved_outcome: None,
                        resolved_at: Some(s.timestamp),
                        ..m
                    },
                )
                &&& s.pools.contains_key(id) ==> {
                    &&& t.pools[id].collateral_reserve == s.pools[id].collateral_reserve
                    &&& forall|j: int|
                        0 <= j < t.pools[id].outcome_reserves.len()
                            ==> #[trigger] t.pools[id].outcome_reserves[j] == 0
                }
                &&& !s.pools.contains_key(id) ==> t.pools == s.pools
            }
            &&& cancelled is Ok <==> {
                &&& s.admin == Some(caller)
                &&& m.total_collateral <= 0
                &&& m.status == MarketStatus::Active
            }
            &&& cancelled is Ok ==> cancelled->Ok_0.0.markets == s.markets.insert(
                id,
                MarketView { status: MarketStatus::Cancelled, ..m },
            )
        }),
{
}

// ---------------------------------------------------------------------------
// Positions
// ---------------------------------------------------------------------------

/// The tokens of an outcome that a position counts.
pub open spec fn counted(p: PositionView, i: u32) -> int {
    if i < p.outcome_amounts.len() {
        p.outcome_amounts[i as int] as int
    } else {
        0
    }
}

/// The tokens of an outcome in a user's position.
pub open spec fn position_of(s: PredictionState, id: u64, user: Address, i: u32) -> int {
    if s.positions.contains_key((id, user)) {
        counted(s.positions[(id, user)], i)
    } else {
        0
    }
}

/// The entry price of an outcome in a user's position.
pub open spec fn entry_of(s: PredictionState, id: u64, user: Address, i: u32) -> int {
    if s.positions.contains_key((id, user)) && i < s.positions[(id, user)].entry_prices.len() {
        s.positions[(id, user)].entry_prices[i as int] as int
    } else {
        0
    }
}

/// What a user has spent on a position.
pub open spec fn spent_of(s: PredictionState, id: u64, user: Address) -> int {
    if s.positions.contains_key((id, user)) {
        s.positions[(id, user)].total_spent as int
    } else {
        0
    }
}

/// A recorded purchase adds the tokens to the outcome of the position and
/// their cost to what was spent. The entry price is then the cost of all
/// tokens held, old at the old entry price and new at theirs, over their
/// number, rounded down. Nothing else of any position changes.
pub proof fn purchases_average_the_entry_price(
    s: PredictionState,
    id: u64,
    user: Address,
    i: u32,
    amount: i128,
    price: i128,
)
    requires
        s.wf(),
        amount > 0,
        price >= 0,
        position_of(s, id, user, i) >= 0,
        entry_of(s, id, user, i) >= 0,
    ensures
        ({
            let r = record(s, id, user, i, true, amount, price);
            let held = position_of(s, id, user, i) + amount;
            let old_cost = entry_of(s, id, user, i) * position_of(s, id, user, i);
            let cost = price * amount;
            &&& r is Ok <==> fits(held) && fits(old_cost) && fits(cost) && fits(old_cost + cost)
                && fits(spent_of(s, id, user) + cost)
            &&& r is Ok ==> {
                let t = r->Ok_0;
                &&& position_of(t, id, user, i) == held
                &&& is_quotient(entry_of(t, id, user, i), old_cost + cost, held)
                &&& spent_of(t, id, user) == spent_of(s, id, user) + cost
                &&& forall|j: u32|
                    j != i ==> #[trigger] position_of(t, id, user, j) == position_of(s, id, user, j)
                        && entry_of(t, id, user, j) == entry_of(s, id, user, j)
                &&& t == PredictionState {
                    positions: s.positions.insert((id, user), t.positions[(id, user)]),
                    ..s
                }
            }
        }),
{
    let p = position_of(s, id, user, i);
    let e = entry_of(s, id, user, i);
    let cost = price * amount;
    assert(e * p >= 0) by (nonlinear_arith)
        requires
            e >= 0,
            p >= 0,
    ;
    assert(cost >= 0) by (nonlinear_arith)
        requires
            cost == price * amount,
            price >= 0,
            amount > 0,
    ;
    let total = e * p + cost;
    let held = p + amount;
    lemma_quot_rest(total, held);
    lemma_quot_bounds(total, held);
    let q = crate::base::arith::quot(total, held);
    assert((q + 1) * held == q * held + held) by (nonlinear_arith);
}

/// A recorded sale takes the tokens off the outcome of the position, which has
/// as many, and their price off what was spent. Entry prices stay.
pub proof fn sales_leave_the_entry_price(
    s: PredictionState,
    id: u64,
    user: Address,
    i: u32,
    amount: i128,
    price: i128,
)
    requires
        s.wf(),
        amount > 0,
        fits(price * amount),
        fits(spent_of(s, id, user) - price * amount),
    ensures
        ({
            let r = record(s, id, user, i, false, amount, price);
            &&& r is Ok <==> amount <= position_of(s, id, user, i)
            &&& r is Err ==> r->Err_0 == PredictionError::InsufficientBalance
            &&& r is Ok ==> {
                let t = r->Ok_0;
                &&& position_of(t, id, user, i) == position_of(s, id, user, i) - amount
                &&& spent_of(t, id, user) == spent_of(s, id, user) - price * amount
                &&& forall|j: u32| #[trigger]
                    entry_of(t, id, user, j) == entry_of(s, id, user, j)
                &&& forall|j: u32|
                    j != i ==> #[trigger] position_of(t, id, user, j) == position_of(s, id, user, j)
            }
        }),
{
}

/// What is bought is in the position: the tokens, and their cost at the price
/// that was paid for each, rounded down. What is sold is taken off it.
pub proof fn trades_are_in_the_position(
    s: PredictionState,
    trader: Address,
    id: u64,
    i: u32,
    amount: i128,
    least: i128,
)
    requires
        s.wf(),
        0 <= position_of(s, id, trader, i) <= 1_000_000_000_000_000_000,
        0 <= entry_of(s, id, trader, i) <= 1_000_000_000_000_000_000,
        0 <= spent_of(s, id, trader) <= 1_000_000_000_000_000_000,
        amount <= 1_000_000_000_000_000_000,
    ensures
        outcome_bought(s, trader, id, i, amount, least) is Ok ==> ({
            let (t, swap) = outcome_bought(s, trader, id, i, amount, least)->Ok_0;
            &&& swap.outcome_amount <= 1_000_000_000_000_000_000 ==> {
                &&& position_of(t, id, trader, i) == position_of(s, id, trader, i)
                    + swap.outcome_amount
                &&& exists|price: int|
                    {
                        &&& #[trigger] is_quotient(
                            price,
                            amount as int,
                            swap.outcome_amount as int,
                        )
                        &&& spent_of(t, id, trader) == spent_of(s, id, trader) + price
                            * swap.outcome_amount
                    }
            }
        }),
        outcome_sold(s, trader, id, i, amount, least) is Ok ==> ({
            let t = outcome_sold(s, trader, id, i, amount, least)->Ok_0.0;
            &&& amount <= position_of(s, id, trader, i)
            &&& position_of(t, id, trader, i) == position_of(s, id, trader, i) - amount
        }),
{
    if outcome_bought(s, trader, id, i, amount, least) is Ok {
        let (t, swap) = outcome_bought(s, trader, id, i, amount, least)->Ok_0;
        let out = swap.outcome_amount as int;
        purchases_pay_the_fee_of_the_market(s, trader, id, i, amount, least);
        if out <= 1_000_000_000_000_000_000 {
            let price = crate::base::arith::quot(amount as int, out);
            lemma_quot_rest(amount as int, out);
            lemma_quot_bounds(amount as int, out);
            assert((price + 1) * out == price * out + out) by (nonlinear_arith);
            assert(is_quotient(price, amount as int, out));
            let e = entry_of(s, id, trader, i);
            let p = position_of(s, id, trader, i);
            assert(0 <= e * p <= 1_000_000_000_000_000_000_000_000_000_000_000_000)
                by (nonlinear_arith)
                requires
                    0 <= e <= 1_000_000_000_000_000_000,
                    0 <= p <= 1_000_000_000_000_000_000,
            ;
            purchases_average_the_entry_price(
                s,
                id,
                trader,
                i,
                swap.outcome_amount,
                price as i128,
            );
        }
    }
}

// ---------------------------------------------------------------------------
// Paying out
// ---------------------------------------------------------------------------

/// Winning tokens of a resolved market are redeemed one to one: as many as
/// the position has, and nothing for any other outcome. A position is settled
/// once nothing is left of it, and never pays again.
pub proof fn winning_tokens_are_redeemed(s: PredictionState, user: Address, id: u64, amount: i128)
    requires
        s.wf(),
        s.markets.contains_key(id),
    ensures
        ({
            let r = tokens_redeemed(s, user, id, amount);
            let m = s.markets[id];
            let w = m.resolved_outcome->Some_0;
            &&& r is Ok <==> {
                &&& m.status == MarketStatus::Resolved
                &&& m.resolved_outcome is Some
                &&& s.positions.contains_key((id, user))
                &&& !s.positions[(id, user)].settled
                &&& 0 < amount <= position_of(s, id, user, w)
            }
            &&& r is Ok ==> {
                let (t, paid) = r->Ok_0;
                let after = t.positions[(id, user)];
                &&& paid == amount
                &&& position_of(t, id, user, w) == position_of(s, id, user, w) - amount
                &&& forall|j: u32|
                    j != w ==> #[trigger] position_of(t, id, user, j) == position_of(s, id, user, j)
                &&& t.positions == s.positions.insert((id, user), after)
                &&& after.settled <==> forall|j: int|
                    0 <= j < after.outcome_amounts.len() ==> #[trigger] after.outcome_amounts[j]
                        <= 0
                &&& after.settled && fits(amount - after.total_spent) ==> after.pnl == Some(
                    (amount - after.total_spent) as i128,
                )
                &&& after.total_spent == s.positions[(id, user)].total_spent
                &&& t.pools == s.pools && t.markets == s.markets
            }
        }),
{
}

/// Settling a position of a market with a winner pays all its winning tokens
/// one to one and nothing for the others; what it made is what it pays less
/// what was spent on it.
pub proof fn settling_pays_all_winning_tokens(s: PredictionState, user: Address, id: u64)
    requires
        s.wf(),
        s.markets.contains_key(id),
    ensures
        ({
            let r = position_settled(s, user, id);
            let m = s.markets[id];
            let w = m.resolved_outcome->Some_0;
            &&& r is Ok <==> {
                &&& m.resolved_outcome is Some
                &&& s.positions.contains_key((id, user))
                &&& !s.positions[(id, user)].settled
            }
            &&& r is Ok ==> {
                let (t, paid) = r->Ok_0;
                let after = t.positions[(id, user)];
                let spent = s.positions[(id, user)].total_spent;
                &&& paid == position_of(s, id, user, w)
                &&& paid > 0 ==> position_of(t, id, user, w) == 0
                &&& forall|j: u32|
                    j != w ==> #[trigger] position_of(t, id, user, j) == position_of(s, id, user, j)
                &&& after.settled
                &&& fits(paid - spent) ==> after.pnl == Some((paid - spent) as i128)
                &&& t.positions == s.positions.insert((id, user), after)
                &&& t.pools == s.pools && t.markets == s.markets
            }
        }),
{
}

} // verus!
