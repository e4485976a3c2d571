//! Positions, redemption of winning tokens at one to one, and LP fees.

use vstd::prelude::*;

use crate::base::address::Address;
use crate::base::arith::{checked_quot, fits, lemma_quot_bounds, quot};
use crate::base::table::value_or;
use crate::base::vecs::repeat_vec;
use crate::prediction::cpmm::settle_products;
use crate::prediction::cpmm::update_all_k;
use crate::prediction::state::{PredictionEnv, PredictionState};
use crate::prediction::types::{
    LiquidityPool, LiquidityPoolView, Market, MarketStatus, MarketView, Position, PositionView,
    PredictionError,
};

verus! {

// ---------------------------------------------------------------------------
// Position management
// ---------------------------------------------------------------------------

/// Get a user's position in a market.
pub fn get_position(env: &PredictionEnv, market_id: u64, user: Address) -> (r: Option<Position>)
    ensures
        match r {
            Some(p) => env@.positions.contains_key((market_id, user)) && p@
                == env@.positions[(market_id, user)],
            None => !env@.positions.contains_key((market_id, user)),
        },
{
    match env.positions.get((market_id, user)) {
        Some(p) => Some(p.copy()),
        None => None,
    }
}

/// Save a user's position.
pub fn save_position(env: &mut PredictionEnv, position: Position)
    ensures
        final(env)@ == (PredictionState {
            positions: old(env)@.positions.insert(
                (position@.market_id, position@.user),
                position@,
            ),
            ..old(env)@
        }),
{
    env.positions.set((position.market_id, position.user), position);
    assert(env@ =~= (PredictionState {
        positions: old(env)@.positions.insert((position@.market_id, position@.user), position@),
        ..old(env)@
    }));
}

/// The position of a user who has not traded yet.
pub open spec fn opened_position(market_id: u64, user: Address) -> PositionView {
    PositionView {
        market_id,
        user,
        outcome_amounts: Seq::new(3, |i: int| 0i128),
        entry_prices: Seq::new(3, |i: int| 0i128),
        total_spent: 0,
        settled: false,
        pnl: None,
    }
}

/// A list that zeros make at least `n` long.
pub open spec fn padded(s: Seq<i128>, n: nat) -> Seq<i128> {
    Seq::new(
        if s.len() >= n {
            s.len()
        } else {
            n
        },
        |i: int|
            if i < s.len() {
                s[i]
            } else {
                0i128
            },
    )
}

/// What a trade makes of a position.
///
/// Buying adds the tokens, averages the entry price over all tokens held and
/// adds the cost; selling takes tokens and cost off again.
pub open spec fn traded(
    before: PositionView,
    outcome_index: u32,
    is_buy: bool,
    amount: i128,
    price: i128,
) -> Result<PositionView, PredictionError> {
    let i = outcome_index as int;
    let amounts = padded(before.outcome_amounts, (i + 1) as nat);
    let entries = padded(before.entry_prices, (i + 1) as nat);
    let cost = price * amount;
    if is_buy {
        let held = amounts[i] + amount;
        let total = entries[i] * amounts[i] + cost;
        if !fits(held) || !fits(entries[i] * amounts[i]) || !fits(cost) || !fits(total) || !fits(
            before.total_spent + cost,
        ) {
            Err(PredictionError::ArithmeticOverflow)
        } else {
            let entry: int = if held > 0 {
                quot(total, held)
            } else {
                0
            };
            Ok(
                PositionView {
                    outcome_amounts: amounts.update(i, held as i128),
                    entry_prices: entries.update(i, entry as i128),
                    total_spent: (before.total_spent + cost) as i128,
                    ..before
                },
            )
        }
    } else {
        let held = amounts[i] - amount;
        if held < 0 || !fits(held) {
            Err(PredictionError::InsufficientBalance)
        } else if !fits(cost) {
            Err(PredictionError::ArithmeticOverflow)
        } else {
            Ok(
                PositionView {
                    outcome_amounts: amounts.update(i, held as i128),
                    entry_prices: entries,
                    total_spent: if fits(before.total_spent - cost) {
                        (before.total_spent - cost) as i128
                    } else {
                        0
                    },
                    ..before
                },
            )
        }
    }
}

/// What recording a trade does to the state.
pub open spec fn record(
    s: PredictionState,
    market_id: u64,
    user: Address,
    outcome_index: u32,
    is_buy: bool,
    amount: i128,
    price: i128,
) -> Result<PredictionState, PredictionError> {
    let before = value_or(s.positions, (market_id, user), opened_position(market_id, user));
    match traded(before, outcome_index, is_buy, amount, price) {
        Err(e) => Err(e),
        Ok(p) => Ok(
            PredictionState { positions: s.positions.insert((market_id, user), p), ..s },
        ),
    }
}

fn pad(v: &mut Vec<i128>, n: usize)
    ensures
        final(v)@ == padded(old(v)@, n as nat),
{
    while v.len() < n
        invariant
            v@.len() >= old(v)@.len(),
            v@.len() <= n || v@.len() == old(v)@.len(),
            forall|i: int|
                0 <= i < v@.len() ==> #[trigger] v@[i] == (if i < old(v)@.len() {
                    old(v)@[i]
                } else {
                    0
                }),
        decreases n - v@.len(),
    {
        v.push(0);
    }
    assert(v@ =~= padded(old(v)@, n as nat));
}

fn trade_position(
    position: Position,
    outcome_index: u32,
    is_buy: bool,
    amount: i128,
    price: i128,
) -> (r: Result<Position, PredictionError>)
    requires
        position@.wf(),
        outcome_index < usize::MAX,
    ensures
        match traded(position@, outcome_index, is_buy, amount, price) {
            Ok(p) => r is Ok && r->Ok_0@ == p && p.wf(),
            Err(e) => r == Err::<Position, PredictionError>(e),
        },
{
    let mut p = position;
    let ghost before = p@;
    let i: usize = outcome_index as usize;
    pad(&mut p.outcome_amounts, i + 1);
    pad(&mut p.entry_prices, i + 1);
    let held: i128 = p.outcome_amounts[i];
    let entry: i128 = p.entry_prices[i];
    let ghost amounts = padded(before.outcome_amounts, (i + 1) as nat);
    let ghost entries = padded(before.entry_prices, (i + 1) as nat);
    if is_buy {
        let new_amount: i128 = match held.checked_add(amount) {
            Some(x) => x,
            None => return Err(PredictionError::ArithmeticOverflow),
        };
        let basis: i128 = match entry.checked_mul(held) {
            Some(x) => x,
            None => return Err(PredictionError::ArithmeticOverflow),
        };
        let cost: i128 = match price.checked_mul(amount) {
            Some(x) => x,
            None => return Err(PredictionError::ArithmeticOverflow),
        };
        let total: i128 = match basis.checked_add(cost) {
            Some(x) => x,
            None => return Err(PredictionError::ArithmeticOverflow),
        };
        let new_entry: i128 = if new_amount > 0 {
            proof {
                lemma_quot_bounds(total as int, new_amount as int);
            }
            match checked_quot(total, new_amount) {
                Some(x) => x,
                None => return Err(PredictionError::ArithmeticOverflow),
            }
        } else {
            0
        };
        let spent: i128 = match p.total_spent.checked_add(cost) {
            Some(x) => x,
            None => return Err(PredictionError::ArithmeticOverflow),
        };
        p.outcome_amounts.set(i, new_amount);
        p.entry_prices.set(i, new_entry);
        p.total_spent = spent;
    } else {
        if held < amount {
            return Err(PredictionError::InsufficientBalance);
        }
        let new_amount: i128 = match held.checked_sub(amount) {
            Some(x) => x,
            None => return Err(PredictionError::InsufficientBalance),
        };
        let cost: i128 = match price.checked_mul(amount) {
            Some(x) => x,
            None => return Err(PredictionError::ArithmeticOverflow),
        };
        p.outcome_amounts.set(i, new_amount);
        p.total_spent = match p.total_spent.checked_sub(cost) {
            Some(x) => x,
            None => 0,
        };
    }
    assert(p@ =~= traded(before, outcome_index, is_buy, amount, price)->Ok_0);
    Ok(p)
}

/// Record a trade in the user's position.
pub fn record_trade(
    env: &mut PredictionEnv,
    market_id: u64,
    user: Address,
    outcome_index: u32,
    is_buy: bool,
    amount: i128,
    price: i128,
) -> (r: Result<(), PredictionError>)
    requires
        old(env)@.wf(),
        outcome_index < usize::MAX,
    ensures
        match record(old(env)@, market_id, user, outcome_index, is_buy, amount, price) {
            Ok(s) => r is Ok && final(env)@ == s,
            Err(e) => r == Err::<(), PredictionError>(e) && final(env)@ == old(env)@,
        },
        final(env)@.wf(),
{
    let position: Position = match get_position(env, market_id, user) {
        Some(p) => p,
        None => {
            let p = Position {
                market_id,
                user,
                outcome_amounts: repeat_vec(0i128, 3),
                entry_prices: repeat_vec(0i128, 3),
                total_spent: 0,
                settled: false,
                pnl: None,
            };
            assert(p@ =~= opened_position(market_id, user));
            p
        },
    };
    match trade_position(position, outcome_index, is_buy, amount, price) {
        Err(e) => Err(e),
        Ok(p) => {
            save_position(env, p);
            Ok(())
        },
    }
}

// ---------------------------------------------------------------------------
// Settlement
// ---------------------------------------------------------------------------

/// The tokens of one outcome that a position holds.
pub open spec fn held_of(p: PositionView, outcome: u32) -> i128 {
    if outcome < p.outcome_amounts.len() {
        p.outcome_amounts[outcome as int]
    } else {
        0
    }
}

/// The profit or loss of a payout.
pub open spec fn profit(payout: i128, total_spent: i128) -> i128 {
    if fits(payout - total_spent) {
        (payout - total_spent) as i128
    } else {
        (-total_spent) as i128
    }
}

fn compute_profit(payout: i128, total_spent: i128) -> (r: i128)
    requires
        total_spent > i128::MIN,
    ensures
        r == profit(payout, total_spent),
{
    match payout.checked_sub(total_spent) {
        Some(x) => x,
        None => -total_spent,
    }
}

/// No outcome has tokens left.
pub open spec fn all_spent(amounts: Seq<i128>) -> bool {
    forall|i: int| 0 <= i < amounts.len() ==> #[trigger] amounts[i] <= 0
}

/// What redeeming winning tokens makes of a position.
pub open spec fn redeemed(p: PositionView, winner: u32, amount: i128) -> PositionView {
    let amounts = p.outcome_amounts.update(
        winner as int,
        (p.outcome_amounts[winner as int] - amount) as i128,
    );
    if all_spent(amounts) {
        PositionView {
            outcome_amounts: amounts,
            settled: true,
            pnl: Some(profit(amount, p.total_spent)),
            ..p
        }
    } else {
        PositionView { outcome_amounts: amounts, ..p }
    }
}

/// What redeeming does to the state; the payout is the amount itself.
pub open spec fn redeem(s: PredictionState, m: MarketView, user: Address, amount: i128) -> Result<
    PredictionState,
    PredictionError,
> {
    if m.status != MarketStatus::Resolved || m.resolved_outcome is None {
        Err(PredictionError::MarketNotResolved)
    } else if amount <= 0 {
        Err(PredictionError::InvalidOrderAmount)
    } else if !s.positions.contains_key((m.market_id, user)) {
        Err(PredictionError::InsufficientBalance)
    } else {
        let p = s.positions[(m.market_id, user)];
        let winner = m.resolved_outcome.unwrap();
        if p.settled {
            Err(PredictionError::MarketAlreadyResolved)
        } else if held_of(p, winner) < amount {
            Err(PredictionError::InsufficientBalance)
        } else {
            Ok(
                PredictionState {
                    positions: s.positions.insert((m.market_id, user), redeemed(p, winner, amount)),
                    ..s
                },
            )
        }
    }
}

/// A position whose cost can be turned into a loss.
pub open spec fn spent_is_negatable(s: PredictionState, market_id: u64, user: Address) -> bool {
    s.positions.contains_key((market_id, user)) ==> s.positions[(market_id, user)].total_spent
        > i128::MIN
}

fn none_left(amounts: &Vec<i128>) -> (b: bool)
    ensures
        b == all_spent(amounts@),
{
    let mut i: usize = 0;
    while i < amounts.len()
        invariant
            i <= amounts@.len(),
            forall|j: int| 0 <= j < i ==> #[trigger] amounts@[j] <= 0,
        decreases amounts@.len() - i,
    {
        if amounts[i] > 0 {
            return false;
        }
        i += 1;
    }
    true
}

/// Redeem winning outcome tokens for collateral.
///
/// After market resolution (and dispute resolution if applicable), holders
/// of the winning outcome token can redeem their tokens at a 1:1 rate
/// with collateral.
pub fn redeem_winning_tokens(
    env: &mut PredictionEnv,
    market: &Market,
    user: Address,
    amount: i128,
) -> (r: Result<i128, PredictionError>)
    requires
        old(env)@.wf(),
        spent_is_negatable(old(env)@, market@.market_id, user),
    ensures
        match redeem(old(env)@, market@, user, amount) {
            Ok(s) => r == Ok::<i128, PredictionError>(amount) && final(env)@ == s,
            Err(e) => r == Err::<i128, PredictionError>(e) && final(env)@ == old(env)@,
        },
        final(env)@.wf(),
{
    if market.status != MarketStatus::Resolved {
        return Err(PredictionError::MarketNotResolved);
    }
    let winner: u32 = match market.resolved_outcome {
        Some(x) => x,
        None => return Err(PredictionError::MarketNotResolved),
    };
    if amount <= 0 {
        return Err(PredictionError::InvalidOrderAmount);
    }
    let mut position: Position = match get_position(env, market.market_id, user) {
        Some(p) => p,
        None => return Err(PredictionError::InsufficientBalance),
    };
    if position.settled {
        return Err(PredictionError::MarketAlreadyResolved);
    }
    let ghost before = position@;
    let w: usize = winner as usize;
    let balance: i128 = if w < position.outcome_amounts.len() {
        position.outcome_amounts[w]
    } else {
        0
    };
    if balance < amount {
        return Err(PredictionError::InsufficientBalance);
    }
    position.outcome_amounts.set(w, balance - amount);
    if none_left(&position.outcome_amounts) {
        position.settled = true;
        position.pnl = Some(compute_profit(amount, position.total_spent));
    }
    assert(position@ =~= redeemed(before, winner, amount));
    save_position(env, position);
    Ok(amount)
}

/// What a position pays out: the winning tokens, one to one.
pub open spec fn payout_of(m: MarketView, p: PositionView) -> Result<i128, PredictionError> {
    match m.resolved_outcome {
        None => Err(PredictionError::MarketNotResolved),
        Some(w) => Ok(held_of(p, w)),
    }
}

/// Calculate the total payout for a user if they redeem all their winning tokens.
pub fn calculate_payout(market: &Market, position: &Position) -> (r: Result<i128, PredictionError>)
    ensures
        r == payout_of(market@, position@),
{
    match market.resolved_outcome {
        None => Err(PredictionError::MarketNotResolved),
        Some(w) => {
            let i: usize = w as usize;
            if i < position.outcome_amounts.len() {
                Ok(position.outcome_amounts[i])
            } else {
                Ok(0)
            }
        },
    }
}

/// What settling makes of a position.
pub open spec fn settled(p: PositionView, winner: u32, payout: i128) -> PositionView {
    PositionView {
        outcome_amounts: if payout > 0 {
            p.outcome_amounts.update(winner as int, 0)
        } else {
            p.outcome_amounts
        },
        settled: true,
        pnl: Some(profit(payout, p.total_spent)),
        ..p
    }
}

/// What settling does to the state and pays out.
pub open spec fn settle(s: PredictionState, m: MarketView, user: Address) -> Result<
    (PredictionState, i128),
    PredictionError,
> {
    if !s.positions.contains_key((m.market_id, user)) {
        Err(PredictionError::InsufficientBalance)
    } else {
        let p = s.positions[(m.market_id, user)];
        if p.settled {
            Err(PredictionError::MarketAlreadyResolved)
        } else {
            match payout_of(m, p) {
                Err(e) => Err(e),
                Ok(payout) => Ok(
                    (
                        PredictionState {
                            positions: s.positions.insert(
                                (m.market_id, user),
                                settled(p, m.resolved_outcome.unwrap(), payout),
                            ),
                            ..s
                        },
                        payout,
                    ),
                ),
            }
        }
    }
}

/// Settle a user's entire position (redeem all winning tokens at once).
pub fn settle_position(env: &mut PredictionEnv, market: &Market, user: Address) -> (r: Result<
    i128,
    PredictionError,
>)
    requires
        old(env)@.wf(),
        spent_is_negatable(old(env)@, market@.market_id, user),
    ensures
        match settle(old(env)@, market@, user) {
            Ok((s, payout)) => r == Ok::<i128, PredictionError>(payout) && final(env)@ == s,
            Err(e) => r == Err::<i128, PredictionError>(e) && final(env)@ == old(env)@,
        },
        final(env)@.wf(),
{
    let mut position: Position = match get_position(env, market.market_id, user) {
        Some(p) => p,
        None => return Err(PredictionError::InsufficientBalance),
    };
    if position.settled {
        return Err(PredictionError::MarketAlreadyResolved);
    }
    let ghost before = position@;
    let winner: u32 = match market.resolved_outcome {
        Some(x) => x,
        None => return Err(PredictionError::MarketNotResolved),
    };
    let payout: i128 = match calculate_payout(market, &position) {
        Ok(x) => x,
        Err(e) => return Err(e),
    };
    if payout > 0 {
        position.outcome_amounts.set(winner as usize, 0);
    }
    position.pnl = Some(compute_profit(payout, position.total_spent));
    position.settled = true;
    assert(position@ =~= settled(before, winner, payout));
    save_position(env, position);
    Ok(payout)
}

/// The positions of those of the first `n` users who have one, in order.
pub open spec fn positions_of(
    s: PredictionState,
    market_id: u64,
    users: Seq<Address>,
    n: int,
) -> Seq<PositionView>
    decreases n,
{
    if n <= 0 {
        Seq::empty()
    } else {
        let rest = positions_of(s, market_id, users, n - 1);
        if s.positions.contains_key((market_id, users[n - 1])) {
            rest.push(s.positions[(market_id, users[n - 1])])
        } else {
            rest
        }
    }
}

/// Get the positions of the given users in a market.
pub fn get_market_positions(env: &PredictionEnv, market_id: u64, users: &Vec<Address>) -> (r: Vec<
    Position,
>)
    ensures
        r@.map_values(|p: Position| p@) == positions_of(
            env@,
            market_id,
            users@,
            users@.len() as int,
        ),
{
    let mut found: Vec<Position> = Vec::new();
    let mut i: usize = 0;
    assert(found@.map_values(|p: Position| p@) =~= Seq::empty());
    while i < users.len()
        invariant
            i <= users@.len(),
            found@.map_values(|p: Position| p@) == positions_of(env@, market_id, users@, i as int),
        decreases users@.len() - i,
    {
        let ghost so_far = found@;
        match get_position(env, market_id, users[i]) {
            Some(p) => {
                found.push(p);
                proof {
                    assert(found@.map_values(|p: Position| p@) =~= so_far.map_values(
                        |p: Position| p@,
                    ).push(p@));
                }
            },
            None => {},
        }
        i += 1;
    }
    found
}

// ---------------------------------------------------------------------------
// Liquidity pool settlement
// ---------------------------------------------------------------------------

/// What distributing fees does to a pool and how much it moves: accumulated
/// fees go into the collateral reserve, which LP tokens stand for.
pub open spec fn distribute(p: LiquidityPoolView) -> Result<
    (LiquidityPoolView, i128),
    PredictionError,
> {
    let fees = p.fees_accumulated;
    if fees <= 0 {
        Ok((p, 0))
    } else if !fits(p.collateral_reserve + fees) {
        Err(PredictionError::ArithmeticOverflow)
    } else {
        match settle_products(
            LiquidityPoolView {
                collateral_reserve: (p.collateral_reserve + fees) as i128,
                fees_accumulated: 0,
                ..p
            },
        ) {
            Err(e) => Err(e),
            Ok(q) => Ok((q, fees)),
        }
    }
}

/// Distribute accumulated fees to LP token holders proportionally.
pub fn distribute_lp_fees(pool: &mut LiquidityPool) -> (r: Result<i128, PredictionError>)
    requires
        old(pool)@.wf(),
    ensures
        match distribute(old(pool)@) {
            Ok((p, fees)) => r == Ok::<i128, PredictionError>(fees) && final(pool)@ == p,
            Err(e) => r == Err::<i128, PredictionError>(e) && final(pool)@ == old(pool)@,
        },
        final(pool)@.wf(),
{
    let fees: i128 = pool.fees_accumulated;
    if fees <= 0 {
        return Ok(0);
    }
    let collateral: i128 = match pool.collateral_reserve.checked_add(fees) {
        Some(x) => x,
        None => return Err(PredictionError::ArithmeticOverflow),
    };
    let mut moved = pool.copy();
    moved.collateral_reserve = collateral;
    moved.fees_accumulated = 0;
    match update_all_k(&mut moved) {
        Err(e) => Err(e),
        Ok(()) => {
            *pool = moved;
            Ok(fees)
        },
    }
}

} // verus!
