//! Constant product market maker for outcome tokens.
//!
//! For each outcome `i` the pool keeps `k_i = collateral_reserve * outcome_reserve_i`.
//! All outcomes share the collateral reserve and have token reserves of their own.

use vstd::prelude::*;

use crate::base::arith::{checked_mul_div, checked_quot, fits, lemma_quot_bounds, mul_div_fits, quot};
use crate::base::vecs::repeat_vec;
use crate::prediction::state::{PredictionEnv, PredictionState};
use crate::prediction::types::{
    LPResult, LPResultView, LiquidityPool, LiquidityPoolView, PredictionError, SwapResult,
    DECIMAL_PRECISION, MIN_LIQUIDITY,
};

verus! {

impl LiquidityPoolView {
    /// The pool has one product for each outcome.
    pub open spec fn wf(self) -> bool {
        &&& self.k_per_outcome.len() == self.outcome_reserves.len()
        &&& self.outcome_reserves.len() <= u32::MAX
    }

    /// Every product of collateral and outcome reserve is an `i128`.
    pub open spec fn products_fit(self) -> bool {
        forall|i: int|
            0 <= i < self.outcome_reserves.len() ==> fits(
                self.collateral_reserve * #[trigger] self.outcome_reserves[i],
            )
    }

    /// The pool with its products computed anew.
    pub open spec fn with_products(self) -> LiquidityPoolView {
        LiquidityPoolView {
            k_per_outcome: Seq::new(
                self.outcome_reserves.len(),
                |i: int| (self.collateral_reserve * self.outcome_reserves[i]) as i128,
            ),
            ..self
        }
    }

    /// Each product is that of the reserves.
    pub open spec fn products_hold(self) -> bool {
        forall|i: int|
            0 <= i < self.outcome_reserves.len() ==> self.k_per_outcome[i]
                == self.collateral_reserve * #[trigger] self.outcome_reserves[i]
    }
}

/// The pool with products computed anew, or an overflow.
pub open spec fn settle_products(p: LiquidityPoolView) -> Result<LiquidityPoolView, PredictionError> {
    if p.products_fit() {
        Ok(p.with_products())
    } else {
        Err(PredictionError::ArithmeticOverflow)
    }
}

/// Computes the products of a pool after its reserves have changed.
pub(crate) fn update_all_k(pool: &mut LiquidityPool) -> (r: Result<(), PredictionError>)
    requires
        old(pool)@.wf(),
    ensures
        match settle_products(old(pool)@) {
            Ok(p) => r is Ok && final(pool)@ == p,
            Err(e) => r == Err::<(), PredictionError>(e) && final(pool)@ == old(pool)@,
        },
        final(pool)@.wf(),
{
    let n: usize = pool.outcome_reserves.len();
    let mut ks: Vec<i128> = Vec::new();
    let mut i: usize = 0;
    while i < n
        invariant
            i <= n == pool@.outcome_reserves.len(),
            ks@.len() == i,
            *pool == *old(pool),
            pool@.wf(),
            forall|j: int|
                0 <= j < i ==> fits(pool@.collateral_reserve * #[trigger] pool@.outcome_reserves[j])
                    && ks@[j] == pool@.collateral_reserve * pool@.outcome_reserves[j],
        decreases n - i,
    {
        match pool.collateral_reserve.checked_mul(pool.outcome_reserves[i]) {
            Some(k) => {
                ks.push(k);
            },
            None => {
                assert(!fits(pool@.collateral_reserve * pool@.outcome_reserves[i as int]));
                return Err(PredictionError::ArithmeticOverflow);
            },
        }
        i += 1;
    }
    pool.k_per_outcome = ks;
    assert(pool@ =~= old(pool)@.with_products());
    Ok(())
}

// ---------------------------------------------------------------------------
// Pool lifecycle
// ---------------------------------------------------------------------------

/// The pool that seed liquidity opens: every outcome starts with a reserve
/// equal to the collateral, so that all outcomes are priced alike.
pub open spec fn opened_pool(market_id: u64, num_outcomes: nat, seed: i128) -> LiquidityPoolView {
    LiquidityPoolView {
        market_id,
        collateral_reserve: seed,
        outcome_reserves: Seq::new(num_outcomes, |i: int| seed),
        lp_supply: seed,
        k_per_outcome: Seq::new(num_outcomes, |i: int| (seed * seed) as i128),
        fees_accumulated: 0,
        total_volume: 0,
    }
}

/// What opening a pool gives.
pub open spec fn open_pool(market_id: u64, num_outcomes: nat, seed: i128) -> Result<
    LiquidityPoolView,
    PredictionError,
> {
    if seed < MIN_LIQUIDITY {
        Err(PredictionError::InsufficientLiquidity)
    } else if num_outcomes > 0 && !fits(seed * seed) {
        Err(PredictionError::ArithmeticOverflow)
    } else {
        Ok(opened_pool(market_id, num_outcomes, seed))
    }
}

/// Builds the pool that seed liquidity opens.
pub fn new_pool(market_id: u64, num_outcomes: u32, initial_collateral: i128) -> (r: Result<
    LiquidityPool,
    PredictionError,
>)
    ensures
        match open_pool(market_id, num_outcomes as nat, initial_collateral) {
            Ok(p) => r is Ok && r->Ok_0@ == p && p.wf(),
            Err(e) => r == Err::<LiquidityPool, PredictionError>(e),
        },
{
    if initial_collateral < MIN_LIQUIDITY {
        return Err(PredictionError::InsufficientLiquidity);
    }
    let n: usize = num_outcomes as usize;
    let k: i128 = match initial_collateral.checked_mul(initial_collateral) {
        Some(k) => k,
        None => {
            if n > 0 {
                return Err(PredictionError::ArithmeticOverflow);
            }
            0
        },
    };
    let pool = LiquidityPool {
        market_id,
        collateral_reserve: initial_collateral,
        outcome_reserves: repeat_vec(initial_collateral, n),
        lp_supply: initial_collateral,
        k_per_outcome: repeat_vec(k, n),
        fees_accumulated: 0,
        total_volume: 0,
    };
    assert(pool@ =~= opened_pool(market_id, num_outcomes as nat, initial_collateral));
    Ok(pool)
}

/// Create a new liquidity pool for a market.
///
/// `initial_collateral` is the seed liquidity provided by the market creator.
/// Outcome token reserves are initialized proportionally.
pub fn create_pool(
    env: &mut PredictionEnv,
    market_id: u64,
    num_outcomes: u32,
    initial_collateral: i128,
) -> (r: Result<LiquidityPool, PredictionError>)
    ensures
        match open_pool(market_id, num_outcomes as nat, initial_collateral) {
            Ok(p) => r is Ok && r->Ok_0@ == p && final(env)@ == (PredictionState {
                pools: old(env)@.pools.insert(market_id, p),
                ..old(env)@
            }),
            Err(e) => r == Err::<LiquidityPool, PredictionError>(e) && final(env)@ == old(env)@,
        },
{
    match new_pool(market_id, num_outcomes, initial_collateral) {
        Err(e) => Err(e),
        Ok(pool) => {
            save_pool(env, pool.copy());
            Ok(pool)
        },
    }
}

/// Load a pool.
pub fn load_pool(env: &PredictionEnv, market_id: u64) -> (r: Result<LiquidityPool, PredictionError>)
    ensures
        match r {
            Ok(p) => env@.pools.contains_key(market_id) && p@ == env@.pools[market_id],
            Err(e) => !env@.pools.contains_key(market_id) && e == PredictionError::NoLiquidityPool,
        },
{
    match env.pools.get(market_id) {
        Some(p) => Ok(p.copy()),
        None => Err(PredictionError::NoLiquidityPool),
    }
}

/// Save a pool.
pub fn save_pool(env: &mut PredictionEnv, pool: LiquidityPool)
    ensures
        final(env)@ == (PredictionState {
            pools: old(env)@.pools.insert(pool@.market_id, pool@),
            ..old(env)@
        }),
{
    env.pools.set(pool.market_id, pool);
    assert(env@ =~= (PredictionState {
        pools: old(env)@.pools.insert(pool@.market_id, pool@),
        ..old(env)@
    }));
}

// ---------------------------------------------------------------------------
// Pricing
// ---------------------------------------------------------------------------

/// The price of an outcome, scaled by `DECIMAL_PRECISION`:
/// collateral reserve over outcome reserve.
pub open spec fn outcome_price(p: LiquidityPoolView, i: int) -> Result<i128, PredictionError> {
    if !(0 <= i < p.outcome_reserves.len()) {
        Err(PredictionError::InvalidOutcomeIndex)
    } else if p.outcome_reserves[i] <= 0 || !fits(p.collateral_reserve * DECIMAL_PRECISION) {
        Err(PredictionError::ArithmeticOverflow)
    } else {
        Ok(
            quot(
                p.collateral_reserve * DECIMAL_PRECISION,
                p.outcome_reserves[i] as int,
            ) as i128,
        )
    }
}

/// Get the current price for a specific outcome.
///
/// price_i = collateral_reserve / outcome_reserve_i, scaled by DECIMAL_PRECISION.
pub fn get_outcome_price(pool: &LiquidityPool, outcome_index: u32) -> (r: Result<
    i128,
    PredictionError,
>)
    ensures
        r == outcome_price(pool@, outcome_index as int),
{
    let i: usize = outcome_index as usize;
    if i >= pool.outcome_reserves.len() {
        return Err(PredictionError::InvalidOutcomeIndex);
    }
    let reserve: i128 = pool.outcome_reserves[i];
    if reserve <= 0 {
        return Err(PredictionError::ArithmeticOverflow);
    }
    match pool.collateral_reserve.checked_mul(DECIMAL_PRECISION) {
        None => Err(PredictionError::ArithmeticOverflow),
        Some(scaled) => {
            proof {
                lemma_quot_bounds(scaled as int, reserve as int);
            }
            match checked_quot(scaled, reserve) {
                None => Err(PredictionError::ArithmeticOverflow),
                Some(price) => Ok(price),
            }
        },
    }
}

/// The error of the first outcome that has no price.
pub open spec fn first_price_error(p: LiquidityPoolView, upto: int) -> Option<PredictionError>
    decreases upto,
{
    if upto <= 0 {
        None
    } else {
        match first_price_error(p, upto - 1) {
            Some(e) => Some(e),
            None => match outcome_price(p, upto - 1) {
                Ok(_) => None,
                Err(e) => Some(e),
            },
        }
    }
}

/// The prices of the first outcomes.
pub open spec fn price_list(p: LiquidityPoolView, upto: nat) -> Seq<i128> {
    Seq::new(upto, |i: int| outcome_price(p, i)->Ok_0)
}

/// Get prices for all outcomes.
pub fn get_all_outcome_prices(pool: &LiquidityPool) -> (r: Result<Vec<i128>, PredictionError>)
    requires
        pool@.wf(),
    ensures
        match first_price_error(pool@, pool@.outcome_reserves.len() as int) {
            Some(e) => r is Err && r->Err_0 == e,
            None => r is Ok && r->Ok_0@ == price_list(pool@, pool@.outcome_reserves.len()),
        },
{
    let mut prices: Vec<i128> = Vec::new();
    let n: usize = pool.outcome_reserves.len();
    let mut i: usize = 0;
    while i < n
        invariant
            i <= n == pool@.outcome_reserves.len(),
            n <= u32::MAX,
            first_price_error(pool@, i as int) is None,
            prices@ == price_list(pool@, i as nat),
        decreases n - i,
    {
        match get_outcome_price(pool, i as u32) {
            Ok(price) => {
                prices.push(price);
                assert(prices@ =~= price_list(pool@, (i + 1) as nat));
            },
            Err(e) => {
                proof {
                    lemma_first_error_stays(pool@, i + 1, n as int);
                }
                return Err(e);
            },
        }
        i += 1;
    }
    Ok(prices)
}

proof fn lemma_first_error_stays(p: LiquidityPoolView, a: int, b: int)
    requires
        0 <= a <= b,
        first_price_error(p, a) is Some,
    ensures
        first_price_error(p, b) == first_price_error(p, a),
    decreases b - a,
{
    if a < b {
        lemma_first_error_stays(p, a, b - 1);
    }
}

// ---------------------------------------------------------------------------
// Trading
// ---------------------------------------------------------------------------

/// How much of `base` a move by `delta` is, in basis points; nothing of an
/// empty base.
pub open spec fn impact_bps(delta: int, base: int) -> int {
    if base > 0 {
        quot(delta * 10_000, base)
    } else {
        0
    }
}

/// Computes a price impact, or `None` on overflow.
fn price_impact(delta: i128, base: i128) -> (r: Option<i128>)
    ensures
        match r {
            Some(x) => x == impact_bps(delta as int, base as int) && (base > 0 ==> fits(
                delta * 10_000,
            )),
            None => base > 0 && !fits(delta * 10_000),
        },
{
    if base > 0 {
        proof {
            lemma_quot_bounds(delta * 10_000, base as int);
        }
        checked_mul_div(delta, 10_000, base)
    } else {
        Some(0)
    }
}

/// What buying outcome tokens does to a pool and gives the buyer.
///
/// The fee is taken off the collateral; the rest goes into the collateral
/// reserve, and the outcome reserve shrinks to the product over the new
/// collateral. Then the products follow the reserves.
pub open spec fn buy(
    p: LiquidityPoolView,
    i: int,
    collateral_in: i128,
    fee_bps: i128,
    min_outcome_tokens: i128,
) -> Result<(LiquidityPoolView, SwapResult), PredictionError> {
    if collateral_in <= 0 {
        Err(PredictionError::InvalidOrderAmount)
    } else if !(0 <= i < p.k_per_outcome.len()) {
        Err(PredictionError::InvalidOutcomeIndex)
    } else {
        let fee = quot(collateral_in * fee_bps, 10_000);
        let net = collateral_in - fee;
        let collateral = p.collateral_reserve + net;
        let reserve = quot(p.k_per_outcome[i] as int, collateral);
        let out = p.outcome_reserves[i] - reserve;
        if !fits(collateral_in * fee_bps) || !fits(net) || !fits(collateral) || collateral == 0
            || !fits(reserve) || !fits(out) {
            Err(PredictionError::ArithmeticOverflow)
        } else if out < min_outcome_tokens {
            Err(PredictionError::SlippageExceeded)
        } else if out <= 0 {
            Err(PredictionError::InsufficientLiquidity)
        } else if (p.collateral_reserve > 0 && !fits(net * 10_000)) || !fits(
            p.fees_accumulated + fee,
        ) || !fits(p.total_volume + collateral_in) {
            Err(PredictionError::ArithmeticOverflow)
        } else {
            let moved = LiquidityPoolView {
                collateral_reserve: collateral as i128,
                outcome_reserves: p.outcome_reserves.update(i, reserve as i128),
                fees_accumulated: (p.fees_accumulated + fee) as i128,
                total_volume: (p.total_volume + collateral_in) as i128,
                ..p
            };
            match settle_products(moved) {
                Err(e) => Err(e),
                Ok(q) => Ok(
                    (
                        q,
                        SwapResult {
                            outcome_amount: out as i128,
                            collateral_amount: collateral_in,
                            fee: fee as i128,
                            price_impact_bps: impact_bps(net, p.collateral_reserve as int) as i128,
                        },
                    ),
                ),
            }
        }
    }
}

/// Buy outcome tokens using collateral.
pub fn buy_outcome_tokens(
    pool: &mut LiquidityPool,
    outcome_index: u32,
    collateral_in: i128,
    fee_bps: i128,
    min_outcome_tokens: i128,
) -> (r: Result<SwapResult, PredictionError>)
    requires
        old(pool)@.wf(),
    ensures
        match buy(
            old(pool)@,
            outcome_index as int,
            collateral_in,
            fee_bps,
            min_outcome_tokens,
        ) {
            Ok((p, swap)) => r == Ok::<SwapResult, PredictionError>(swap) && final(pool)@ == p,
            Err(e) => r == Err::<SwapResult, PredictionError>(e) && final(pool)@ == old(pool)@,
        },
        final(pool)@.wf(),
{
    if collateral_in <= 0 {
        return Err(PredictionError::InvalidOrderAmount);
    }
    let i: usize = outcome_index as usize;
    if i >= pool.k_per_outcome.len() {
        return Err(PredictionError::InvalidOutcomeIndex);
    }
    proof {
        lemma_quot_bounds(collateral_in * fee_bps, 10_000);
    }
    let fee: i128 = match checked_mul_div(collateral_in, fee_bps, 10_000) {
        Some(x) => x,
        None => return Err(PredictionError::ArithmeticOverflow),
    };
    let net: i128 = match collateral_in.checked_sub(fee) {
        Some(x) => x,
        None => return Err(PredictionError::ArithmeticOverflow),
    };
    let collateral: i128 = match pool.collateral_reserve.checked_add(net) {
        Some(x) => x,
        None => return Err(PredictionError::ArithmeticOverflow),
    };
    let reserve: i128 = match checked_quot(pool.k_per_outcome[i], collateral) {
        Some(x) => x,
        None => return Err(PredictionError::ArithmeticOverflow),
    };
    let out: i128 = match pool.outcome_reserves[i].checked_sub(reserve) {
        Some(x) => x,
        None => return Err(PredictionError::ArithmeticOverflow),
    };
    if out < min_outcome_tokens {
        return Err(PredictionError::SlippageExceeded);
    }
    if out <= 0 {
        return Err(PredictionError::InsufficientLiquidity);
    }
    let impact: i128 = match price_impact(net, pool.collateral_reserve) {
        Some(x) => x,
        None => return Err(PredictionError::ArithmeticOverflow),
    };
    let fees: i128 = match pool.fees_accumulated.checked_add(fee) {
        Some(x) => x,
        None => return Err(PredictionError::ArithmeticOverflow),
    };
    let volume: i128 = match pool.total_volume.checked_add(collateral_in) {
        Some(x) => x,
        None => return Err(PredictionError::ArithmeticOverflow),
    };
    let mut moved = pool.copy();
    moved.collateral_reserve = collateral;
    moved.outcome_reserves.set(i, reserve);
    moved.fees_accumulated = fees;
    moved.total_volume = volume;
    match update_all_k(&mut moved) {
        Err(e) => Err(e),
        Ok(()) => {
            *pool = moved;
            Ok(
                SwapResult {
                    outcome_amount: out,
                    collateral_amount: collateral_in,
                    fee,
                    price_impact_bps: impact,
                },
            )
        },
    }
}

/// What selling outcome tokens does to a pool and gives the seller.
///
/// The tokens go into the outcome reserve, the collateral reserve shrinks to
/// the product over the new outcome reserve, and the fee is taken off what
/// comes out. Then the products follow the reserves.
pub open spec fn sell(
    p: LiquidityPoolView,
    i: int,
    outcome_tokens_in: i128,
    fee_bps: i128,
    min_collateral: i128,
) -> Result<(LiquidityPoolView, SwapResult), PredictionError> {
    if outcome_tokens_in <= 0 {
        Err(PredictionError::InvalidOrderAmount)
    } else if !(0 <= i < p.k_per_outcome.len()) {
        Err(PredictionError::InvalidOutcomeIndex)
    } else {
        let reserve = p.outcome_reserves[i] + outcome_tokens_in;
        let collateral = quot(p.k_per_outcome[i] as int, reserve);
        let gross = p.collateral_reserve - collateral;
        let fee = quot(gross * fee_bps, 10_000);
        let out = gross - fee;
        if !fits(reserve) || reserve == 0 || !fits(collateral) || !fits(gross) || !fits(
            gross * fee_bps,
        ) || !fits(out) {
            Err(PredictionError::ArithmeticOverflow)
        } else if out < min_collateral {
            Err(PredictionError::SlippageExceeded)
        } else if out <= 0 {
            Err(PredictionError::InsufficientLiquidity)
        } else if (p.collateral_reserve > 0 && !fits(gross * 10_000)) || !fits(
            p.fees_accumulated + fee,
        ) || !fits(p.total_volume + outcome_tokens_in) {
            Err(PredictionError::ArithmeticOverflow)
        } else {
            let moved = LiquidityPoolView {
                collateral_reserve: collateral as i128,
                outcome_reserves: p.outcome_reserves.update(i, reserve as i128),
                fees_accumulated: (p.fees_accumulated + fee) as i128,
                total_volume: (p.total_volume + outcome_tokens_in) as i128,
                ..p
            };
            match settle_products(moved) {
                Err(e) => Err(e),
                Ok(q) => Ok(
                    (
                        q,
                        SwapResult {
                            outcome_amount: outcome_tokens_in,
                            collateral_amount: out as i128,
                            fee: fee as i128,
                            price_impact_bps: impact_bps(gross, p.collateral_reserve as int) as i128,
                        },
                    ),
                ),
            }
        }
    }
}

/// Sell outcome tokens for collateral.
pub fn sell_outcome_tokens(
    pool: &mut LiquidityPool,
    outcome_index: u32,
    outcome_tokens_in: i128,
    fee_bps: i128,
    min_collateral: i128,
) -> (r: Result<SwapResult, PredictionError>)
    requires
        old(pool)@.wf(),
    ensures
        match sell(
            old(pool)@,
            outcome_index as int,
            outcome_tokens_in,
            fee_bps,
            min_collateral,
        ) {
            Ok((p, swap)) => r == Ok::<SwapResult, PredictionError>(swap) && final(pool)@ == p,
            Err(e) => r == Err::<SwapResult, PredictionError>(e) && final(pool)@ == old(pool)@,
        },
        final(pool)@.wf(),
{
    if outcome_tokens_in <= 0 {
        return Err(PredictionError::InvalidOrderAmount);
    }
    let i: usize = outcome_index as usize;
    if i >= pool.k_per_outcome.len() {
        return Err(PredictionError::InvalidOutcomeIndex);
    }
    let reserve: i128 = match pool.outcome_reserves[i].checked_add(outcome_tokens_in) {
        Some(x) => x,
        None => return Err(PredictionError::ArithmeticOverflow),
    };
    let collateral: i128 = match checked_quot(pool.k_per_outcome[i], reserve) {
        Some(x) => x,
        None => return Err(PredictionError::ArithmeticOverflow),
    };
    let gross: i128 = match pool.collateral_reserve.checked_sub(collateral) {
        Some(x) => x,
        None => return Err(PredictionError::ArithmeticOverflow),
    };
    proof {
        lemma_quot_bounds(gross * fee_bps, 10_000);
    }
    let fee: i128 = match checked_mul_div(gross, fee_bps, 10_000) {
        Some(x) => x,
        None => return Err(PredictionError::ArithmeticOverflow),
    };
    let out: i128 = match gross.checked_sub(fee) {
        Some(x) => x,
        None => return Err(PredictionError::ArithmeticOverflow),
    };
    if out < min_collateral {
        return Err(PredictionError::SlippageExceeded);
    }
    if out <= 0 {
        return Err(PredictionError::InsufficientLiquidity);
    }
    let impact: i128 = match price_impact(gross, pool.collateral_reserve) {
        Some(x) => x,
        None => return Err(PredictionError::ArithmeticOverflow),
    };
    let fees: i128 = match pool.fees_accumulated.checked_add(fee) {
        Some(x) => x,
        None => return Err(PredictionError::ArithmeticOverflow),
    };
    let volume: i128 = match pool.total_volume.checked_add(outcome_tokens_in) {
        Some(x) => x,
        None => return Err(PredictionError::ArithmeticOverflow),
    };
    let mut moved = pool.copy();
    moved.collateral_reserve = collateral;
    moved.outcome_reserves.set(i, reserve);
    moved.fees_accumulated = fees;
    moved.total_volume = volume;
    match update_all_k(&mut moved) {
        Err(e) => Err(e),
        Ok(()) => {
            *pool = moved;
            Ok(
                SwapResult {
                    outcome_amount: outcome_tokens_in,
                    collateral_amount: out,
                    fee,
                    price_impact_bps: impact,
                },
            )
        },
    }
}

// ---------------------------------------------------------------------------
// Liquidity provision
// ---------------------------------------------------------------------------

/// The larger of a collateral reserve and one unit.
pub open spec fn at_least_one(x: int) -> int {
    if x >= 1 {
        x
    } else {
        1
    }
}

/// The part of a reserve that a deposit of `amount` calls for.
pub open spec fn deposit_share(reserve: int, amount: int, collateral: int) -> int {
    quot(reserve * amount, at_least_one(collateral))
}

/// The error of the first outcome whose opening deposit is refused.
pub open spec fn first_deposit_error(
    reserves: Seq<i128>,
    amounts: Seq<i128>,
    upto: int,
) -> Option<PredictionError>
    decreases upto,
{
    if upto <= 0 {
        None
    } else {
        match first_deposit_error(reserves, amounts, upto - 1) {
            Some(e) => Some(e),
            None => if amounts[upto - 1] <= 0 {
                Some(PredictionError::InvalidOrderAmount)
            } else if !fits(reserves[upto - 1] + amounts[upto - 1]) {
                Some(PredictionError::ArithmeticOverflow)
            } else {
                None
            },
        }
    }
}

/// What the first deposit into a pool without LP tokens does: it sets the ratio.
pub open spec fn provide_first(
    p: LiquidityPoolView,
    amount: i128,
    outcome_amounts: Seq<i128>,
) -> Result<(LiquidityPoolView, LPResultView), PredictionError> {
    match first_deposit_error(
        p.outcome_reserves,
        outcome_amounts,
        p.outcome_reserves.len() as int,
    ) {
        Some(e) => Err(e),
        None => if !fits(p.collateral_reserve + amount) {
            Err(PredictionError::ArithmeticOverflow)
        } else {
            let moved = LiquidityPoolView {
                collateral_reserve: (p.collateral_reserve + amount) as i128,
                outcome_reserves: Seq::new(
                    p.outcome_reserves.len(),
                    |i: int| (p.outcome_reserves[i] + outcome_amounts[i]) as i128,
                ),
                lp_supply: amount,
                ..p
            };
            match settle_products(moved) {
                Err(e) => Err(e),
                Ok(q) => Ok(
                    (
                        q,
                        LPResultView {
                            lp_tokens_minted: amount,
                            collateral_deposited: amount,
                            outcome_deposits: outcome_amounts,
                        },
                    ),
                ),
            }
        },
    }
}

/// The tokens of each outcome that a later deposit brings in.
pub open spec fn outcome_shares(p: LiquidityPoolView, amount: int) -> Seq<i128> {
    Seq::new(
        p.outcome_reserves.len(),
        |i: int|
            deposit_share(
                p.outcome_reserves[i] as int,
                amount,
                p.collateral_reserve as int,
            ) as i128,
    )
}

/// Every step of a later deposit stays within `i128`.
pub open spec fn provide_more_fits(p: LiquidityPoolView, amount: int) -> bool {
    let c = p.collateral_reserve as int;
    &&& mul_div_fits(amount, p.lp_supply as int, c)
    &&& forall|i: int|
        0 <= i < p.outcome_reserves.len() ==> share_fits(
            #[trigger] p.outcome_reserves[i] as int,
            amount,
            c,
        )
    &&& fits(c + amount)
    &&& fits(p.lp_supply + quot(amount * p.lp_supply, c))
}

/// One outcome's share of a later deposit stays within `i128`.
pub open spec fn share_fits(reserve: int, amount: int, collateral: int) -> bool {
    &&& mul_div_fits(reserve, amount, at_least_one(collateral))
    &&& fits(reserve + deposit_share(reserve, amount, collateral))
}

/// What a deposit into a pool that has LP tokens does: the collateral given
/// comes in, each outcome reserve grows in proportion, and LP tokens are minted
/// in proportion to the collateral.
pub open spec fn provide_more(p: LiquidityPoolView, amount: i128) -> Result<
    (LiquidityPoolView, LPResultView),
    PredictionError,
> {
    if !provide_more_fits(p, amount as int) {
        Err(PredictionError::ArithmeticOverflow)
    } else {
        let shares = outcome_shares(p, amount as int);
        let minted = quot(amount * p.lp_supply, p.collateral_reserve as int);
        let moved = LiquidityPoolView {
            collateral_reserve: (p.collateral_reserve + amount) as i128,
            outcome_reserves: Seq::new(
                p.outcome_reserves.len(),
                |i: int| (p.outcome_reserves[i] + shares[i]) as i128,
            ),
            lp_supply: (p.lp_supply + minted) as i128,
            ..p
        };
        match settle_products(moved) {
            Err(e) => Err(e),
            Ok(q) => Ok(
                (
                    q,
                    LPResultView {
                        lp_tokens_minted: minted as i128,
                        collateral_deposited: amount,
                        outcome_deposits: shares,
                    },
                ),
            ),
        }
    }
}

/// What adding liquidity does to a pool and gives the provider.
pub open spec fn provide(
    p: LiquidityPoolView,
    amount: i128,
    outcome_amounts: Seq<i128>,
) -> Result<(LiquidityPoolView, LPResultView), PredictionError> {
    if amount <= 0 {
        Err(PredictionError::InvalidOrderAmount)
    } else if outcome_amounts.len() != p.outcome_reserves.len() {
        Err(PredictionError::InvalidMarketParams)
    } else if p.lp_supply == 0 {
        provide_first(p, amount, outcome_amounts)
    } else {
        provide_more(p, amount)
    }
}

/// Whether the result and the pool afterwards are those stated.
pub open spec fn lp_outcome(
    expected: Result<(LiquidityPoolView, LPResultView), PredictionError>,
    r: Result<LPResult, PredictionError>,
    before: LiquidityPoolView,
    after: LiquidityPoolView,
) -> bool {
    match expected {
        Ok((p, lp)) => r is Ok && r->Ok_0@ == lp && after == p,
        Err(e) => r is Err && r->Err_0 == e && after == before,
    }
}

proof fn lemma_deposit_error_stays(reserves: Seq<i128>, amounts: Seq<i128>, a: int, b: int)
    requires
        0 <= a <= b,
        first_deposit_error(reserves, amounts, a) is Some,
    ensures
        first_deposit_error(reserves, amounts, b) == first_deposit_error(reserves, amounts, a),
    decreases b - a,
{
    if a < b {
        lemma_deposit_error_stays(reserves, amounts, a, b - 1);
    }
}

fn add_first_liquidity(
    pool: &mut LiquidityPool,
    collateral_amount: i128,
    outcome_amounts: Vec<i128>,
) -> (r: Result<LPResult, PredictionError>)
    requires
        old(pool)@.wf(),
        outcome_amounts@.len() == old(pool)@.outcome_reserves.len(),
    ensures
        lp_outcome(
            provide_first(old(pool)@, collateral_amount, outcome_amounts@),
            r,
            old(pool)@,
            final(pool)@,
        ),
        final(pool)@.wf(),
{
    let n: usize = pool.outcome_reserves.len();
    let mut reserves: Vec<i128> = Vec::new();
    let mut i: usize = 0;
    while i < n
        invariant
            i <= n == pool@.outcome_reserves.len(),
            n == outcome_amounts@.len(),
            *pool == *old(pool),
            pool@.wf(),
            first_deposit_error(pool@.outcome_reserves, outcome_amounts@, i as int) is None,
            reserves@.len() == i,
            forall|j: int|
                0 <= j < i ==> #[trigger] reserves@[j] == pool@.outcome_reserves[j]
                    + outcome_amounts@[j],
        decreases n - i,
    {
        let amount: i128 = outcome_amounts[i];
        if amount <= 0 {
            proof {
                lemma_deposit_error_stays(
                    pool@.outcome_reserves,
                    outcome_amounts@,
                    i + 1,
                    n as int,
                );
            }
            return Err(PredictionError::InvalidOrderAmount);
        }
        match pool.outcome_reserves[i].checked_add(amount) {
            Some(x) => {
                reserves.push(x);
            },
            None => {
                proof {
                    lemma_deposit_error_stays(
                        pool@.outcome_reserves,
                        outcome_amounts@,
                        i + 1,
                        n as int,
                    );
                }
                return Err(PredictionError::ArithmeticOverflow);
            },
        }
        i += 1;
    }
    let collateral: i128 = match pool.collateral_reserve.checked_add(collateral_amount) {
        Some(x) => x,
        None => return Err(PredictionError::ArithmeticOverflow),
    };
    let mut moved = pool.copy();
    moved.outcome_reserves = reserves;
    moved.collateral_reserve = collateral;
    moved.lp_supply = collateral_amount;
    proof {
        assert(moved@.outcome_reserves =~= Seq::new(
            pool@.outcome_reserves.len(),
            |i: int| (pool@.outcome_reserves[i] + outcome_amounts@[i]) as i128,
        ));
    }
    match update_all_k(&mut moved) {
        Err(e) => Err(e),
        Ok(()) => {
            *pool = moved;
            Ok(
                LPResult {
                    lp_tokens_minted: collateral_amount,
                    collateral_deposited: collateral_amount,
                    outcome_deposits: outcome_amounts,
                },
            )
        },
    }
}

fn add_more_liquidity(pool: &mut LiquidityPool, collateral_amount: i128) -> (r: Result<
    LPResult,
    PredictionError,
>)
    requires
        old(pool)@.wf(),
    ensures
        lp_outcome(provide_more(old(pool)@, collateral_amount), r, old(pool)@, final(pool)@),
        final(pool)@.wf(),
{
    let n: usize = pool.outcome_reserves.len();
    let base: i128 = if pool.collateral_reserve >= 1 {
        pool.collateral_reserve
    } else {
        1
    };
    let minted: i128 = match checked_mul_div(
        collateral_amount,
        pool.lp_supply,
        pool.collateral_reserve,
    ) {
        Some(x) => x,
        None => return Err(PredictionError::ArithmeticOverflow),
    };
    let mut reserves: Vec<i128> = Vec::new();
    let mut shares: Vec<i128> = Vec::new();
    let mut i: usize = 0;
    while i < n
        invariant
            i <= n == pool@.outcome_reserves.len(),
            *pool == *old(pool),
            pool@.wf(),
            base == at_least_one(pool@.collateral_reserve as int),
            reserves@.len() == i,
            shares@.len() == i,
            forall|j: int|
                0 <= j < i ==> share_fits(
                    #[trigger] pool@.outcome_reserves[j] as int,
                    collateral_amount as int,
                    pool@.collateral_reserve as int,
                ) && shares@[j] == deposit_share(
                    pool@.outcome_reserves[j] as int,
                    collateral_amount as int,
                    pool@.collateral_reserve as int,
                ) && reserves@[j] == pool@.outcome_reserves[j] + shares@[j],
        decreases n - i,
    {
        let reserve: i128 = pool.outcome_reserves[i];
        match checked_mul_div(reserve, collateral_amount, base) {
            None => {
                assert(!share_fits(
                    pool@.outcome_reserves[i as int] as int,
                    collateral_amount as int,
                    pool@.collateral_reserve as int,
                ));
                return Err(PredictionError::ArithmeticOverflow);
            },
            Some(part) => {
                match reserve.checked_add(part) {
                    None => {
                        assert(!share_fits(
                            pool@.outcome_reserves[i as int] as int,
                            collateral_amount as int,
                            pool@.collateral_reserve as int,
                        ));
                        return Err(PredictionError::ArithmeticOverflow);
                    },
                    Some(x) => {
                        shares.push(part);
                        reserves.push(x);
                    },
                }
            },
        }
        i += 1;
    }
    let collateral: i128 = match pool.collateral_reserve.checked_add(collateral_amount) {
        Some(x) => x,
        None => return Err(PredictionError::ArithmeticOverflow),
    };
    let supply: i128 = match pool.lp_supply.checked_add(minted) {
        Some(x) => x,
        None => return Err(PredictionError::ArithmeticOverflow),
    };
    let mut moved = pool.copy();
    moved.outcome_reserves = reserves;
    moved.collateral_reserve = collateral;
    moved.lp_supply = supply;
    proof {
        assert(shares@ =~= outcome_shares(pool@, collateral_amount as int));
        assert(moved@.outcome_reserves =~= Seq::new(
            pool@.outcome_reserves.len(),
            |i: int| (pool@.outcome_reserves[i] + shares@[i]) as i128,
        ));
    }
    match update_all_k(&mut moved) {
        Err(e) => Err(e),
        Ok(()) => {
            *pool = moved;
            Ok(
                LPResult {
                    lp_tokens_minted: minted,
                    collateral_deposited: collateral_amount,
                    outcome_deposits: shares,
                },
            )
        },
    }
}

/// Add liquidity to the pool. Returns LP tokens minted.
///
/// Providers deposit proportional amounts of collateral and all outcome
/// tokens. The first sets the ratio; later deposits follow the reserves.
pub fn add_liquidity(
    pool: &mut LiquidityPool,
    collateral_amount: i128,
    outcome_amounts: Vec<i128>,
) -> (r: Result<LPResult, PredictionError>)
    requires
        old(pool)@.wf(),
    ensures
        lp_outcome(
            provide(old(pool)@, collateral_amount, outcome_amounts@),
            r,
            old(pool)@,
            final(pool)@,
        ),
        final(pool)@.wf(),
{
    if collateral_amount <= 0 {
        return Err(PredictionError::InvalidOrderAmount);
    }
    if outcome_amounts.len() != pool.outcome_reserves.len() {
        return Err(PredictionError::InvalidMarketParams);
    }
    if pool.lp_supply == 0 {
        add_first_liquidity(pool, collateral_amount, outcome_amounts)
    } else {
        add_more_liquidity(pool, collateral_amount)
    }
}

/// The part of a reserve that `lp` of `supply` LP tokens stand for.
pub open spec fn lp_share(reserve: int, lp: int, supply: int) -> int {
    quot(reserve * lp, supply)
}

/// Taking the part out of a reserve stays within `i128`.
pub open spec fn withdraw_fits(reserve: int, lp: int, supply: int) -> bool {
    mul_div_fits(reserve, lp, supply) && fits(reserve - lp_share(reserve, lp, supply))
}

/// What burning LP tokens does to a pool and gives back: the proportional
/// part of every reserve.
pub open spec fn withdraw(p: LiquidityPoolView, lp: i128) -> Result<
    (LiquidityPoolView, LPResultView),
    PredictionError,
> {
    if lp <= 0 || lp > p.lp_supply {
        Err(PredictionError::InvalidOrderAmount)
    } else if !withdraw_fits(p.collateral_reserve as int, lp as int, p.lp_supply as int) || !(
    forall|i: int|
        0 <= i < p.outcome_reserves.len() ==> withdraw_fits(
            #[trigger] p.outcome_reserves[i] as int,
            lp as int,
            p.lp_supply as int,
        )) {
        Err(PredictionError::ArithmeticOverflow)
    } else {
        let out = lp_share(p.collateral_reserve as int, lp as int, p.lp_supply as int);
        let outs = Seq::new(
            p.outcome_reserves.len(),
            |i: int|
                lp_share(p.outcome_reserves[i] as int, lp as int, p.lp_supply as int) as i128,
        );
        let moved = LiquidityPoolView {
            collateral_reserve: (p.collateral_reserve - out) as i128,
            outcome_reserves: Seq::new(
                p.outcome_reserves.len(),
                |i: int| (p.outcome_reserves[i] - outs[i]) as i128,
            ),
            lp_supply: (p.lp_supply - lp) as i128,
            ..p
        };
        match settle_products(moved) {
            Err(e) => Err(e),
            Ok(q) => Ok(
                (
                    q,
                    LPResultView {
                        lp_tokens_minted: 0,
                        collateral_deposited: out as i128,
                        outcome_deposits: outs,
                    },
                ),
            ),
        }
    }
}

/// Remove liquidity from the pool.
///
/// Burns LP tokens and returns proportional share of all reserves.
pub fn remove_liquidity(pool: &mut LiquidityPool, lp_amount: i128) -> (r: Result<
    LPResult,
    PredictionError,
>)
    requires
        old(pool)@.wf(),
    ensures
        lp_outcome(withdraw(old(pool)@, lp_amount), r, old(pool)@, final(pool)@),
        final(pool)@.wf(),
{
    if lp_amount <= 0 || lp_amount > pool.lp_supply {
        return Err(PredictionError::InvalidOrderAmount);
    }
    let supply: i128 = pool.lp_supply;
    let out: i128 = match checked_mul_div(pool.collateral_reserve, lp_amount, supply) {
        Some(x) => x,
        None => return Err(PredictionError::ArithmeticOverflow),
    };
    let n: usize = pool.outcome_reserves.len();
    let mut outs: Vec<i128> = Vec::new();
    let mut reserves: Vec<i128> = Vec::new();
    let mut i: usize = 0;
    while i < n
        invariant
            i <= n == pool@.outcome_reserves.len(),
            *pool == *old(pool),
            pool@.wf(),
            supply == pool@.lp_supply,
            0 < lp_amount <= supply,
            outs@.len() == i,
            reserves@.len() == i,
            forall|j: int|
                0 <= j < i ==> withdraw_fits(
                    #[trigger] pool@.outcome_reserves[j] as int,
                    lp_amount as int,
                    supply as int,
                ) && outs@[j] == lp_share(
                    pool@.outcome_reserves[j] as int,
                    lp_amount as int,
                    supply as int,
                ) && reserves@[j] == pool@.outcome_reserves[j] - outs@[j],
        decreases n - i,
    {
        let reserve: i128 = pool.outcome_reserves[i];
        match checked_mul_div(reserve, lp_amount, supply) {
            None => {
                assert(!withdraw_fits(
                    pool@.outcome_reserves[i as int] as int,
                    lp_amount as int,
                    supply as int,
                ));
                return Err(PredictionError::ArithmeticOverflow);
            },
            Some(part) => {
                match reserve.checked_sub(part) {
                    None => {
                        assert(!withdraw_fits(
                            pool@.outcome_reserves[i as int] as int,
                            lp_amount as int,
                            supply as int,
                        ));
                        return Err(PredictionError::ArithmeticOverflow);
                    },
                    Some(x) => {
                        outs.push(part);
                        reserves.push(x);
                    },
                }
            },
        }
        i += 1;
    }
    let collateral: i128 = match pool.collateral_reserve.checked_sub(out) {
        Some(x) => x,
        None => return Err(PredictionError::ArithmeticOverflow),
    };
    let mut moved = pool.copy();
    moved.outcome_reserves = reserves;
    moved.collateral_reserve = collateral;
    moved.lp_supply = supply - lp_amount;
    proof {
        assert(outs@ =~= Seq::new(
            pool@.outcome_reserves.len(),
            |i: int|
                lp_share(
                    pool@.outcome_reserves[i] as int,
                    lp_amount as int,
                    pool@.lp_supply as int,
                ) as i128,
        ));
        assert(moved@.outcome_reserves =~= Seq::new(
            pool@.outcome_reserves.len(),
            |i: int| (pool@.outcome_reserves[i] - outs@[i]) as i128,
        ));
    }
    match update_all_k(&mut moved) {
        Err(e) => Err(e),
        Ok(()) => {
            *pool = moved;
            Ok(
                LPResult {
                    lp_tokens_minted: 0,
                    collateral_deposited: out,
                    outcome_deposits: outs,
                },
            )
        },
    }
}

// ---------------------------------------------------------------------------
// Invariant verification
// ---------------------------------------------------------------------------

/// The product of one outcome is that of its reserves, up to one unit.
pub open spec fn product_close(p: LiquidityPoolView, i: int) -> bool {
    let expected = p.collateral_reserve * p.outcome_reserves[i];
    fits(expected) && -1 <= p.k_per_outcome[i] - expected <= 1
}

/// The product of every outcome is that of its reserves, up to one unit.
pub open spec fn invariant_holds(p: LiquidityPoolView) -> bool {
    forall|i: int| 0 <= i < p.outcome_reserves.len() ==> #[trigger] product_close(p, i)
}

/// Verify the constant product invariant holds for all outcomes.
///
/// Returns true if for all i: k_i = collateral_reserve * outcome_reserve_i,
/// allowing for one unit of rounding.
pub fn verify_invariant(pool: &LiquidityPool) -> (b: bool)
    requires
        pool@.wf(),
    ensures
        b == invariant_holds(pool@),
{
    let n: usize = pool.outcome_reserves.len();
    let mut i: usize = 0;
    while i < n
        invariant
            i <= n == pool@.outcome_reserves.len(),
            pool@.wf(),
            forall|j: int| 0 <= j < i ==> #[trigger] product_close(pool@, j),
        decreases n - i,
    {
        let close: bool = match pool.collateral_reserve.checked_mul(pool.outcome_reserves[i]) {
            None => false,
            Some(k) => match pool.k_per_outcome[i].checked_sub(k) {
                None => false,
                Some(d) => -1 <= d && d <= 1,
            },
        };
        if !close {
            assert(!product_close(pool@, i as int));
            return false;
        }
        i += 1;
    }
    true
}

} // verus!
