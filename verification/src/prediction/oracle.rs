//! Oracle resolution, disputes and the life cycle of a market.

use vstd::prelude::*;

use crate::base::address::Address;
use crate::base::arith::{checked_quot, fits, lemma_quot_bounds, quot};
use crate::base::symbol::Symbol;
use crate::base::vecs::repeat_vec;
use crate::prediction::state::{PredictionEnv, PredictionState};
use crate::prediction::types::{
    Dispute, DisputeStatus, LiquidityPoolView, Market, MarketStatus, MarketView, OracleSource,
    PredictionError, ResolutionData, DISPUTE_PERIOD_SECS,
};

verus! {

// ---------------------------------------------------------------------------
// Oracle source management
// ---------------------------------------------------------------------------

/// Set the oracle source for a market.
pub fn set_oracle_source(env: &mut PredictionEnv, market_id: u64, source: OracleSource) -> (r: Result<
    (),
    PredictionError,
>)
    ensures
        r is Ok,
        final(env)@ == (PredictionState {
            oracle_sources: old(env)@.oracle_sources.insert(market_id, source),
            ..old(env)@
        }),
{
    env.oracle_sources.set(market_id, source);
    assert(env@ =~= (PredictionState {
        oracle_sources: old(env)@.oracle_sources.insert(market_id, source),
        ..old(env)@
    }));
    Ok(())
}

/// Get the oracle source for a market.
pub fn get_oracle_source(env: &PredictionEnv, market_id: u64) -> (r: Option<OracleSource>)
    ensures
        r == (if env@.oracle_sources.contains_key(market_id) {
            Some(env@.oracle_sources[market_id])
        } else {
            None
        }),
{
    env.oracle_sources.copied(market_id)
}

// ---------------------------------------------------------------------------
// Resolution
// ---------------------------------------------------------------------------

/// What submitting a resolution does to the state and the market.
///
/// Only the market's active oracle may resolve it, once it awaits resolution
/// and its resolution time has come.
pub open spec fn resolve(
    s: PredictionState,
    m: MarketView,
    provider: Symbol,
    outcome: u32,
) -> Result<(PredictionState, MarketView, ResolutionData), PredictionError> {
    if m.status != MarketStatus::PendingResolution {
        Err(PredictionError::MarketNotTradable)
    } else if s.timestamp < m.resolution_time {
        Err(PredictionError::ResolutionWindowNotClosed)
    } else if outcome >= m.outcomes.len() {
        Err(PredictionError::InvalidOutcomeIndex)
    } else if !s.oracle_sources.contains_key(m.market_id) {
        Err(PredictionError::OracleNotConfigured)
    } else if s.oracle_sources[m.market_id].provider_id != provider {
        Err(PredictionError::Unauthorized)
    } else if !s.oracle_sources[m.market_id].is_active {
        Err(PredictionError::OracleNotConfigured)
    } else {
        let data = ResolutionData {
            market_id: m.market_id,
            resolved_outcome: outcome,
            oracle_provider: provider,
            submitted_at: s.timestamp,
            confirmed: true,
        };
        Ok(
            (
                PredictionState { resolutions: s.resolutions.insert(m.market_id, data), ..s },
                MarketView {
                    status: MarketStatus::Resolved,
                    resolved_outcome: Some(outcome),
                    resolved_at: Some(s.timestamp),
                    ..m
                },
                data,
            ),
        )
    }
}

/// Submit an oracle resolution for a market.
pub fn submit_resolution(
    env: &mut PredictionEnv,
    market: &mut Market,
    oracle_provider: Symbol,
    resolved_outcome: u32,
) -> (r: Result<ResolutionData, PredictionError>)
    ensures
        match resolve(old(env)@, old(market)@, oracle_provider, resolved_outcome) {
            Ok((s, m, data)) => r == Ok::<ResolutionData, PredictionError>(data) && final(env)@ == s
                && final(market)@ == m,
            Err(e) => r == Err::<ResolutionData, PredictionError>(e) && final(env)@ == old(env)@
                && final(market)@ == old(market)@,
        },
{
    if market.status != MarketStatus::PendingResolution {
        return Err(PredictionError::MarketNotTradable);
    }
    let now: u64 = env.timestamp;
    if now < market.resolution_time {
        return Err(PredictionError::ResolutionWindowNotClosed);
    }
    if resolved_outcome as usize >= market.outcomes.len() {
        return Err(PredictionError::InvalidOutcomeIndex);
    }
    let source: OracleSource = match get_oracle_source(env, market.market_id) {
        Some(x) => x,
        None => return Err(PredictionError::OracleNotConfigured),
    };
    if source.provider_id != oracle_provider {
        return Err(PredictionError::Unauthorized);
    }
    if !source.is_active {
        return Err(PredictionError::OracleNotConfigured);
    }
    let data = ResolutionData {
        market_id: market.market_id,
        resolved_outcome,
        oracle_provider,
        submitted_at: now,
        confirmed: true,
    };
    env.resolutions.set(market.market_id, data);
    market.status = MarketStatus::Resolved;
    market.resolved_outcome = Some(resolved_outcome);
    market.resolved_at = Some(now);
    proof {
        let (s, m, d) = resolve(
            old(env)@,
            old(market)@,
            oracle_provider,
            resolved_outcome,
        )->Ok_0;
        assert(env@ =~= s);
        assert(market@ =~= m);
    }
    Ok(data)
}

/// Get the resolution data for a market.
pub fn get_resolution_data(env: &PredictionEnv, market_id: u64) -> (r: Option<ResolutionData>)
    ensures
        r == (if env@.resolutions.contains_key(market_id) {
            Some(env@.resolutions[market_id])
        } else {
            None
        }),
{
    env.resolutions.copied(market_id)
}

/// Check if a market can be resolved.
pub fn can_resolve(market: &Market, now: u64) -> (b: bool)
    ensures
        b == (market@.status == MarketStatus::PendingResolution && now >= market@.resolution_time),
{
    market.status == MarketStatus::PendingResolution && now >= market.resolution_time
}

// ---------------------------------------------------------------------------
// Dispute mechanism
// ---------------------------------------------------------------------------

/// The last moment at which a resolution can be disputed.
pub open spec fn dispute_deadline(resolved_at: u64) -> u64 {
    if resolved_at + DISPUTE_PERIOD_SECS > u64::MAX {
        u64::MAX
    } else {
        (resolved_at + DISPUTE_PERIOD_SECS) as u64
    }
}

fn deadline_after(resolved_at: u64) -> (d: u64)
    ensures
        d == dispute_deadline(resolved_at),
{
    match resolved_at.checked_add(DISPUTE_PERIOD_SECS) {
        Some(d) => d,
        None => u64::MAX,
    }
}

/// The least bond of a dispute: one percent of the market's collateral, or
/// nothing where the collateral times 100 is no number of `i128`.
pub open spec fn min_bond(total_collateral: i128) -> int {
    if fits(total_collateral * 100) {
        quot(total_collateral * 100, 10_000)
    } else {
        0
    }
}

/// What filing a dispute does to the state and gives back.
pub open spec fn dispute(
    s: PredictionState,
    m: MarketView,
    disputer: Address,
    claimed_outcome: u32,
    evidence: Symbol,
    bond_amount: i128,
) -> Result<(PredictionState, Dispute), PredictionError> {
    let resolved_at = match m.resolved_at {
        Some(t) => t,
        None => s.timestamp,
    };
    if m.status != MarketStatus::Resolved {
        Err(PredictionError::MarketNotResolved)
    } else if s.timestamp > dispute_deadline(resolved_at) {
        Err(PredictionError::DisputePeriodExpired)
    } else if claimed_outcome >= m.outcomes.len() {
        Err(PredictionError::InvalidOutcomeIndex)
    } else if s.disputes.contains_key(m.market_id) && s.disputes[m.market_id].status
        == DisputeStatus::Pending {
        Err(PredictionError::AlreadyExists)
    } else if bond_amount < min_bond(m.total_collateral) {
        Err(PredictionError::InsufficientBalance)
    } else {
        let d = Dispute {
            market_id: m.market_id,
            disputer,
            claimed_outcome,
            evidence,
            filed_at: s.timestamp,
            status: DisputeStatus::Pending,
            bond_amount,
            resolved_at: None,
        };
        Ok((PredictionState { disputes: s.disputes.insert(m.market_id, d), ..s }, d))
    }
}

/// File a dispute against a market resolution.
///
/// The disputer must stake a bond (collateral). The dispute can be filed
/// within the dispute period after resolution.
pub fn file_dispute(
    env: &mut PredictionEnv,
    market: &Market,
    disputer: Address,
    claimed_outcome: u32,
    evidence: Symbol,
    bond_amount: i128,
) -> (r: Result<Dispute, PredictionError>)
    ensures
        match dispute(old(env)@, market@, disputer, claimed_outcome, evidence, bond_amount) {
            Ok((s, d)) => r == Ok::<Dispute, PredictionError>(d) && final(env)@ == s,
            Err(e) => r == Err::<Dispute, PredictionError>(e) && final(env)@ == old(env)@,
        },
{
    if market.status != MarketStatus::Resolved {
        return Err(PredictionError::MarketNotResolved);
    }
    let now: u64 = env.timestamp;
    let resolved_at: u64 = match market.resolved_at {
        Some(t) => t,
        None => now,
    };
    if now > deadline_after(resolved_at) {
        return Err(PredictionError::DisputePeriodExpired);
    }
    if claimed_outcome as usize >= market.outcomes.len() {
        return Err(PredictionError::InvalidOutcomeIndex);
    }
    match env.disputes.copied(market.market_id) {
        Some(existing) => {
            if existing.status == DisputeStatus::Pending {
                return Err(PredictionError::AlreadyExists);
            }
        },
        None => {},
    }
    let scaled: i128 = match market.total_collateral.checked_mul(100) {
        Some(x) => x,
        None => 0,
    };
    proof {
        lemma_quot_bounds(scaled as int, 10_000);
    }
    let bond: i128 = match checked_quot(scaled, 10_000) {
        Some(x) => x,
        None => 1,
    };
    if bond_amount < bond {
        return Err(PredictionError::InsufficientBalance);
    }
    let d = Dispute {
        market_id: market.market_id,
        disputer,
        claimed_outcome,
        evidence,
        filed_at: now,
        status: DisputeStatus::Pending,
        bond_amount,
        resolved_at: None,
    };
    env.disputes.set(market.market_id, d);
    proof {
        let (s, x) = dispute(
            old(env)@,
            market@,
            disputer,
            claimed_outcome,
            evidence,
            bond_amount,
        )->Ok_0;
        assert(env@ =~= s);
    }
    Ok(d)
}

/// What resolving a dispute does to the state and the market.
///
/// An accepted dispute overturns the resolution; a rejected one leaves it.
pub open spec fn settle_dispute(s: PredictionState, m: MarketView, accepted: bool) -> Result<
    (PredictionState, MarketView, Dispute),
    PredictionError,
> {
    if !s.disputes.contains_key(m.market_id) {
        Err(PredictionError::NoDispute)
    } else if s.disputes[m.market_id].status != DisputeStatus::Pending {
        Err(PredictionError::InvalidMarketParams)
    } else {
        let d = Dispute {
            status: if accepted {
                DisputeStatus::Accepted
            } else {
                DisputeStatus::Rejected
            },
            resolved_at: Some(s.timestamp),
            ..s.disputes[m.market_id]
        };
        let s1 = PredictionState { disputes: s.disputes.insert(m.market_id, d), ..s };
        if !accepted {
            Ok((s1, m, d))
        } else if !s.resolutions.contains_key(m.market_id) {
            Err(PredictionError::MarketNotResolved)
        } else {
            Ok(
                (
                    PredictionState {
                        resolutions: s.resolutions.insert(
                            m.market_id,
                            ResolutionData {
                                resolved_outcome: d.claimed_outcome,
                                confirmed: true,
                                ..s.resolutions[m.market_id]
                            },
                        ),
                        ..s1
                    },
                    MarketView {
                        resolved_outcome: Some(d.claimed_outcome),
                        resolved_at: Some(s.timestamp),
                        ..m
                    },
                    d,
                ),
            )
        }
    }
}

/// Resolve a dispute. Admin only.
///
/// If the dispute is accepted, the market resolution is overturned.
/// If rejected, the original resolution stands and the bond is forfeited.
pub fn resolve_dispute(env: &mut PredictionEnv, market: &mut Market, accepted: bool) -> (r: Result<
    Dispute,
    PredictionError,
>)
    ensures
        match settle_dispute(old(env)@, old(market)@, accepted) {
            Ok((s, m, d)) => r == Ok::<Dispute, PredictionError>(d) && final(env)@ == s
                && final(market)@ == m,
            Err(e) => r == Err::<Dispute, PredictionError>(e) && final(env)@ == old(env)@
                && final(market)@ == old(market)@,
        },
{
    let id: u64 = market.market_id;
    let mut d: Dispute = match env.disputes.copied(id) {
        Some(x) => x,
        None => return Err(PredictionError::NoDispute),
    };
    if d.status != DisputeStatus::Pending {
        return Err(PredictionError::InvalidMarketParams);
    }
    let now: u64 = env.timestamp;
    d.status = if accepted {
        DisputeStatus::Accepted
    } else {
        DisputeStatus::Rejected
    };
    d.resolved_at = Some(now);
    if accepted {
        let mut data: ResolutionData = match env.resolutions.copied(id) {
            Some(x) => x,
            None => return Err(PredictionError::MarketNotResolved),
        };
        data.resolved_outcome = d.claimed_outcome;
        data.confirmed = true;
        env.resolutions.set(id, data);
        market.resolved_outcome = Some(d.claimed_outcome);
        market.resolved_at = Some(now);
    }
    env.disputes.set(id, d);
    proof {
        let (s, m, x) = settle_dispute(old(env)@, old(market)@, accepted)->Ok_0;
        assert(env@ =~= s);
        assert(market@ =~= m);
    }
    Ok(d)
}

/// Get the dispute for a market.
pub fn get_dispute(env: &PredictionEnv, market_id: u64) -> (r: Option<Dispute>)
    ensures
        r == (if env@.disputes.contains_key(market_id) {
            Some(env@.disputes[market_id])
        } else {
            None
        }),
{
    env.disputes.copied(market_id)
}

/// Check if a market can be disputed.
pub fn can_dispute(market: &Market, now: u64) -> (b: bool)
    ensures
        b == (market@.status == MarketStatus::Resolved && now <= dispute_deadline(
            match market@.resolved_at {
                Some(t) => t,
                None => 0,
            },
        )),
{
    if market.status != MarketStatus::Resolved {
        return false;
    }
    let resolved_at: u64 = match market.resolved_at {
        Some(t) => t,
        None => 0,
    };
    now <= deadline_after(resolved_at)
}

// ---------------------------------------------------------------------------
// Market state transitions
// ---------------------------------------------------------------------------

/// What the end of trading does to a market.
pub open spec fn end_trading(m: MarketView, now: u64) -> Result<MarketView, PredictionError> {
    if m.status != MarketStatus::Active {
        Err(PredictionError::InvalidMarketParams)
    } else if now < m.trading_end_time {
        Err(PredictionError::ResolutionWindowNotClosed)
    } else {
        Ok(MarketView { status: MarketStatus::PendingResolution, ..m })
    }
}

/// Transition a market from Active to PendingResolution.
///
/// Called when the trading window ends.
pub fn transition_to_pending_resolution(env: &PredictionEnv, market: &mut Market) -> (r: Result<
    (),
    PredictionError,
>)
    ensures
        match end_trading(old(market)@, env@.timestamp) {
            Ok(m) => r is Ok && final(market)@ == m,
            Err(e) => r == Err::<(), PredictionError>(e) && final(market)@ == old(market)@,
        },
{
    if market.status != MarketStatus::Active {
        return Err(PredictionError::InvalidMarketParams);
    }
    if env.timestamp < market.trading_end_time {
        return Err(PredictionError::ResolutionWindowNotClosed);
    }
    market.status = MarketStatus::PendingResolution;
    Ok(())
}

/// A pool with all outcome token reserves at zero.
pub open spec fn drained(p: LiquidityPoolView) -> LiquidityPoolView {
    LiquidityPoolView {
        outcome_reserves: Seq::new(p.outcome_reserves.len(), |i: int| 0i128),
        k_per_outcome: Seq::new(p.outcome_reserves.len(), |i: int| 0i128),
        ..p
    }
}

/// What closing a market early does to the state and the market: it ends
/// without a winning outcome, and its pool, if any, keeps no outcome tokens.
pub open spec fn close_early(s: PredictionState, m: MarketView) -> Result<
    (PredictionState, MarketView),
    PredictionError,
> {
    if !m.allow_early_close || m.status != MarketStatus::Active {
        Err(PredictionError::InvalidMarketParams)
    } else {
        Ok(
            (
                if s.pools.contains_key(m.market_id) {
                    PredictionState {
                        pools: s.pools.insert(m.market_id, drained(s.pools[m.market_id])),
                        ..s
                    }
                } else {
                    s
                },
                MarketView {
                    status: MarketStatus::Closed,
                    resolved_outcome: None,
                    resolved_at: Some(s.timestamp),
                    ..m
                },
            ),
        )
    }
}

/// Early close a market (admin/creator only).
///
/// Sets all outcome token reserves to zero and resolves with no winning outcome.
pub fn early_close_market(env: &mut PredictionEnv, market: &mut Market) -> (r: Result<
    (),
    PredictionError,
>)
    ensures
        match close_early(old(env)@, old(market)@) {
            Ok((s, m)) => r is Ok && final(env)@ == s && final(market)@ == m,
            Err(e) => r == Err::<(), PredictionError>(e) && final(env)@ == old(env)@
                && final(market)@ == old(market)@,
        },
{
    if !market.allow_early_close {
        return Err(PredictionError::InvalidMarketParams);
    }
    if market.status != MarketStatus::Active {
        return Err(PredictionError::InvalidMarketParams);
    }
    market.status = MarketStatus::Closed;
    market.resolved_outcome = None;
    market.resolved_at = Some(env.timestamp);
    let drained_pool = match env.pools.get(market.market_id) {
        None => None,
        Some(p) => {
            let mut q = p.copy();
            let n: usize = p.outcome_reserves.len();
            q.outcome_reserves = repeat_vec(0i128, n);
            q.k_per_outcome = repeat_vec(0i128, n);
            assert(q@ =~= drained(p@));
            Some(q)
        },
    };
    match drained_pool {
        None => {},
        Some(q) => {
            env.pools.set(market.market_id, q);
        },
    }
    proof {
        let (s, m) = close_early(old(env)@, old(market)@)->Ok_0;
        assert(env@ =~= s);
        assert(market@ =~= m);
    }
    Ok(())
}

/// What cancelling does to a market.
pub open spec fn cancelled(m: MarketView) -> Result<MarketView, PredictionError> {
    if m.total_collateral > 0 {
        Err(PredictionError::ActivePositionsExist)
    } else if m.status != MarketStatus::Active {
        Err(PredictionError::InvalidMarketParams)
    } else {
        Ok(MarketView { status: MarketStatus::Cancelled, ..m })
    }
}

/// Cancel a market (admin only, only if no trades have occurred).
pub fn cancel_market(market: &mut Market) -> (r: Result<(), PredictionError>)
    ensures
        match cancelled(old(market)@) {
            Ok(m) => r is Ok && final(market)@ == m,
            Err(e) => r == Err::<(), PredictionError>(e) && final(market)@ == old(market)@,
        },
{
    if market.total_collateral > 0 {
        return Err(PredictionError::ActivePositionsExist);
    }
    if market.status != MarketStatus::Active {
        return Err(PredictionError::InvalidMarketParams);
    }
    market.status = MarketStatus::Cancelled;
    Ok(())
}

} // verus!
