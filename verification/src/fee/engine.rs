//! Fee calculation: the three fee models (flat, percentage, tiered), clamping,
//! caps and discounts. Nothing here touches storage.

use vstd::prelude::*;

use crate::base::arith::{checked_mul_div, fits, lemma_quot_bounds, quot};
use crate::fee::records::{FeeError, FeeStructure, FeeStructureView, FeeType, TierEntry, BPS_DENOM};

verus! {

/// A rate in basis points of an amount, rounded toward zero.
pub open spec fn rate_of(amount: int, bps: int) -> Result<i128, FeeError> {
    if fits(amount * bps) {
        Ok(quot(amount * bps, BPS_DENOM as int) as i128)
    } else {
        Err(FeeError::ArithmeticOverflow)
    }
}

fn compute_rate(amount: i128, bps: i128) -> (r: Result<i128, FeeError>)
    ensures
        r == rate_of(amount as int, bps as int),
{
    proof {
        lemma_quot_bounds(amount * bps, BPS_DENOM as int);
    }
    match checked_mul_div(amount, bps, BPS_DENOM) {
        Some(x) => Ok(x),
        None => Err(FeeError::ArithmeticOverflow),
    }
}

/// Among the first `n` tiers whose threshold the amount reaches, the one with
/// the highest threshold, the last of these where several have it.
pub open spec fn winning_tier(tiers: Seq<TierEntry>, amount: i128, n: int) -> Option<int>
    decreases n,
{
    if n <= 0 {
        None
    } else {
        let t = tiers[n - 1];
        match winning_tier(tiers, amount, n - 1) {
            None => if t.threshold <= amount {
                Some(n - 1)
            } else {
                None
            },
            Some(i) => if t.threshold <= amount && t.threshold >= tiers[i].threshold {
                Some(n - 1)
            } else {
                Some(i)
            },
        }
    }
}

/// A tiered fee: the rate of the winning tier, or nothing where no tier is reached.
pub open spec fn tiered_fee(tiers: Seq<TierEntry>, amount: i128) -> Result<i128, FeeError> {
    match winning_tier(tiers, amount, tiers.len() as int) {
        Some(i) => rate_of(amount as int, tiers[i].fee_bps as int),
        None => Ok(0),
    }
}

/// The fee before clamping, caps and discounts.
pub open spec fn raw_fee(
    fee_type: FeeType,
    amount_bps: i128,
    tiers: Seq<TierEntry>,
    base: i128,
) -> Result<i128, FeeError> {
    match fee_type {
        FeeType::Flat => Ok(amount_bps),
        FeeType::Percentage => rate_of(base as int, amount_bps as int),
        FeeType::Tiered => tiered_fee(tiers, base),
    }
}

/// Compute the raw fee before discounts and caps.
///
/// # Arguments
///
/// * `fee_type` — The mathematical model.
/// * `amount_bps` — Flat amount or percentage in bps (ignored for `Tiered`).
/// * `tiered_entries` — Tier definitions (only used for `Tiered`).
/// * `base_amount` — The base value to compute the fee against.
///
/// # Returns
///
/// The raw fee amount.  May exceed `base_amount` for `Flat` fees; callers
/// should clamp afterwards.
pub fn compute_raw_fee(
    fee_type: &FeeType,
    amount_bps: &i128,
    tiered_entries: &Vec<TierEntry>,
    base_amount: i128,
) -> (r: Result<i128, FeeError>)
    ensures
        r == raw_fee(*fee_type, *amount_bps, tiered_entries@, base_amount),
{
    match fee_type {
        FeeType::Flat => Ok(*amount_bps),
        FeeType::Percentage => compute_rate(base_amount, *amount_bps),
        FeeType::Tiered => calculate_tiered_fee(tiered_entries, base_amount),
    }
}

/// Compute the raw fee directly from a [`FeeStructure`].
pub fn compute_fee_from_structure(fs: &FeeStructure, base_amount: i128) -> (r: Result<
    i128,
    FeeError,
>)
    ensures
        r == raw_fee(fs@.fee_type, fs@.amount_bps, fs@.tiered_entries, base_amount),
{
    compute_raw_fee(&fs.fee_type, &fs.amount_bps, &fs.tiered_entries, base_amount)
}

/// Calculate a tiered fee by finding the matching tier for `amount`.
///
/// The tier with the highest threshold that `amount` reaches wins.
fn calculate_tiered_fee(tiers: &Vec<TierEntry>, amount: i128) -> (r: Result<i128, FeeError>)
    ensures
        r == tiered_fee(tiers@, amount),
{
    let mut selected: Option<usize> = None;
    let mut i: usize = 0;
    while i < tiers.len()
        invariant
            i <= tiers@.len(),
            match selected {
                Some(k) => k < i && winning_tier(tiers@, amount, i as int) == Some(k as int),
                None => winning_tier(tiers@, amount, i as int) is None,
            },
        decreases tiers@.len() - i,
    {
        if tiers[i].threshold <= amount {
            let better: bool = match selected {
                Some(k) => tiers[i].threshold >= tiers[k].threshold,
                None => true,
            };
            if better {
                selected = Some(i);
            }
        }
        i += 1;
    }
    match selected {
        Some(k) => compute_rate(amount, tiers[k].fee_bps),
        None => Ok(0),
    }
}

/// A fee that is never negative and never exceeds the base amount.
pub open spec fn clamped(fee: i128, base: i128) -> i128 {
    let f = if fee < 0 {
        0
    } else {
        fee
    };
    if f > base {
        base
    } else {
        f
    }
}

/// Clamp a fee to `[0, base_amount]`.
///
/// Fees are never negative and never exceed the base amount (ensures the
/// protocol never overcharges). Of a negative base the fee is the base.
pub fn clamp_fee(fee: i128, base: i128) -> (r: i128)
    ensures
        r == clamped(fee, base),
        base >= 0 ==> 0 <= r <= base,
{
    let f: i128 = if fee < 0 {
        0
    } else {
        fee
    };
    if f > base {
        base
    } else {
        f
    }
}

/// A fee after a discount.
pub open spec fn discounted(fee: i128, discount_bps: i128, waived: bool) -> Result<i128, FeeError> {
    if waived {
        Ok(0)
    } else if discount_bps <= 0 {
        Ok(fee)
    } else {
        match rate_of(fee as int, BPS_DENOM - discount_bps) {
            Ok(x) => Ok(
                if x < 0 {
                    0
                } else {
                    x
                },
            ),
            Err(e) => Err(e),
        }
    }
}

/// Apply a discount (in bps) to a fee amount.
///
/// Returns `0` if `waived` is true.  Otherwise reduces `fee` by `discount_bps`
/// out of `BPS_DENOM`.
pub fn apply_discount(fee: i128, discount_bps: i128, waived: bool) -> (r: Result<i128, FeeError>)
    ensures
        r == discounted(fee, discount_bps, waived),
{
    if waived {
        return Ok(0);
    }
    if discount_bps <= 0 {
        return Ok(fee);
    }
    match compute_rate(fee, BPS_DENOM - discount_bps) {
        Ok(x) => if x < 0 {
            Ok(0)
        } else {
            Ok(x)
        },
        Err(e) => Err(e),
    }
}

/// A fee after a cap; a negative cap is none.
pub open spec fn capped(fee: i128, cap: Option<i128>) -> i128 {
    match cap {
        Some(c) => if 0 <= c < fee {
            c
        } else {
            fee
        },
        None => fee,
    }
}

/// Apply a fee cap.  Returns the smaller of the fee and the cap; a negative
/// cap caps nothing.
pub fn apply_fee_cap(fee: i128, cap: Option<i128>) -> (r: i128)
    ensures
        r == capped(fee, cap),
{
    match cap {
        Some(c) => if c >= 0 && c < fee {
            c
        } else {
            fee
        },
        None => fee,
    }
}

/// A fee structure's configuration is internally consistent.
pub open spec fn consistent(fs: FeeStructureView) -> bool {
    &&& match fs.fee_type {
        FeeType::Percentage => 0 <= fs.amount_bps <= BPS_DENOM,
        FeeType::Flat => fs.amount_bps >= 0,
        FeeType::Tiered => fs.tiered_entries.len() > 0,
    }
    &&& match fs.fee_cap {
        Some(c) => c >= 0,
        None => true,
    }
}

/// Validate that a fee structure's configuration is internally consistent.
pub fn validate_fee_structure(fs: &FeeStructure) -> (r: Result<(), FeeError>)
    ensures
        r == (if consistent(fs@) {
            Ok::<(), FeeError>(())
        } else {
            Err(FeeError::InvalidFeeConfiguration)
        }),
{
    match fs.fee_type {
        FeeType::Percentage => {
            if fs.amount_bps < 0 || fs.amount_bps > BPS_DENOM {
                return Err(FeeError::InvalidFeeConfiguration);
            }
        },
        FeeType::Flat => {
            if fs.amount_bps < 0 {
                return Err(FeeError::InvalidFeeConfiguration);
            }
        },
        FeeType::Tiered => {
            if fs.tiered_entries.len() == 0 {
                return Err(FeeError::InvalidFeeConfiguration);
            }
        },
    }
    match fs.fee_cap {
        Some(cap) => {
            if cap < 0 {
                return Err(FeeError::InvalidFeeConfiguration);
            }
        },
        None => {},
    }
    Ok(())
}

} // verus!
