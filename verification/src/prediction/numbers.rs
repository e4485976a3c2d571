//! The numbers by which callers outside know the values of the enums.

use vstd::prelude::*;

use crate::prediction::types::PredictionError;

verus! {

/// These are the numbers of the errors of the contract.
pub proof fn errors_have_their_numbers()
    ensures
        PredictionError::AlreadyInitialized.spec_code() == 1,
        PredictionError::Unauthorized.spec_code() == 2,
        PredictionError::MarketNotFound.spec_code() == 3,
        PredictionError::InvalidMarketParams.spec_code() == 4,
        PredictionError::MarketNotTradable.spec_code() == 5,
        PredictionError::InvalidOutcomeIndex.spec_code() == 6,
        PredictionError::InsufficientBalance.spec_code() == 7,
        PredictionError::MarketAlreadyResolved.spec_code() == 8,
        PredictionError::MarketNotResolved.spec_code() == 9,
        PredictionError::NotWinningOutcome.spec_code() == 10,
        PredictionError::ResolutionWindowNotClosed.spec_code() == 11,
        PredictionError::MarketDisputed.spec_code() == 12,
        PredictionError::NoDispute.spec_code() == 13,
        PredictionError::DisputePeriodExpired.spec_code() == 14,
        PredictionError::DisputePeriodNotExpired.spec_code() == 15,
        PredictionError::ArithmeticOverflow.spec_code() == 16,
        PredictionError::MarketCapReached.spec_code() == 17,
        PredictionError::NoLiquidityPool.spec_code() == 18,
        PredictionError::InsufficientLiquidity.spec_code() == 19,
        PredictionError::InvalidOrderPrice.spec_code() == 20,
        PredictionError::InvalidOrderAmount.spec_code() == 21,
        PredictionError::OrderNotFound.spec_code() == 22,
        PredictionError::NotOrderOwner.spec_code() == 23,
        PredictionError::OracleNotConfigured.spec_code() == 24,
        PredictionError::SlippageExceeded.spec_code() == 25,
        PredictionError::TooManyOutcomes.spec_code() == 26,
        PredictionError::InvalidCategory.spec_code() == 27,
        PredictionError::ActivePositionsExist.spec_code() == 28,
        PredictionError::AlreadyExists.spec_code() == 29,
{
}

} // verus!
