//! The numbers by which callers outside know the values of the enums.

use vstd::prelude::*;

use crate::pricefeed::records::PriceFeedError;

verus! {

/// These are the numbers of the errors of the contract.
pub proof fn errors_have_their_numbers()
    ensures
        PriceFeedError::Unauthorized.spec_code() == 1,
        PriceFeedError::OracleAlreadyExists.spec_code() == 2,
        PriceFeedError::OracleNotFound.spec_code() == 3,
        PriceFeedError::PriceStale.spec_code() == 4,
        PriceFeedError::PriceAnomalous.spec_code() == 5,
        PriceFeedError::NoPriceData.spec_code() == 6,
        PriceFeedError::NoFallbackPrice.spec_code() == 7,
        PriceFeedError::AssetNotTracked.spec_code() == 8,
        PriceFeedError::BatchTooLarge.spec_code() == 9,
        PriceFeedError::InvalidConfig.spec_code() == 10,
        PriceFeedError::OracleInactive.spec_code() == 11,
{
}

} // verus!
