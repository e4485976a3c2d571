//! The numbers by which callers outside know the values of the enums.

use vstd::prelude::*;

use crate::asset::records::AssetError;

verus! {

/// These are the numbers of the errors of the contract.
pub proof fn errors_have_their_numbers()
    ensures
        AssetError::AlreadyInitialized.spec_code() == 1,
        AssetError::Unauthorized.spec_code() == 2,
        AssetError::InvalidAssetType.spec_code() == 3,
        AssetError::InvalidSymbol.spec_code() == 4,
        AssetError::InvalidName.spec_code() == 5,
        AssetError::AssetAlreadyExists.spec_code() == 6,
        AssetError::AssetNotFound.spec_code() == 7,
        AssetError::NonZeroBalance.spec_code() == 8,
        AssetError::MaxAssetsReached.spec_code() == 9,
        AssetError::InvalidContractAddress.spec_code() == 10,
        AssetError::InvalidDecimals.spec_code() == 11,
        AssetError::InvalidBalance.spec_code() == 12,
        AssetError::InvalidPrice.spec_code() == 13,
        AssetError::PortfolioNotFound.spec_code() == 14,
        AssetError::AssetInactive.spec_code() == 15,
{
}

} // verus!
