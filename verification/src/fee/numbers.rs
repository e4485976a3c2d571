//! The numbers by which callers outside know the values of the enums.

use vstd::prelude::*;

use crate::fee::records::FeeError;

verus! {

/// These are the numbers of the errors of the contract.
pub proof fn errors_have_their_numbers()
    ensures
        FeeError::FeeNotFound.spec_code() == 1,
        FeeError::FeeInactive.spec_code() == 2,
        FeeError::InvalidFeeConfiguration.spec_code() == 3,
        FeeError::ArithmeticOverflow.spec_code() == 4,
        FeeError::FeeWaiverNotFound.spec_code() == 5,
        FeeError::TooManyRecipients.spec_code() == 6,
        FeeError::AlreadyInitialized.spec_code() == 7,
        FeeError::Unauthorized.spec_code() == 8,
        FeeError::FeeCapExceeded.spec_code() == 9,
        FeeError::InvalidFeeCategory.spec_code() == 10,
{
}

} // verus!
