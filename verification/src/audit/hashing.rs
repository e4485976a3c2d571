//! SHA-256 through the contract host.

use vstd::prelude::*;

verus! {

/// Longest input that is hashed, well within the default metering budget of
/// the host.
pub const MAX_HASH_INPUT: usize = 1_048_576;

/// The SHA-256 hash of a byte string, as thirty-two bytes.
pub uninterp spec fn sha256_of(data: Seq<u8>) -> Seq<u8>;

/// `soroban_sdk::crypto::Crypto::sha256` on a host of its own. The result is
/// the SHA-256 hash of the input, a function of the input alone. The host
/// meters the work and stops on inputs that exceed its default budget, so
/// longer inputs are left out.
#[verifier::external_body]
pub(crate) fn sha256(data: &[u8]) -> (r: [u8; 32])
    requires
        data@.len() <= MAX_HASH_INPUT,
    ensures
        r@ == sha256_of(data@),
{
    let env = soroban_sdk::Env::default();
    let bytes = soroban_sdk::Bytes::from_slice(&env, data);
    env.crypto().sha256(&bytes).to_array()
}

} // verus!
