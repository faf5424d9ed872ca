//! The content hash.

use vstd::prelude::*;

verus! {

/// The Keccak-256 digest of `data`.
pub uninterp spec fn keccak256_digest(data: Seq<u8>) -> Seq<u8>;

/// Calls `alloy_primitives::keccak256`. The contract names its result and
/// claims that it is 32 bytes long, which the result type `B256` shows.
#[verifier::external_body]
pub(crate) fn keccak256(data: &[u8]) -> (digest: Vec<u8>)
    ensures
        digest@ == keccak256_digest(data@),
        digest@.len() == 32,
{
    alloy_primitives::keccak256(data).0.to_vec()
}

} // verus!
