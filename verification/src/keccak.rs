//! Keccak-256, the hash that binds each player's mask to the table.
#[allow(deprecated)]
use solana_program::keccak;
use vstd::prelude::*;

verus! {

/// The Keccak-256 digest of `data` (32 bytes).
pub uninterp spec fn keccak256(data: Seq<u8>) -> Seq<u8>;

/// Hashes `data` with `solana_program::keccak::hash` (Keccak-256, computed in
/// process off-chain and by the `sol_keccak256` syscall on-chain). Claimed: the
/// digest is the function `keccak256` of the bytes and nothing else.
#[verifier::external_body]
pub(crate) fn keccak_hash(data: &[u8]) -> (digest: [u8; 32])
    ensures
        digest@ == keccak256(data@),
{
    keccak::hash(data).to_bytes()
}

} // verus!
