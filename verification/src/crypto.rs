//! The hash functions and the public-key recovery that the feed relies on.
//! Their results are named here and computed by `solana_program`.

use vstd::prelude::*;

verus! {

/// The SHA-256 digest of a byte string, 32 bytes long.
pub uninterp spec fn sha256_digest(data: Seq<u8>) -> Seq<u8>;

/// The Keccak-256 digest of a byte string, 32 bytes long.
pub uninterp spec fn keccak256_digest(data: Seq<u8>) -> Seq<u8>;

/// The 64-byte secp256k1 public key that signed the 32-byte `hash` with the
/// 64-byte `signature` under the recovery id `recovery_id`, or why there is
/// none.
pub uninterp spec fn secp256k1_recovered(hash: Seq<u8>, recovery_id: u8, signature: Seq<u8>)
    -> Result<Seq<u8>, RecoverError>;

/// Why no public key could be recovered from a signature.
#[derive(Clone, Copy, Debug, PartialEq, Eq, Structural)]
pub enum RecoverError {
    InvalidHash,
    InvalidRecoveryId,
    InvalidSignature,
}

/// What a recovery hands out: the key's 64 bytes, or the failure.
pub type Recovered = Result<[u8; 64], RecoverError>;

/// A recovery's outcome with the key as a sequence of bytes.
pub open spec fn recovered_view(r: Recovered) -> Result<Seq<u8>, RecoverError> {
    match r {
        Ok(key) => Ok(key@),
        Err(e) => Err(e),
    }
}

/// Calls `solana_program::hash::hashv` on the one slice `data`. Trusted: the
/// result is the SHA-256 digest of `data`, as a function of its bytes alone.
#[verifier::external_body]
pub(crate) fn sha256(data: &[u8]) -> (digest: [u8; 32])
    ensures
        digest@ == sha256_digest(data@),
{
    solana_program::hash::hashv(&[data]).to_bytes()
}

/// Calls `solana_program::keccak::hash`. Trusted: the result is the
/// Keccak-256 digest of `data`, as a function of its bytes alone.
#[verifier::external_body]
pub(crate) fn keccak256(data: &[u8]) -> (digest: [u8; 32])
    ensures
        digest@ == keccak256_digest(data@),
{
    solana_program::keccak::hash(data).to_bytes()
}

/// Calls `solana_program::secp256k1_recover::secp256k1_recover` on a hash of
/// 32 bytes and a signature of 64. Trusted: the outcome is a function of the
/// three arguments alone; a recovered key is handed out as its 64 bytes, and
/// each of the three failures of the outside function as the variant of the
/// same name.
#[verifier::external_body]
pub(crate) fn secp256k1_recover(hash: &[u8], recovery_id: u8, signature: &[u8]) -> (r: Recovered)
    requires
        hash@.len() == 32,
        signature@.len() == 64,
    ensures
        recovered_view(r) == secp256k1_recovered(hash@, recovery_id, signature@),
{
    match solana_program::secp256k1_recover::secp256k1_recover(hash, recovery_id, signature) {
        Ok(key) => Ok(key.to_bytes()),
        Err(solana_program::secp256k1_recover::Secp256k1RecoverError::InvalidHash) => Err(
            RecoverError::InvalidHash,
        ),
        Err(solana_program::secp256k1_recover::Secp256k1RecoverError::InvalidRecoveryId) => Err(
            RecoverError::InvalidRecoveryId,
        ),
        Err(solana_program::secp256k1_recover::Secp256k1RecoverError::InvalidSignature) => Err(
            RecoverError::InvalidSignature,
        ),
    }
}

} // verus!
