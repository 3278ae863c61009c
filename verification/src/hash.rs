//! SHA-256 as the Soroban host computes it.

use vstd::prelude::*;

verus! {

#[verifier::external_type_specification]
#[verifier::external_body]
pub struct ExEnv(soroban_sdk::Env);

/// The SHA-256 digest of a byte string.
pub uninterp spec fn sha256_digest(data: Seq<u8>) -> Seq<u8>;

/// Hashes `data` with `soroban_sdk::crypto::Crypto::sha256` on the given environment.
///
/// Trusted: the result is taken to be `sha256_digest(data)`, a function of the bytes
/// alone. The host meters the call against the environment's budget and traps when
/// that budget runs out; that it does not run out is not stated.
#[verifier::external_body]
pub(crate) fn sha256(env: &soroban_sdk::Env, data: &[u8]) -> (digest: [u8; 32])
    ensures
        digest@ == sha256_digest(data@),
{
    env.crypto().sha256(&soroban_sdk::Bytes::from_slice(env, data)).to_array()
}

/// The premise that SHA-256 has no collisions: different byte strings have
/// different digests. Laws that need it take it as a precondition; nothing in
/// this crate assumes it.
pub open spec fn sha256_collision_free() -> bool {
    forall|a: Seq<u8>, b: Seq<u8>| #[trigger] sha256_digest(a) == #[trigger] sha256_digest(b) ==> a == b
}

} // verus!
