//! The calls into `sha2` and `num-bigint`, each behind a small trusted
//! wrapper whose contract is what the called function is documented to do.
use crate::bytes::{be_value, is_minimal_be};
use sha2::Digest;
use vstd::prelude::*;

verus! {

/// The SHA-256 digest of `data` (FIPS 180-4), as computed by `sha2`.
pub uninterp spec fn sha256(data: Seq<u8>) -> Seq<u8>;

/// Calls `sha2::Sha256::digest` (the `Digest` trait's one-shot
/// new/update/finalize) on `data` and returns the 32 digest bytes.
/// Claimed: the result is `sha256(data@)`, a function of the bytes alone.
#[verifier::external_body]
pub(crate) fn sha256_digest(data: &[u8]) -> (digest: [u8; 32])
    ensures
        digest@ == sha256(data@),
{
    sha2::Sha256::digest(data).into()
}

/// Calls `num_bigint::BigUint::from_bytes_be` on both arguments, the
/// `Rem` impl of `BigUint`, and `BigUint::to_bytes_be` on the remainder.
/// Claimed: the result is the big-endian encoding of
/// `value mod modulus`, as `to_bytes_be` writes it: without leading zero
/// bytes, and the single byte `0` for zero. `Rem` panics on a zero
/// divisor, which `requires` rules out.
#[verifier::external_body]
pub(crate) fn biguint_rem_be(value: &[u8], modulus: &[u8]) -> (rem: Vec<u8>)
    requires
        be_value(modulus@) > 0,
    ensures
        be_value(rem@) == be_value(value@) % be_value(modulus@),
        is_minimal_be(rem@),
{
    (num_bigint::BigUint::from_bytes_be(value) % num_bigint::BigUint::from_bytes_be(
        modulus,
    )).to_bytes_be()
}

} // verus!
