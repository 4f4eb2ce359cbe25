//! The signature oracle: BLS12-381 signature verification over serialized
//! keys, signatures and messages, together with the canonical encoding of a
//! block height as a signed message.

use dusk_bytes::Serializable;
use vstd::prelude::*;

verus! {

/// Whether `sig` is a valid BLS signature over the message `msg` under the
/// public key `pk`, each in its serialized form. The verdict is a pure
/// function of the three byte strings; the ledger only branches on it.
pub uninterp spec fn sig_verifies(pk: Seq<u8>, sig: Seq<u8>, msg: Seq<u8>) -> bool;

/// The message that authorizes a lifecycle step of a stake whose expiration
/// height is `h`: the canonical 32-byte encoding of the scalar-field element
/// with value `h`, that is, the 8 little-endian bytes of `h` followed by 24
/// zero bytes. Binding the signature to the exact current expiration height
/// prevents replaying the proof against a stale record.
pub open spec fn height_message(h: u64) -> Seq<u8> {
    vstd::bytes::spec_u64_to_le_bytes(h) + Seq::new(24, |i: int| 0u8)
}

/// Relies on `dusk_bls12_381::BlsScalar`: `BlsScalar::from(h)` is the field
/// element with value `h` (every `u64` lies below the field modulus), and
/// `to_bytes` is its canonical little-endian 32-byte encoding, so the result
/// is the little-endian bytes of `h` padded with zero bytes.
#[verifier::external_body]
pub(crate) fn height_message_bytes(h: u64) -> (r: [u8; 32])
    ensures
        r@ == height_message(h),
{
    dusk_bls12_381::BlsScalar::from(h).to_bytes()
}

/// Relies on `dusk_bls12_381_sign::APK::verify`, together with
/// `APK::from_bytes` and `Signature::from_bytes`: whether a signature
/// verifies is a function of the three byte strings alone, and byte strings
/// that decode to no key or to no signature verify nothing.
#[verifier::external_body]
pub(crate) fn bls_verify(pk: &[u8; 96], sig: &[u8; 48], msg: &[u8; 32]) -> (r: bool)
    ensures
        r == sig_verifies(pk@, sig@, msg@),
{
    let apk = match dusk_bls12_381_sign::APK::from_bytes(pk) {
        Ok(k) => k,
        Err(_) => return false,
    };
    let s = match dusk_bls12_381_sign::Signature::from_bytes(sig) {
        Ok(s) => s,
        Err(_) => return false,
    };
    apk.verify(&s, msg).is_ok()
}

} // verus!
