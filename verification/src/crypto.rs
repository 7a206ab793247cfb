//! ECDSA over secp256k1 as the coupon pipeline needs it: parsing keys and
//! signatures, recovering the signer's key and verifying.

use vstd::prelude::*;

verus! {

/// Whether 64 bytes are an ECDSA signature `r || s` with both scalars in range.
pub uninterp spec fn signature_well_formed(signature: Seq<u8>) -> bool;

/// The uncompressed SEC1 encoding of the curve point that a SEC1 encoded key
/// denotes, if it denotes one.
pub uninterp spec fn sec1_point(key: Seq<u8>) -> Option<Seq<u8>>;

/// The uncompressed SEC1 encoding of the key recovered from a message, its
/// signature and a parity bit, if recovery succeeds.
pub uninterp spec fn recovered_key(message: Seq<u8>, signature: Seq<u8>, parity: u8) -> Option<
    Seq<u8>,
>;

/// Whether a signature is valid for the SHA-256 digest of a message under the
/// key with the given uncompressed SEC1 encoding.
pub uninterp spec fn signature_verifies(point: Seq<u8>, message: Seq<u8>, signature: Seq<u8>) -> bool;

/// The uncompressed form of a 33-byte compressed secp256k1 public key, if the
/// bytes are one.
pub uninterp spec fn decompressed_key(key: Seq<u8>) -> Option<Seq<u8>>;

/// `Signature::try_from` of `k256::ecdsa` on a byte slice: whether it accepts
/// the bytes. It accepts 64 bytes only.
#[verifier::external_body]
pub(crate) fn is_signature(signature: &[u8]) -> (ok: bool)
    ensures
        ok == signature_well_formed(signature@),
        ok ==> signature@.len() == 64,
{
    k256::ecdsa::Signature::try_from(signature).is_ok()
}

/// `VerifyingKey::from_sec1_bytes` of `k256::ecdsa`: the key in uncompressed
/// SEC1 form, or nothing where the bytes are no key.
#[verifier::external_body]
pub(crate) fn parse_sec1_key(key: &[u8]) -> (point: Option<Vec<u8>>)
    ensures
        point is Some == sec1_point(key@) is Some,
        point matches Some(p) ==> Some(p@) == sec1_point(key@),
{
    match k256::ecdsa::VerifyingKey::from_sec1_bytes(key) {
        Ok(parsed) => Some(parsed.to_encoded_point(false).as_bytes().to_vec()),
        Err(_) => None,
    }
}

/// `VerifyingKey::recover_from_msg` of `k256::ecdsa`: the recovered key in
/// uncompressed SEC1 form. The crate checks the signature against the key it
/// recovered before it hands the key out.
#[verifier::external_body]
pub(crate) fn recover_key(message: &[u8], signature: &[u8], parity: u8) -> (point: Option<Vec<u8>>)
    requires
        signature_well_formed(signature@),
        parity <= 1,
    ensures
        point is Some == recovered_key(message@, signature@, parity) is Some,
        point matches Some(p) ==> Some(p@) == recovered_key(message@, signature@, parity)
            && signature_verifies(p@, message@, signature@),
{
    let parsed = k256::ecdsa::Signature::try_from(signature).unwrap();
    let id = k256::ecdsa::RecoveryId::from_byte(parity).unwrap();
    match k256::ecdsa::VerifyingKey::recover_from_msg(message, &parsed, id) {
        Ok(key) => Some(key.to_encoded_point(false).as_bytes().to_vec()),
        Err(_) => None,
    }
}

/// `Verifier::verify` of a `k256::ecdsa::VerifyingKey`: whether the signature
/// is valid for the message under the key.
#[verifier::external_body]
pub(crate) fn verify_signature(key: &[u8], message: &[u8], signature: &[u8]) -> (ok: bool)
    requires
        sec1_point(key@) is Some,
        signature_well_formed(signature@),
    ensures
        ok == signature_verifies(sec1_point(key@)->0, message@, signature@),
{
    let parsed = k256::ecdsa::Signature::try_from(signature).unwrap();
    let verifying = k256::ecdsa::VerifyingKey::from_sec1_bytes(key).unwrap();
    k256::ecdsa::signature::Verifier::verify(&verifying, message, &parsed).is_ok()
}

/// `PublicKey::parse_slice` of `libsecp256k1` in its compressed format, then
/// `serialize`: the 65-byte uncompressed key, or nothing where the bytes are
/// no compressed key.
#[verifier::external_body]
pub(crate) fn decompress_key(key: &[u8]) -> (point: Option<Vec<u8>>)
    ensures
        point is Some == decompressed_key(key@) is Some,
        point matches Some(p) ==> Some(p@) == decompressed_key(key@) && p@.len() == 65,
{
    match libsecp256k1::PublicKey::parse_slice(key, Some(libsecp256k1::PublicKeyFormat::Compressed)) {
        Ok(parsed) => Some(parsed.serialize().to_vec()),
        Err(_) => None,
    }
}

/// Which of the candidate keys of a signature is the signer's: bit 0 says
/// whether the y-coordinate of the ephemeral point is odd, bit 1 whether its
/// x-coordinate was reduced.
#[derive(Clone, Copy, Debug, PartialEq, Eq, Structural)]
pub struct RecoveryId {
    recid: u8,
}

impl RecoveryId {
    #[verifier::type_invariant]
    spec fn in_range(&self) -> bool {
        self.recid <= 3
    }

    pub closed spec fn byte(&self) -> u8 {
        self.recid
    }

    /// The recovery id of a byte, if the byte is one: a number up to 3.
    pub fn from_byte(byte: u8) -> (id: Option<Self>)
        ensures
            id is Some == (byte <= 3),
            id matches Some(r) ==> r.byte() == byte,
    {
        if byte <= 3 {
            Some(RecoveryId { recid: byte })
        } else {
            None
        }
    }

    /// Whether the y-coordinate of the ephemeral point is odd.
    pub fn is_y_odd(&self) -> (odd: bool)
        ensures
            odd == (self.byte() % 2 == 1),
    {
        self.recid % 2 == 1
    }

    /// Whether the x-coordinate of the ephemeral point was reduced.
    pub fn is_x_reduced(&self) -> (reduced: bool)
        ensures
            reduced == (self.byte() >= 2),
    {
        proof {
            use_type_invariant(self);
        }
        self.recid >= 2
    }

    pub fn to_byte(&self) -> (byte: u8)
        ensures
            byte == self.byte(),
            byte <= 3,
    {
        proof {
            use_type_invariant(self);
        }
        self.recid
    }
}

} // verus!
