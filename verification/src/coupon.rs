//! Coupons: the signed, canonical record of a burn that the program on the
//! other chain accepts for the release of funds.

use vstd::prelude::*;
use vstd::string::*;
use vstd::utf8::encode_utf8;

use crate::codec::{hex_bytes, hex_decode, hex_encode, hex_text, sha256, sha256_digest};
use crate::crypto::{
    is_signature, parse_sec1_key, recover_key, recovered_key, sec1_point, signature_verifies,
    signature_well_formed, verify_signature,
};
use crate::principal::same_bytes;

verus! {

/// A signed withdrawal, ready to be redeemed.
#[derive(Debug, PartialEq, Eq)]
pub struct Coupon {
    /// The canonical message that was signed.
    pub message: String,
    /// SHA-256 of the message, in hexadecimal.
    pub message_hash: String,
    /// The 64-byte signature `r || s`, in hexadecimal.
    pub signature_hex: String,
    /// The signer's uncompressed SEC1 public key, in hexadecimal.
    pub icp_public_key_hex: String,
    /// Which of the two candidate keys is the signer's.
    pub recovery_id: Option<u8>,
}

pub struct CouponView {
    pub message: Seq<char>,
    pub message_hash: Seq<char>,
    pub signature_hex: Seq<char>,
    pub icp_public_key_hex: Seq<char>,
    pub recovery_id: Option<u8>,
}

impl View for Coupon {
    type V = CouponView;

    open spec fn view(&self) -> CouponView {
        CouponView {
            message: self.message@,
            message_hash: self.message_hash@,
            signature_hex: self.signature_hex@,
            icp_public_key_hex: self.icp_public_key_hex@,
            recovery_id: self.recovery_id,
        }
    }
}

impl Clone for Coupon {
    fn clone(&self) -> (c: Self)
        ensures
            c@ == self@,
    {
        Coupon {
            message: self.message.clone(),
            message_hash: self.message_hash.clone(),
            signature_hex: self.signature_hex.clone(),
            icp_public_key_hex: self.icp_public_key_hex.clone(),
            recovery_id: self.recovery_id,
        }
    }
}

impl Coupon {
    /// A coupon whose recovery id is still to be found.
    pub fn new(
        message: String,
        message_hash: String,
        signature_hex: String,
        icp_public_key_hex: String,
    ) -> (c: Self)
        ensures
            c@ == (CouponView {
                message: message@,
                message_hash: message_hash@,
                signature_hex: signature_hex@,
                icp_public_key_hex: icp_public_key_hex@,
                recovery_id: None,
            }),
    {
        Self { message, message_hash, signature_hex, icp_public_key_hex, recovery_id: None }
    }
}

/// Why a coupon could not be completed or checked.
#[derive(Clone, Debug, PartialEq, Eq)]
pub enum CouponError {
    /// The signature or the key is not hexadecimal text.
    HexDecodingError,
    /// The signature or the key is not what its bytes should be.
    DeserializationError,
    /// No key can be recovered from the signature.
    RecoveryError,
    /// Neither candidate key is the signer's.
    ParityRecoveryFailed { signature: String, pubkey: String },
}

/// What a principal has withdrawn: the coupons of the redeemed withdrawals and
/// the burn ids of those that wait for a coupon.
#[derive(Debug, PartialEq, Eq)]
pub struct UserWithdrawInfo {
    pub coupons: Vec<Coupon>,
    pub burn_ids: Vec<u64>,
}

/// The bytes of a byte string that may be absent.
pub open spec fn optional_bytes(bytes: Option<Vec<u8>>) -> Option<Seq<u8>> {
    match bytes {
        Some(b) => Some(b@),
        None => None,
    }
}

/// Which of two recovered candidate keys is the signer's key. The first
/// candidate is looked at first; a candidate that could not be recovered ends
/// the search with an error, unless an earlier one was the key.
pub open spec fn parity_choice(key: Seq<u8>, first: Option<Seq<u8>>, second: Option<Seq<u8>>) -> Result<
    u8,
    ParityFault,
> {
    match first {
        None => Err(ParityFault::Recovery),
        Some(a) => if a == key {
            Ok(0u8)
        } else {
            match second {
                None => Err(ParityFault::Recovery),
                Some(b) => if b == key {
                    Ok(1u8)
                } else {
                    Err(ParityFault::NoMatch)
                },
            }
        },
    }
}

/// Why no parity was found.
#[derive(Clone, Copy, Debug, PartialEq, Eq, Structural)]
pub enum ParityFault {
    /// A candidate key could not be recovered.
    Recovery,
    /// Neither candidate is the key.
    NoMatch,
}

/// What the search for the recovery id of a coupon comes to.
pub enum ParityOutcome {
    Found(u8),
    HexDecodingError,
    DeserializationError,
    RecoveryError,
    ParityRecoveryFailed,
}

impl CouponView {
    /// The bytes of the message, as they were signed.
    pub open spec fn message_bytes(self) -> Seq<u8> {
        encode_utf8(self.message)
    }

    /// What the search for the recovery id comes to: the signature is decoded
    /// and parsed, then the key, then the two candidates are tried in turn.
    pub open spec fn parity_outcome(self) -> ParityOutcome {
        match hex_bytes(self.signature_hex) {
            None => ParityOutcome::HexDecodingError,
            Some(signature) => if !signature_well_formed(signature) {
                ParityOutcome::DeserializationError
            } else {
                match hex_bytes(self.icp_public_key_hex) {
                    None => ParityOutcome::HexDecodingError,
                    Some(key) => match sec1_point(key) {
                        None => ParityOutcome::DeserializationError,
                        Some(point) => match parity_choice(
                            point,
                            recovered_key(self.message_bytes(), signature, 0),
                            recovered_key(self.message_bytes(), signature, 1),
                        ) {
                            Ok(parity) => ParityOutcome::Found(parity),
                            Err(ParityFault::Recovery) => ParityOutcome::RecoveryError,
                            Err(ParityFault::NoMatch) => ParityOutcome::ParityRecoveryFailed,
                        },
                    },
                }
            },
        }
    }

    /// What checking the coupon comes to: both texts are decoded, then the
    /// signature and the key are parsed, then the signature is verified.
    pub open spec fn verify_outcome(self) -> Result<bool, CouponError> {
        match hex_bytes(self.signature_hex) {
            None => Err(CouponError::HexDecodingError),
            Some(signature) => match hex_bytes(self.icp_public_key_hex) {
                None => Err(CouponError::HexDecodingError),
                Some(key) => if !signature_well_formed(signature) {
                    Err(CouponError::DeserializationError)
                } else {
                    match sec1_point(key) {
                        None => Err(CouponError::DeserializationError),
                        Some(point) => Ok(
                            signature_verifies(point, self.message_bytes(), signature),
                        ),
                    }
                },
            },
        }
    }

    /// A coupon is sound where its signature and its key decode and parse,
    /// the key recovered under its recovery id is its key, and the signature
    /// is valid for its message under that key.
    pub open spec fn is_sound(self) -> bool {
        &&& hex_bytes(self.signature_hex) is Some
        &&& signature_well_formed(hex_bytes(self.signature_hex)->0)
        &&& hex_bytes(self.icp_public_key_hex) is Some
        &&& sec1_point(hex_bytes(self.icp_public_key_hex)->0) is Some
        &&& self.recovery_id is Some
        &&& self.recovery_id->0 <= 1
        &&& recovered_key(
            self.message_bytes(),
            hex_bytes(self.signature_hex)->0,
            self.recovery_id->0,
        ) == sec1_point(hex_bytes(self.icp_public_key_hex)->0)
        &&& signature_verifies(
            sec1_point(hex_bytes(self.icp_public_key_hex)->0)->0,
            self.message_bytes(),
            hex_bytes(self.signature_hex)->0,
        )
    }
}

impl CouponError {
    /// The variant of the error.
    pub open spec fn outcome(self) -> ParityOutcome {
        match self {
            CouponError::HexDecodingError => ParityOutcome::HexDecodingError,
            CouponError::DeserializationError => ParityOutcome::DeserializationError,
            CouponError::RecoveryError => ParityOutcome::RecoveryError,
            CouponError::ParityRecoveryFailed { .. } => ParityOutcome::ParityRecoveryFailed,
        }
    }

    /// The error in words.
    pub open spec fn text(self) -> Seq<char> {
        match self {
            CouponError::HexDecodingError => "Failed to hex-decode"@,
            CouponError::DeserializationError => "Failed to deserialize"@,
            CouponError::RecoveryError => "Failed to recover key"@,
            CouponError::ParityRecoveryFailed { signature, pubkey } =>
                "Failed to recover the parity bit from a signature: "@ + signature@ + ", pubkey: "@
                    + pubkey@,
        }
    }

    /// The error in words.
    pub fn to_text(&self) -> (text: String)
        ensures
            text@ == self.text(),
    {
        match self {
            CouponError::HexDecodingError => "Failed to hex-decode".to_owned(),
            CouponError::DeserializationError => "Failed to deserialize".to_owned(),
            CouponError::RecoveryError => "Failed to recover key".to_owned(),
            CouponError::ParityRecoveryFailed { signature, pubkey } => {
                let mut text = "Failed to recover the parity bit from a signature: ".to_owned();
                text.append(signature.as_str());
                text.append(", pubkey: ");
                text.append(pubkey.as_str());
                text
            },
        }
    }
}

impl Coupon {
    /// Which of two recovered candidate keys is the key of the coupon.
    pub fn parity_of(key: &Vec<u8>, first: &Option<Vec<u8>>, second: &Option<Vec<u8>>) -> (r:
        Result<u8, ParityFault>)
        ensures
            r == parity_choice(key@, optional_bytes(*first), optional_bytes(*second)),
    {
        match first {
            None => Err(ParityFault::Recovery),
            Some(a) => if same_bytes(a, key) {
                Ok(0)
            } else {
                match second {
                    None => Err(ParityFault::Recovery),
                    Some(b) => if same_bytes(b, key) {
                        Ok(1)
                    } else {
                        Err(ParityFault::NoMatch)
                    },
                }
            },
        }
    }

    /// Finds the recovery id of the coupon and keeps it: the parity under
    /// which the key recovered from the message and the signature is the key
    /// of the coupon. A coupon for which it is found is sound.
    pub fn y_parity(&mut self) -> (r: Result<u8, CouponError>)
        ensures
            match old(self)@.parity_outcome() {
                ParityOutcome::Found(parity) => {
                    &&& r == Ok::<u8, CouponError>(parity)
                    &&& final(self)@ == (CouponView { recovery_id: Some(parity), ..old(self)@ })
                    &&& final(self)@.is_sound()
                },
                fault => {
                    &&& r matches Err(e)
                    &&& r->Err_0.outcome() == fault
                    &&& final(self)@ == old(self)@
                    &&& r->Err_0 matches CouponError::ParityRecoveryFailed { signature, pubkey }
                        ==> signature@ == old(self)@.signature_hex && pubkey@
                        == old(self)@.icp_public_key_hex
                },
            },
    {
        let signature = match hex_decode(self.signature_hex.as_str()) {
            Some(signature) => signature,
            None => {
                return Err(CouponError::HexDecodingError);
            },
        };
        if !is_signature(signature.as_slice()) {
            return Err(CouponError::DeserializationError);
        }
        let key = match hex_decode(self.icp_public_key_hex.as_str()) {
            Some(key) => key,
            None => {
                return Err(CouponError::HexDecodingError);
            },
        };
        let point = match parse_sec1_key(key.as_slice()) {
            Some(point) => point,
            None => {
                return Err(CouponError::DeserializationError);
            },
        };
        let message = self.message.as_str().as_bytes_vec();
        let first = recover_key(message.as_slice(), signature.as_slice(), 0);
        let try_second = match &first {
            Some(a) => !same_bytes(a, &point),
            None => false,
        };
        let second = if try_second {
            recover_key(message.as_slice(), signature.as_slice(), 1)
        } else {
            None
        };
        match Self::parity_of(&point, &first, &second) {
            Ok(parity) => {
                self.recovery_id = Some(parity);
                Ok(parity)
            },
            Err(ParityFault::Recovery) => Err(CouponError::RecoveryError),
            Err(ParityFault::NoMatch) => Err(
                CouponError::ParityRecoveryFailed {
                    signature: self.signature_hex.clone(),
                    pubkey: self.icp_public_key_hex.clone(),
                },
            ),
        }
    }

    /// Whether the signature of the coupon is valid for its message under its
    /// key.
    pub fn verify(&self) -> (r: Result<bool, CouponError>)
        ensures
            r == self@.verify_outcome(),
    {
        let signature = match hex_decode(self.signature_hex.as_str()) {
            Some(signature) => signature,
            None => {
                return Err(CouponError::HexDecodingError);
            },
        };
        let key = match hex_decode(self.icp_public_key_hex.as_str()) {
            Some(key) => key,
            None => {
                return Err(CouponError::HexDecodingError);
            },
        };
        if !is_signature(signature.as_slice()) {
            return Err(CouponError::DeserializationError);
        }
        if parse_sec1_key(key.as_slice()).is_none() {
            return Err(CouponError::DeserializationError);
        }
        let message = self.message.as_str().as_bytes_vec();
        Ok(verify_signature(key.as_slice(), message.as_slice(), signature.as_slice()))
    }
}

/// The check of a sound coupon succeeds: its signature is valid.
pub proof fn lemma_sound_coupon_verifies(coupon: CouponView)
    requires
        coupon.is_sound(),
    ensures
        coupon.verify_outcome() == Ok::<bool, CouponError>(true),
{
}

/// A coupon whose recovery id was found recovers to its own key under that
/// id, and no other outcome of the search leaves a recovery id behind.
pub proof fn lemma_found_parity_recovers_key(coupon: CouponView, parity: u8)
    requires
        coupon.parity_outcome() == ParityOutcome::Found(parity),
    ensures
        parity <= 1,
        recovered_key(coupon.message_bytes(), hex_bytes(coupon.signature_hex)->0, parity)
            == sec1_point(hex_bytes(coupon.icp_public_key_hex)->0),
        sec1_point(hex_bytes(coupon.icp_public_key_hex)->0) is Some,
{
}

} // verus!
