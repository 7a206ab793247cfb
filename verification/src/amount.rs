//! Token amounts: natural numbers of any size, held as little-endian bytes.

use vstd::prelude::*;

use crate::principal::copy_bytes;
use crate::text::decimal_text;

verus! {

/// 256 to the power of `k`.
pub open spec fn pow256(k: nat) -> nat
    decreases k,
{
    if k == 0 {
        1
    } else {
        256 * pow256((k - 1) as nat)
    }
}

/// The number that little-endian bytes denote.
pub open spec fn le_value(bytes: Seq<u8>) -> nat
    decreases bytes.len(),
{
    if bytes.len() == 0 {
        0
    } else {
        le_value(bytes.drop_last()) + bytes.last() as nat * pow256((bytes.len() - 1) as nat)
    }
}

/// The number that a decimal numeral denotes: none for an empty text or one
/// that holds anything but digits.
pub open spec fn decimal_value(text: Seq<char>) -> Option<nat>
    decreases text.len(),
{
    if text.len() == 0 {
        None
    } else {
        let c = text.last();
        if !('0' <= c <= '9') {
            None
        } else if text.len() == 1 {
            Some((c as u32 - '0' as u32) as nat)
        } else {
            match decimal_value(text.drop_last()) {
                Some(front) => Some(front * 10 + (c as u32 - '0' as u32) as nat),
                None => None,
            }
        }
    }
}

/// `BigUint::to_str_radix` of `num_bigint` with radix 10, on the number that
/// the little-endian bytes denote (`BigUint::from_bytes_le`): its decimal
/// numeral.
#[verifier::external_body]
pub(crate) fn big_decimal(bytes: &[u8]) -> (text: String)
    ensures
        text@ == decimal_text(le_value(bytes@)),
{
    num_bigint::BigUint::from_bytes_le(bytes).to_str_radix(10)
}

/// `<` on two `BigUint` of `num_bigint`, each made by `BigUint::from_bytes_le`.
#[verifier::external_body]
pub(crate) fn big_less(a: &[u8], b: &[u8]) -> (less: bool)
    ensures
        less == (le_value(a@) < le_value(b@)),
{
    num_bigint::BigUint::from_bytes_le(a) < num_bigint::BigUint::from_bytes_le(b)
}

/// A token amount.
#[derive(Debug, PartialEq, Eq)]
pub struct Amount {
    bytes: Vec<u8>,
}

impl View for Amount {
    type V = nat;

    closed spec fn view(&self) -> nat {
        le_value(self.bytes@)
    }
}

pub proof fn lemma_le_value_push(bytes: Seq<u8>, b: u8)
    ensures
        le_value(bytes.push(b)) == le_value(bytes) + b as nat * pow256(bytes.len()),
{
    assert(bytes.push(b).drop_last() =~= bytes);
}

impl Amount {
    pub fn zero() -> (a: Self)
        ensures
            a@ == 0,
    {
        Amount { bytes: Vec::new() }
    }

    /// The amount that little-endian bytes denote. Zero bytes at the high end
    /// are dropped, so that equal amounts are held alike.
    pub fn from_le_bytes(bytes: Vec<u8>) -> (a: Self)
        ensures
            a@ == le_value(bytes@),
    {
        let ghost given = bytes@;
        let mut bytes = bytes;
        while bytes.len() > 0 && bytes[bytes.len() - 1] == 0
            invariant
                le_value(bytes@) == le_value(given),
            decreases bytes.len(),
        {
            proof {
                assert(bytes@.last() == 0);
                assert(0 * pow256((bytes@.len() - 1) as nat) == 0) by (nonlinear_arith);
                assert(bytes@.last() as nat * pow256((bytes@.len() - 1) as nat) == 0);
                assert(le_value(bytes@) == le_value(bytes@.drop_last()));
            }
            let _ = bytes.pop();
        }
        Amount { bytes }
    }

    /// Little-endian bytes that denote the amount.
    pub fn as_le_bytes(&self) -> (bytes: &Vec<u8>)
        ensures
            le_value(bytes@) == self@,
    {
        &self.bytes
    }

    pub fn from_u64(n: u64) -> (a: Self)
        ensures
            a@ == n,
    {
        let mut bytes: Vec<u8> = Vec::new();
        let mut rest: u64 = n;
        assert(pow256(0) == 1 && le_value(bytes@) == 0);
        while rest > 0
            invariant
                n == le_value(bytes@) + rest * pow256(bytes@.len()),
            decreases rest,
        {
            let digit: u8 = (rest % 256) as u8;
            proof {
                lemma_le_value_push(bytes@, digit);
                let p = pow256(bytes@.len());
                assert(pow256((bytes@.len() + 1) as nat) == 256 * p);
                assert(digit as nat * p + (rest / 256) as nat * (256 * p) == rest as nat * p)
                    by (nonlinear_arith)
                    requires
                        digit as nat == rest as nat % 256,
                ;
            }
            bytes.push(digit);
            rest = rest / 256;
        }
        Amount { bytes }
    }

    pub fn is_zero(&self) -> (zero: bool)
        ensures
            zero == (self@ == 0),
    {
        let empty: Vec<u8> = Vec::new();
        !big_less(empty.as_slice(), self.bytes.as_slice())
    }

    pub fn less_than(&self, other: &Amount) -> (less: bool)
        ensures
            less == (self@ < other@),
    {
        big_less(self.bytes.as_slice(), other.bytes.as_slice())
    }

    /// The decimal numeral of the amount.
    pub fn to_decimal(&self) -> (text: String)
        ensures
            text@ == decimal_text(self@),
    {
        big_decimal(self.bytes.as_slice())
    }

}

impl Clone for Amount {
    fn clone(&self) -> (a: Self)
        ensures
            a@ == self@,
    {
        Amount { bytes: copy_bytes(&self.bytes) }
    }
}

} // verus!
