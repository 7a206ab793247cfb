//! Encodings that the pipelines rely on: hexadecimal text, standard base64,
//! SHA-256 and the CBOR head of an unsigned integer.

use vstd::prelude::*;

verus! {

/// The lower-case character of a hexadecimal digit.
pub open spec fn hex_digit(v: nat) -> char
    recommends
        v < 16,
{
    if v == 0 {
        '0'
    } else if v == 1 {
        '1'
    } else if v == 2 {
        '2'
    } else if v == 3 {
        '3'
    } else if v == 4 {
        '4'
    } else if v == 5 {
        '5'
    } else if v == 6 {
        '6'
    } else if v == 7 {
        '7'
    } else if v == 8 {
        '8'
    } else if v == 9 {
        '9'
    } else if v == 10 {
        'a'
    } else if v == 11 {
        'b'
    } else if v == 12 {
        'c'
    } else if v == 13 {
        'd'
    } else if v == 14 {
        'e'
    } else {
        'f'
    }
}

/// Two lower-case hexadecimal digits per byte, high nibble first.
pub open spec fn hex_text(bytes: Seq<u8>) -> Seq<char>
    decreases bytes.len(),
{
    if bytes.len() == 0 {
        Seq::empty()
    } else {
        hex_text(bytes.drop_last()).push(hex_digit((bytes.last() / 16) as nat)).push(
            hex_digit((bytes.last() % 16) as nat),
        )
    }
}

/// The value of a hexadecimal digit of either case.
pub open spec fn hex_value(c: char) -> Option<nat> {
    if '0' <= c <= '9' {
        Some((c as u32 - '0' as u32) as nat)
    } else if 'a' <= c <= 'f' {
        Some((c as u32 - 'a' as u32 + 10) as nat)
    } else if 'A' <= c <= 'F' {
        Some((c as u32 - 'A' as u32 + 10) as nat)
    } else {
        None
    }
}

/// The bytes that a hexadecimal text denotes: none for a text of odd length
/// or one that holds anything but hexadecimal digits.
pub open spec fn hex_bytes(text: Seq<char>) -> Option<Seq<u8>>
    decreases text.len(),
{
    if text.len() == 0 {
        Some(Seq::empty())
    } else if text.len() == 1 {
        None
    } else {
        let high = hex_value(text[text.len() - 2]);
        let low = hex_value(text[text.len() - 1]);
        let front = hex_bytes(text.subrange(0, text.len() - 2));
        if high is Some && low is Some && front is Some {
            Some(front->0.push((high->0 * 16 + low->0) as u8))
        } else {
            None
        }
    }
}

/// `hex::encode`: lower-case hexadecimal, two digits per byte.
#[verifier::external_body]
pub(crate) fn hex_encode(bytes: &[u8]) -> (text: String)
    ensures
        text@ == hex_text(bytes@),
{
    hex::encode(bytes)
}

/// `hex::decode`: the bytes of a text of hexadecimal digits of either case;
/// nothing for an odd length or another character.
#[verifier::external_body]
pub(crate) fn hex_decode(text: &str) -> (bytes: Option<Vec<u8>>)
    ensures
        bytes is Some == hex_bytes(text@) is Some,
        bytes matches Some(b) ==> Some(b@) == hex_bytes(text@),
{
    match hex::decode(text) {
        Ok(bytes) => Some(bytes),
        Err(_) => None,
    }
}

/// The SHA-256 digest of a byte string.
pub uninterp spec fn sha256_digest(data: Seq<u8>) -> Seq<u8>;

/// `Sha256::digest` of the `sha2` crate: the 32-byte SHA-256 digest.
#[verifier::external_body]
pub(crate) fn sha256(data: &[u8]) -> (digest: Vec<u8>)
    ensures
        digest@ == sha256_digest(data@),
        digest@.len() == 32,
{
    <sha2::Sha256 as sha2::Digest>::digest(data).to_vec()
}

/// What the standard base64 alphabet with canonical padding decodes a text to.
pub uninterp spec fn base64_decoding(text: Seq<char>) -> Option<Seq<u8>>;

/// `Engine::decode` of `base64` on its `STANDARD` engine.
#[verifier::external_body]
pub(crate) fn base64_decode(text: &str) -> (bytes: Option<Vec<u8>>)
    ensures
        bytes is Some == base64_decoding(text@) is Some,
        bytes matches Some(b) ==> Some(b@) == base64_decoding(text@),
{
    match base64::Engine::decode(&base64::engine::general_purpose::STANDARD, text) {
        Ok(bytes) => Some(bytes),
        Err(_) => None,
    }
}

/// The `width` low bytes of `n`, most significant first.
pub open spec fn be_bytes(n: nat, width: nat) -> Seq<u8>
    decreases width,
{
    if width == 0 {
        Seq::empty()
    } else {
        be_bytes(n / 256, (width - 1) as nat).push((n % 256) as u8)
    }
}

/// The CBOR encoding of an unsigned integer: major type 0 in the shortest form.
pub open spec fn cbor_unsigned(n: u64) -> Seq<u8> {
    if n <= 23 {
        seq![n as u8]
    } else if n <= 0xff {
        seq![24u8] + be_bytes(n as nat, 1)
    } else if n <= 0xffff {
        seq![25u8] + be_bytes(n as nat, 2)
    } else if n <= 0xffff_ffff {
        seq![26u8] + be_bytes(n as nat, 4)
    } else {
        seq![27u8] + be_bytes(n as nat, 8)
    }
}

pub proof fn lemma_be_bytes_len(n: nat, width: nat)
    ensures
        be_bytes(n, width).len() == width,
    decreases width,
{
    if width > 0 {
        lemma_be_bytes_len(n / 256, (width - 1) as nat);
    }
}

/// `serde_cbor::to_vec` on a `u64`: the integer in CBOR's shortest form.
#[verifier::external_body]
pub(crate) fn cbor_encode_u64(n: u64) -> (bytes: Vec<u8>)
    ensures
        bytes@ == cbor_unsigned(n),
{
    serde_cbor::to_vec(&n).unwrap_or_default()
}

} // verus!
