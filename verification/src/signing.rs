//! Decoding a hex-encoded secret into HMAC-SHA256 key material.
//!
//! The secret arrives as a hex string in the process configuration; it is
//! decoded once at startup, and a failure there is fatal: the process must
//! not serve requests without a usable signing key. The key then signs
//! action links; no length restriction is placed on the key material, since
//! HMAC accepts keys of any length.

use vstd::prelude::*;

use crate::hexcode::{is_hex_digit, hex_digit_val, hex_digit_char, lemma_hex_digit_char_val};

verus! {

/// Why a configured secret could not be decoded.
#[derive(Debug, Clone, Copy, PartialEq, Eq, Structural)]
pub enum DecodeError {
    /// The secret is not valid hex: odd length or a non-hex character.
    InvalidHexEncoding,
}

/// A well-formed hex string: even length, hex digits only.
pub open spec fn is_hex_str(s: Seq<char>) -> bool {
    &&& s.len() % 2 == 0
    &&& forall|i: int| 0 <= i < s.len() ==> is_hex_digit(#[trigger] s[i])
}

/// The bytes a hex string denotes: two digits per byte, high nibble first.
pub open spec fn hex_bytes(s: Seq<char>) -> Seq<u8>
    recommends
        is_hex_str(s),
    decreases s.len(),
{
    if s.len() < 2 {
        Seq::empty()
    } else {
        seq![(hex_digit_val(s[0]) * 16 + hex_digit_val(s[1])) as u8] + hex_bytes(s.skip(2))
    }
}

/// The lowercase hex encoding of a byte sequence.
pub open spec fn hex_of(b: Seq<u8>) -> Seq<char>
    decreases b.len(),
{
    if b.len() == 0 {
        Seq::empty()
    } else {
        seq![hex_digit_char(b[0] as int / 16), hex_digit_char(b[0] as int % 16)] + hex_of(
            b.drop_first(),
        )
    }
}

/// The HMAC-SHA256 tag over a message, under a key. The tag is a function of
/// the key and the message alone; its value is not modelled here.
pub uninterp spec fn hmac_sha256(key: Seq<u8>, msg: Seq<u8>) -> Seq<u8>;

/// Relies on hex::decode: it succeeds exactly on even-length strings made of
/// the digits `0-9`, `a-f` and `A-F`, and returns one byte per digit pair,
/// high nibble first. hex::decode inspects the string's bytes; since hex
/// digits are ASCII, a string of hex digits has one byte per character, so
/// the byte-level check coincides with this character-level statement.
#[verifier::external_body]
fn hex_decode(s: &str) -> (r: Option<Vec<u8>>)
    ensures
        r is Some <==> is_hex_str(s@),
        r matches Some(v) ==> v@ == hex_bytes(s@),
{
    hex::decode(s).ok()
}

/// Relies on ring::hmac: `Key::new` takes the raw key bytes and `sign`
/// computes the HMAC-SHA256 tag over the message, a function of key and
/// message alone.
#[verifier::external_body]
fn hmac_sha256_sign(key: &Vec<u8>, msg: &[u8]) -> (r: Vec<u8>)
    ensures
        r@ == hmac_sha256(key@, msg@),
{
    let k = ring::hmac::Key::new(ring::hmac::HMAC_SHA256, key.as_slice());
    ring::hmac::sign(&k, msg).as_ref().to_vec()
}

/// HMAC-SHA256 key material, decoded once from the configured secret and
/// read-only afterwards.
#[derive(Debug)]
pub struct SigningKey {
    bytes: Vec<u8>,
}

impl View for SigningKey {
    type V = Seq<u8>;

    closed spec fn view(&self) -> Seq<u8> {
        self.bytes@
    }
}

impl SigningKey {
    /// Decodes a hex-encoded secret into key material. Fails exactly on
    /// malformed hex: odd length or a non-hex character.
    pub fn decode(hex_str: &str) -> (r: Result<SigningKey, DecodeError>)
        ensures
            r is Ok <==> is_hex_str(hex_str@),
            r matches Ok(k) ==> k@ == hex_bytes(hex_str@),
            r matches Err(e) ==> e == DecodeError::InvalidHexEncoding,
    {
        match hex_decode(hex_str) {
            Some(bytes) => Ok(SigningKey { bytes }),
            None => Err(DecodeError::InvalidHexEncoding),
        }
    }

    /// The raw key material.
    pub fn key_bytes(&self) -> (r: &Vec<u8>)
        ensures
            r@ == self@,
    {
        &self.bytes
    }

    /// Signs a message, returning its HMAC-SHA256 tag under this key.
    pub fn sign(&self, msg: &[u8]) -> (r: Vec<u8>)
        ensures
            r@ == hmac_sha256(self@, msg@),
    {
        hmac_sha256_sign(&self.bytes, msg)
    }
}

/// The hex encoding of a byte sequence has two digits per byte.
pub proof fn lemma_hex_of_len(b: Seq<u8>)
    ensures
        hex_of(b).len() == 2 * b.len(),
    decreases b.len(),
{
    if b.len() > 0 {
        lemma_hex_of_len(b.drop_first());
    }
}

/// Law: the hex round trip. Encoding any byte sequence to hex and decoding
/// it again yields the same key material, so a key decoded from the encoding
/// signs every message exactly as a key built from the original bytes would.
pub proof fn lemma_hex_round_trip(b: Seq<u8>)
    ensures
        is_hex_str(hex_of(b)),
        hex_bytes(hex_of(b)) == b,
        forall|msg: Seq<u8>| hmac_sha256(hex_bytes(hex_of(b)), msg) == hmac_sha256(b, msg),
    decreases b.len(),
{
    lemma_hex_of_len(b);
    let h = hex_of(b);
    if b.len() == 0 {
        assert(hex_bytes(h) =~= b);
    } else {
        let hi = b[0] as int / 16;
        let lo = b[0] as int % 16;
        lemma_hex_digit_char_val(hi);
        lemma_hex_digit_char_val(lo);
        lemma_hex_round_trip(b.drop_first());
        assert(h.skip(2) =~= hex_of(b.drop_first()));
        assert forall|i: int| 0 <= i < h.len() implies is_hex_digit(#[trigger] h[i]) by {
            if i >= 2 {
                assert(h[i] == h.skip(2)[i - 2]);
            }
        }
        assert(hex_digit_val(h[0]) * 16 + hex_digit_val(h[1]) == b[0]);
        assert(hex_bytes(h) =~= b);
    }
}

} // verus!
