use notifier::signing::{DecodeError, SigningKey};

#[test]
fn decodes_lowercase_hex() {
    let k = SigningKey::decode("6b6579").unwrap();
    assert_eq!(k.key_bytes().as_slice(), b"key");
}

#[test]
fn decodes_uppercase_and_mixed_hex() {
    let k = SigningKey::decode("6B6579").unwrap();
    assert_eq!(k.key_bytes().as_slice(), b"key");
    let m = SigningKey::decode("6b6579AbCd").unwrap();
    assert_eq!(m.key_bytes().as_slice(), &[0x6b, 0x65, 0x79, 0xab, 0xcd]);
}

#[test]
fn decodes_empty_hex_to_empty_key() {
    let k = SigningKey::decode("").unwrap();
    assert_eq!(k.key_bytes().len(), 0);
}

#[test]
fn rejects_odd_length_hex() {
    assert_eq!(
        SigningKey::decode("abc").unwrap_err(),
        DecodeError::InvalidHexEncoding
    );
}

#[test]
fn rejects_non_hex_characters() {
    assert_eq!(
        SigningKey::decode("zz").unwrap_err(),
        DecodeError::InvalidHexEncoding
    );
    assert_eq!(
        SigningKey::decode("0g").unwrap_err(),
        DecodeError::InvalidHexEncoding
    );
}

#[test]
fn hex_round_trip_preserves_key_material() {
    let material: Vec<u8> = (0u8..=255).collect();
    let encoded = hex::encode(&material);
    let k = SigningKey::decode(&encoded).unwrap();
    assert_eq!(k.key_bytes().as_slice(), material.as_slice());
}

#[test]
fn decoded_key_signs_like_original_bytes() {
    let material = b"an arbitrary signing secret".to_vec();
    let encoded = hex::encode(&material);
    let k = SigningKey::decode(&encoded).unwrap();
    let tag = k.sign(b"subscribe?node=n1");
    let ring_key = ring::hmac::Key::new(ring::hmac::HMAC_SHA256, &material);
    let expected = ring::hmac::sign(&ring_key, b"subscribe?node=n1");
    assert_eq!(tag.as_slice(), expected.as_ref());
}

#[test]
fn sign_matches_known_hmac_sha256_vector() {
    // RFC 4231, test case 2: key "Jefe", data "what do ya want for nothing?".
    let k = SigningKey::decode("4a656665").unwrap();
    let tag = k.sign(b"what do ya want for nothing?");
    assert_eq!(
        hex::encode(&tag),
        "5bdcc146bf60754e6a042426089575c75a003f089d2739839dec58b964ec3843"
    );
}
