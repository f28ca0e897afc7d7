use sodix::envelope::Envelope;
use sodix::errors::CryptoError;
use sodix::sealing::{decrypt, encrypt, fresh_encryption_pair};

#[test]
fn encrypt_decrypt_round_trip() {
    let alice = fresh_encryption_pair();
    let bob = fresh_encryption_pair();
    let plaintext = b"meet me at the usual place".to_vec();
    // Alice encrypts for Bob: Bob's public key, Alice's secret key.
    let env = encrypt(&bob.public_key, &alice.secret_key, &plaintext).unwrap();
    assert_eq!(env.nonce.len(), 24);
    assert_eq!(env.ciphertext.len(), plaintext.len() + 16);
    // Bob decrypts: Alice's public key, Bob's secret key.
    let wire = env.to_wire();
    assert_eq!(decrypt(&alice.public_key, &bob.secret_key, &wire).unwrap(), plaintext);
}

#[test]
fn encrypt_decrypt_empty_plaintext() {
    let alice = fresh_encryption_pair();
    let bob = fresh_encryption_pair();
    let plaintext = Vec::new();
    let env = encrypt(&bob.public_key, &alice.secret_key, &plaintext).unwrap();
    let wire = env.to_wire();
    // Empty plaintext gives the minimal envelope: nonce plus bare tag.
    assert_eq!(wire.len(), 40);
    assert_eq!(decrypt(&alice.public_key, &bob.secret_key, &wire).unwrap(), plaintext);
}

#[test]
fn decrypt_rejects_short_envelopes() {
    let alice = fresh_encryption_pair();
    let bob = fresh_encryption_pair();
    let short = vec![0u8; 39];
    assert_eq!(
        decrypt(&alice.public_key, &bob.secret_key, &short),
        Err(CryptoError::EnvelopeTooShort)
    );
    let empty: Vec<u8> = Vec::new();
    assert_eq!(
        decrypt(&alice.public_key, &bob.secret_key, &empty),
        Err(CryptoError::EnvelopeTooShort)
    );
}

#[test]
fn nonces_are_unique_across_calls() {
    let alice = fresh_encryption_pair();
    let bob = fresh_encryption_pair();
    let plaintext = b"identical input".to_vec();
    let first = encrypt(&bob.public_key, &alice.secret_key, &plaintext).unwrap();
    let second = encrypt(&bob.public_key, &alice.secret_key, &plaintext).unwrap();
    assert_ne!(first.nonce, second.nonce, "two encryptions must never share a nonce");
    assert_ne!(first.to_wire(), second.to_wire());
}

#[test]
fn tampering_with_any_ciphertext_byte_is_detected() {
    let alice = fresh_encryption_pair();
    let bob = fresh_encryption_pair();
    let plaintext = b"integrity matters".to_vec();
    let env = encrypt(&bob.public_key, &alice.secret_key, &plaintext).unwrap();
    let wire = env.to_wire();
    // Every byte after the nonce belongs to ciphertext or tag; corrupting
    // any of them must fail closed.
    for i in 24..wire.len() {
        let mut tampered = wire.clone();
        tampered[i] ^= 0x01;
        assert_eq!(
            decrypt(&alice.public_key, &bob.secret_key, &tampered),
            Err(CryptoError::DecryptionFailed),
            "corrupting byte {i} must make decryption fail"
        );
    }
}

#[test]
fn decrypt_rejects_wrong_secret_key() {
    let alice = fresh_encryption_pair();
    let bob = fresh_encryption_pair();
    let eve = fresh_encryption_pair();
    let plaintext = b"not for eve".to_vec();
    let env = encrypt(&bob.public_key, &alice.secret_key, &plaintext).unwrap();
    let wire = env.to_wire();
    assert_eq!(
        decrypt(&alice.public_key, &eve.secret_key, &wire),
        Err(CryptoError::DecryptionFailed)
    );
}

#[test]
fn encrypt_rejects_low_order_public_key() {
    // The all-zero public key is a low-order point; the primitive refuses
    // it rather than derive a zero shared secret. No generated public key
    // is ever low-order.
    let alice = fresh_encryption_pair();
    let zero_pk = vec![0u8; 32];
    let plaintext = b"never sealed".to_vec();
    assert!(matches!(
        encrypt(&zero_pk, &alice.secret_key, &plaintext),
        Err(CryptoError::EncryptionFailed)
    ));
}

#[test]
fn envelope_hex_round_trip() {
    let alice = fresh_encryption_pair();
    let bob = fresh_encryption_pair();
    let plaintext = b"wire format".to_vec();
    let env = encrypt(&bob.public_key, &alice.secret_key, &plaintext).unwrap();
    let text = env.encode_hex();
    assert_eq!(text.len(), 2 * (env.nonce.len() + env.ciphertext.len()));
    let back = Envelope::decode_hex(&text).unwrap();
    assert_eq!(back.nonce, env.nonce);
    assert_eq!(back.ciphertext, env.ciphertext);
}

#[test]
fn envelope_decode_hex_rejects_malformed_text() {
    assert!(matches!(Envelope::decode_hex(b"zz"), Err(CryptoError::InvalidHexEncoding)));
    // 39 decoded bytes cannot hold a nonce and a tag.
    let short_hex: Vec<u8> = b"00".repeat(39);
    assert!(matches!(Envelope::decode_hex(&short_hex), Err(CryptoError::EnvelopeTooShort)));
}

#[test]
fn envelope_from_wire_splits_nonce_and_ciphertext() {
    let mut wire: Vec<u8> = Vec::new();
    for i in 0..48u8 {
        wire.push(i);
    }
    let env = Envelope::from_wire(&wire).unwrap();
    assert_eq!(env.nonce, (0u8..24).collect::<Vec<u8>>());
    assert_eq!(env.ciphertext, (24u8..48).collect::<Vec<u8>>());
}
