use aliaser::crypto::{
    decrypt, derive_key, encrypt, generate_salt, hash_password, hash_password_with_salt, random_array,
    seal_with_nonce, verify_password,
    NONCE_SIZE, TAG_SIZE,
};
use aliaser::error::VaultError;
use std::collections::HashSet;

#[test]
fn test_encryption_decryption() {
    let key = [0u8; 32];
    let data = b"Hello, World!";

    let encrypted = encrypt(data, &key).unwrap();
    let decrypted = decrypt(&encrypted, &key).unwrap();

    assert_eq!(data, decrypted.as_slice());
}

#[test]
fn test_password_hashing() {
    let password = "super_secret_password";
    let hash = hash_password(password).unwrap();

    assert!(verify_password(password, &hash).unwrap());
    assert!(!verify_password("wrong_password", &hash).unwrap());
}

#[test]
fn hash_is_not_the_password() {
    let hash = hash_password("super_secret_password").unwrap();
    assert_ne!(hash, "super_secret_password");
    assert!(hash.starts_with("$argon2id$"));
}

#[test]
fn verify_rejects_unparsable_hash() {
    assert_eq!(verify_password("pw", "not a hash"), Err(VaultError::FormatError));
}

#[test]
fn derive_key_is_deterministic() {
    let salt = [1u8; 32];
    let k1 = derive_key("correct horse battery staple", &salt).unwrap();
    let k2 = derive_key("correct horse battery staple", &salt).unwrap();
    assert_eq!(k1, k2);
}

#[test]
fn derive_key_known_value() {
    let salt = [1u8; 32];
    let k = derive_key("correct horse battery staple", &salt).unwrap();
    let expected: [u8; 32] = [
        25, 21, 105, 150, 102, 11, 250, 8, 220, 193, 211, 166, 30, 26, 214, 250, 3, 162, 225, 16,
        236, 48, 26, 208, 138, 88, 109, 90, 182, 137, 82, 156,
    ];
    assert_eq!(k, expected);
}

#[test]
fn derive_key_rejects_short_salt() {
    assert_eq!(derive_key("pw", &[0u8; 7]), Err(VaultError::DerivationError));
}

#[test]
fn salts_are_fresh() {
    assert_ne!(generate_salt().unwrap(), generate_salt().unwrap());
}

#[test]
fn seal_with_nonce_known_value() {
    let blob = seal_with_nonce(b"Hello, World!", &[0u8; 32], &[0u8; 12]).unwrap();
    let mut expected = vec![0u8; 12];
    expected.extend_from_slice(&[
        134, 194, 44, 81, 34, 76, 75, 57, 104, 60, 169, 183, 155, 120, 86, 49, 51, 208, 43, 3,
        138, 50, 146, 182, 93, 213, 1, 5, 48,
    ]);
    assert_eq!(blob, expected);
}

#[test]
fn seal_open_round_trip() {
    let key = [9u8; 32];
    for msg in [&b""[..], &b"x"[..], &b"{\"service\":\"demo\"}"[..], &[0xffu8; 1000][..]] {
        let blob = encrypt(msg, &key).unwrap();
        assert_eq!(blob.len(), NONCE_SIZE + msg.len() + TAG_SIZE);
        if !msg.is_empty() {
            assert_ne!(&blob[NONCE_SIZE..NONCE_SIZE + msg.len()], msg);
        }
        assert_eq!(decrypt(&blob, &key).unwrap(), msg.to_vec());
    }
}

#[test]
fn nonces_never_repeat() {
    let key = [3u8; 32];
    let mut seen = HashSet::new();
    for _ in 0..10_000 {
        let blob = encrypt(b"same message", &key).unwrap();
        assert!(seen.insert(blob[..NONCE_SIZE].to_vec()));
    }
}

#[test]
fn flipped_bit_fails_integrity() {
    let key = [5u8; 32];
    let blob = encrypt(b"Hello, World!", &key).unwrap();
    for byte in NONCE_SIZE..blob.len() {
        for bit in 0..8 {
            let mut tampered = blob.clone();
            tampered[byte] ^= 1 << bit;
            assert_eq!(decrypt(&tampered, &key), Err(VaultError::IntegrityError));
        }
    }
}

#[test]
fn wrong_key_fails_integrity() {
    let blob = encrypt(b"secret", &[1u8; 32]).unwrap();
    assert_eq!(decrypt(&blob, &[2u8; 32]), Err(VaultError::IntegrityError));
}

#[test]
fn short_blob_is_format_error() {
    assert_eq!(decrypt(&[0u8; 11], &[0u8; 32]), Err(VaultError::FormatError));
    assert_eq!(decrypt(&[], &[0u8; 32]), Err(VaultError::FormatError));
}

#[test]
fn truncated_tag_fails_integrity() {
    let key = [6u8; 32];
    let blob = encrypt(b"abc", &key).unwrap();
    assert_eq!(decrypt(&blob[..blob.len() - 1], &key), Err(VaultError::IntegrityError));
    assert_eq!(decrypt(&blob[..NONCE_SIZE], &key), Err(VaultError::IntegrityError));
}

#[test]
fn hash_with_given_salt_is_deterministic() {
    let salt = [7u8; 16];
    let h1 = hash_password_with_salt("super_secret_password", &salt).unwrap();
    let h2 = hash_password_with_salt("super_secret_password", &salt).unwrap();
    assert_eq!(h1, h2);
    assert!(h1.starts_with("$argon2id$"));
    assert!(verify_password("super_secret_password", &h1).unwrap());
    assert!(!verify_password("wrong_password", &h1).unwrap());
    assert_ne!(hash_password("x-password").unwrap(), hash_password("x-password").unwrap());
}

#[test]
fn random_arrays_differ() {
    let a: [u8; 16] = random_array().unwrap();
    let b: [u8; 16] = random_array().unwrap();
    assert_ne!(a, b);
}
