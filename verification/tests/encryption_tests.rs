use cipher::{BlockEncryptMut, KeyIvInit};
use vanity_search::encryption::{decode_key, decrypt, encrypt, encrypt_with_iv, try_encrypt};

fn zero_key() -> String {
    "00".repeat(32)
}

fn is_hex(s: &str) -> bool {
    !s.is_empty() && s.chars().all(|c| c.is_ascii_hexdigit())
}

#[test]
fn output_format_for_zero_key_and_hello() {
    let key = zero_key();
    let out = encrypt("hello", &key);
    let (iv_part, rest) = out.split_at(32);
    assert!(is_hex(iv_part));
    assert!(iv_part.chars().all(|c| !c.is_ascii_uppercase()));
    assert!(rest.starts_with(':'));
    let ct_part = &rest[1..];
    assert!(is_hex(ct_part));
    assert!(ct_part.chars().all(|c| !c.is_ascii_uppercase()));
    // "hello" is shorter than one block, so the ciphertext is one padded
    // 16-byte block: 32 hex characters.
    assert_eq!(ct_part.len(), 32);
}

#[test]
fn round_trip_recovers_hello() {
    let key = zero_key();
    let out = encrypt("hello", &key);
    assert_eq!(decrypt(&out, &key), Some(b"hello".to_vec()));
}

#[test]
fn round_trip_various_secrets() {
    let key = "0123456789abcdef".repeat(4);
    for secret in ["", "a", "exactly sixteen!", "longer than a single cipher block", "h\u{e9}llo"]
    {
        let out = encrypt(secret, &key);
        assert_eq!(decrypt(&out, &key), Some(secret.as_bytes().to_vec()));
    }
}

#[test]
fn ciphertext_differs_from_plaintext_hex() {
    let key = zero_key();
    let out = encrypt("hello", &key);
    let ct_part = &out[33..];
    assert_ne!(ct_part, "68656c6c6f");
    assert!(!ct_part.contains("68656c6c6f"));
}

#[test]
fn fresh_iv_on_every_call() {
    let key = zero_key();
    let ivs: Vec<String> = (0..64).map(|_| encrypt("same secret", &key)[..32].to_string()).collect();
    for i in 0..ivs.len() {
        for j in 0..i {
            assert_ne!(ivs[i], ivs[j]);
        }
    }
}

#[test]
fn key_of_31_bytes_is_rejected() {
    let short_key = "00".repeat(31);
    assert_eq!(try_encrypt("hello", &short_key), None);
    assert!(decode_key(&short_key).is_none());
}

#[test]
fn malformed_keys_are_rejected() {
    assert_eq!(try_encrypt("hello", ""), None);
    assert_eq!(try_encrypt("hello", &"00".repeat(33)), None);
    let non_hex = format!("{}zz", "00".repeat(31));
    assert_eq!(non_hex.len(), 64);
    assert_eq!(try_encrypt("hello", &non_hex), None);
    assert_eq!(decrypt("ignored", &non_hex), None);
}

#[test]
fn well_formed_key_is_accepted() {
    let key = zero_key();
    assert_eq!(decode_key(&key), Some(vec![0u8; 32]));
    let out = try_encrypt("hello", &key);
    assert!(out.is_some());
    assert_eq!(decrypt(&out.unwrap(), &key), Some(b"hello".to_vec()));
}

#[test]
fn decryption_needs_the_right_key() {
    let key = zero_key();
    let other = format!("{}01", "00".repeat(31));
    let out = encrypt("hello", &key);
    let wrong = decrypt(&out, &other);
    assert_ne!(wrong, Some(b"hello".to_vec()));
}

#[test]
fn deterministic_under_a_fixed_iv() {
    let key = vec![0u8; 32];
    let iv = vec![7u8; 16];
    let a = encrypt_with_iv("same secret", &key, &iv);
    let b = encrypt_with_iv("same secret", &key, &iv);
    assert_eq!(a, b);
}

#[test]
fn agrees_with_the_cipher_crates() {
    let key = [0u8; 32];
    let iv = [0u8; 16];
    let enc = cbc::Encryptor::<aes::Aes256>::new(&key.into(), &iv.into());
    let ciphertext = enc.encrypt_padded_vec_mut::<cipher::block_padding::Pkcs7>(b"hello");
    let expected = format!(
        "{}:{}",
        "00".repeat(16),
        ciphertext.iter().map(|b| format!("{:02x}", b)).collect::<String>()
    );
    assert_eq!(encrypt_with_iv("hello", &key.to_vec(), &iv.to_vec()), expected);
}
