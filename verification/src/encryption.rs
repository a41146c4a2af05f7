//! The encryption engine: secrets are encrypted under a 32-byte key with
//! AES-256-CBC and PKCS#7 padding, a fresh random 16-byte IV per call, and
//! serialized as `"<iv-hex>:<ciphertext-hex>"` in lowercase hex. The fixed
//! 32-hex-char IV segment makes the colon framing unambiguous.
//!
//! Decryption of that serialization is provided as the inverse, so that the
//! round trip recovers the original secret bytes.

use vstd::prelude::*;
use vstd::string::{StrSliceExecFns, StringExecFns};
use vstd::utf8::encode_utf8;
use crate::hexcode::{
    all_hex_digits, hex_decode, hex_decode_of, hex_encode, hex_of, lemma_hex_round_trip, push_char,
};
use cipher::{BlockDecryptMut, BlockEncryptMut, KeyIvInit};

verus! {

/// The AES-256-CBC ciphertext of a message under a 32-byte key and a
/// 16-byte IV, with PKCS#7 padding.
pub uninterp spec fn aes256_cbc_of(key: Seq<u8>, iv: Seq<u8>, msg: Seq<u8>) -> Seq<u8>;

/// Relies on cbc::Encryptor::<aes::Aes256> (new_from_slices, then
/// encrypt_padded_vec_mut with Pkcs7 padding): AES-256-CBC over the
/// message with PKCS#7 padding, a function of key, IV and message alone.
#[verifier::external_body]
fn aes256_cbc_encrypt(key: &[u8], iv: &[u8], msg: &[u8]) -> (r: Vec<u8>)
    requires
        key@.len() == 32,
        iv@.len() == 16,
    ensures
        r@ == aes256_cbc_of(key@, iv@, msg@),
{
    let enc = cbc::Encryptor::<aes::Aes256>::new_from_slices(key, iv)
        .expect("key and IV lengths are checked by the caller");
    enc.encrypt_padded_vec_mut::<cipher::block_padding::Pkcs7>(msg)
}

/// Relies on cbc::Decryptor::<aes::Aes256> (new_from_slices, then
/// decrypt_padded_vec_mut with Pkcs7 padding): the inverse of the
/// encryptor, so a ciphertext the encryptor produced under the same key
/// and IV decrypts to the message it was made from; a malformed input
/// yields an error, never a panic.
#[verifier::external_body]
fn aes256_cbc_decrypt(key: &[u8], iv: &[u8], ciphertext: &[u8]) -> (r: Option<Vec<u8>>)
    requires
        key@.len() == 32,
        iv@.len() == 16,
    ensures
        forall|msg: Seq<u8>|
            ciphertext@ == #[trigger] aes256_cbc_of(key@, iv@, msg) ==> r is Some && r->0@ == msg,
{
    let dec = cbc::Decryptor::<aes::Aes256>::new_from_slices(key, iv)
        .expect("key and IV lengths are checked by the caller");
    match dec.decrypt_padded_vec_mut::<cipher::block_padding::Pkcs7>(ciphertext) {
        Ok(msg) => Some(msg),
        Err(_) => None,
    }
}

/// Relies on rand::rng and rand::Rng::fill: the buffer is filled with
/// cryptographically strong random bytes; nothing is promised of their
/// values.
#[verifier::external_body]
fn random_iv() -> (r: Vec<u8>)
    ensures
        r@.len() == 16,
{
    let mut iv = vec![0u8; 16];
    rand::Rng::fill(&mut rand::rng(), iv.as_mut_slice());
    iv
}

/// Whether a string is a well-formed encryption key: 64 hex characters,
/// standing for exactly 32 bytes.
pub open spec fn is_key_hex(s: Seq<char>) -> bool {
    s.len() == 64 && all_hex_digits(s)
}

/// The 32 key bytes a well-formed key string stands for.
pub open spec fn key_bytes_of(s: Seq<char>) -> Seq<u8> {
    hex_decode_of(s)
}

/// The serialization of one encryption: IV in hex, a colon, ciphertext in
/// hex.
pub open spec fn encrypted_serial(key: Seq<u8>, iv: Seq<u8>, msg: Seq<u8>) -> Seq<char> {
    hex_of(iv) + seq![':'] + hex_of(aes256_cbc_of(key, iv, msg))
}

/// Validates and decodes a key string; rejects exactly the strings that
/// are not 64 hex characters, so a malformed key fails fast at startup.
pub fn decode_key(encryption_key: &str) -> (r: Option<Vec<u8>>)
    ensures
        r is Some <==> is_key_hex(encryption_key@),
        r matches Some(k) ==> k@ == key_bytes_of(encryption_key@) && k@.len() == 32,
{
    let n = encryption_key.unicode_len();
    if n != 64 {
        return None;
    }
    hex_decode(encryption_key)
}

/// Encrypts a secret under a decoded key and a caller-supplied IV; the
/// result is fully determined by the three arguments.
pub fn encrypt_with_iv(secret: &str, key: &Vec<u8>, iv: &Vec<u8>) -> (r: String)
    requires
        key@.len() == 32,
        iv@.len() == 16,
    ensures
        r@ == encrypted_serial(key@, iv@, encode_utf8(secret@)),
{
    let msg = secret.as_bytes_vec();
    let ciphertext = aes256_cbc_encrypt(key.as_slice(), iv.as_slice(), msg.as_slice());
    let mut out = hex_encode(iv.as_slice());
    push_char(&mut out, ':');
    let ct_hex = hex_encode(ciphertext.as_slice());
    out.append(ct_hex.as_str());
    proof {
        assert(out@ =~= encrypted_serial(key@, iv@, encode_utf8(secret@)));
    }
    out
}

/// Encrypts a secret under a well-formed key string with a fresh random
/// IV. The result serializes that IV and the AES-256-CBC ciphertext of
/// the secret's UTF-8 bytes.
pub fn encrypt(private_key: &str, encryption_key: &str) -> (r: String)
    requires
        is_key_hex(encryption_key@),
    ensures
        exists|iv: Seq<u8>|
            #![trigger encrypted_serial(key_bytes_of(encryption_key@), iv, encode_utf8(private_key@))]
            iv.len() == 16 && r@ == encrypted_serial(
                key_bytes_of(encryption_key@),
                iv,
                encode_utf8(private_key@),
            ),
{
    let key = decode_key(encryption_key).unwrap();
    let iv = random_iv();
    let r = encrypt_with_iv(private_key, &key, &iv);
    proof {
        assert(iv@.len() == 16 && r@ == encrypted_serial(
            key_bytes_of(encryption_key@),
            iv@,
            encode_utf8(private_key@),
        ));
    }
    r
}

/// Encrypts a secret, rejecting a malformed key instead of demanding a
/// well-formed one: the result is absent exactly when the key string is
/// not 64 hex characters.
pub fn try_encrypt(private_key: &str, encryption_key: &str) -> (r: Option<String>)
    ensures
        r is Some <==> is_key_hex(encryption_key@),
        r matches Some(s) ==> exists|iv: Seq<u8>|
            #![trigger encrypted_serial(key_bytes_of(encryption_key@), iv, encode_utf8(private_key@))]
            iv.len() == 16 && s@ == encrypted_serial(
                key_bytes_of(encryption_key@),
                iv,
                encode_utf8(private_key@),
            ),
{
    if decode_key(encryption_key).is_none() {
        return None;
    }
    Some(encrypt(private_key, encryption_key))
}

/// Decrypts a serialized `"<iv-hex>:<ciphertext-hex>"` blob under a key
/// string. Whatever the engine encrypted under that key is recovered
/// exactly: this is the round-trip guarantee.
pub fn decrypt(serialized: &str, encryption_key: &str) -> (r: Option<Vec<u8>>)
    ensures
        !is_key_hex(encryption_key@) ==> r is None,
        forall|iv: Seq<u8>, msg: Seq<u8>|
            is_key_hex(encryption_key@) && iv.len() == 16 && serialized@
                == #[trigger] encrypted_serial(key_bytes_of(encryption_key@), iv, msg) ==> r
                is Some && r->0@ == msg,
{
    let key = match decode_key(encryption_key) {
        Some(k) => k,
        None => {
            return None;
        },
    };
    let ghost k = key_bytes_of(encryption_key@);
    let n = serialized.unicode_len();
    if n < 33 {
        proof {
            assert forall|iv: Seq<u8>, msg: Seq<u8>|
                iv.len() == 16 && serialized@ == #[trigger] encrypted_serial(k, iv, msg)
                implies false by {
                lemma_hex_round_trip(iv);
            }
        }
        return None;
    }
    if serialized.get_char(32) != ':' {
        proof {
            assert forall|iv: Seq<u8>, msg: Seq<u8>|
                iv.len() == 16 && serialized@ == #[trigger] encrypted_serial(k, iv, msg)
                implies false by {
                lemma_hex_round_trip(iv);
                assert(serialized@[32] == ':');
            }
        }
        return None;
    }
    let iv_hex = serialized.substring_char(0, 32);
    let ct_hex = serialized.substring_char(33, n);
    let iv = match hex_decode(iv_hex) {
        Some(v) => v,
        None => {
            proof {
                assert forall|iv0: Seq<u8>, msg: Seq<u8>|
                    iv0.len() == 16 && serialized@ == #[trigger] encrypted_serial(k, iv0, msg)
                    implies false by {
                    lemma_hex_round_trip(iv0);
                    assert(iv_hex@ =~= hex_of(iv0));
                }
            }
            return None;
        },
    };
    let ct = match hex_decode(ct_hex) {
        Some(v) => v,
        None => {
            proof {
                assert forall|iv0: Seq<u8>, msg: Seq<u8>|
                    iv0.len() == 16 && serialized@ == #[trigger] encrypted_serial(k, iv0, msg)
                    implies false by {
                    lemma_hex_round_trip(iv0);
                    lemma_hex_round_trip(aes256_cbc_of(k, iv0, msg));
                    assert(ct_hex@ =~= hex_of(aes256_cbc_of(k, iv0, msg)));
                }
            }
            return None;
        },
    };
    let r = aes256_cbc_decrypt(key.as_slice(), iv.as_slice(), ct.as_slice());
    proof {
        assert forall|iv0: Seq<u8>, msg: Seq<u8>|
            iv0.len() == 16 && serialized@ == #[trigger] encrypted_serial(k, iv0, msg) implies r
            is Some && r->0@ == msg by {
            lemma_hex_round_trip(iv0);
            lemma_hex_round_trip(aes256_cbc_of(k, iv0, msg));
            assert(iv_hex@ =~= hex_of(iv0));
            assert(ct_hex@ =~= hex_of(aes256_cbc_of(k, iv0, msg)));
            assert(iv@ == iv0);
            assert(ct@ == aes256_cbc_of(k, iv0, msg));
        }
    }
    r
}

} // verus!
