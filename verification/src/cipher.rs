//! Password-based encryption of the wallet secret: PBKDF2-HMAC-SHA256 turns
//! the password and a salt into an AES-256-GCM key; AES-256-GCM seals the
//! mnemonic phrase under a nonce.

use vstd::prelude::*;
use aes_gcm::aead::{Aead, KeyInit};

verus! {

/// The key that PBKDF2 with HMAC-SHA256 derives from the UTF-8 bytes of
/// `password`, `salt` and `rounds` iterations, `len` bytes long.
pub uninterp spec fn pbkdf2_hmac_sha256(password: Seq<char>, salt: Seq<u8>, rounds: u32, len: nat) -> Seq<u8>;

/// The AES-256-GCM ciphertext (with its 16-byte tag appended) of `plaintext`
/// under `key` and `nonce`, with no associated data.
pub uninterp spec fn aes256gcm_seal(key: Seq<u8>, nonce: Seq<u8>, plaintext: Seq<u8>) -> Seq<u8>;

/// What AES-256-GCM decryption of `ciphertext` under `key` and `nonce` (no
/// associated data) returns: the plaintext, or `None` when the tag does not
/// authenticate the ciphertext.
pub uninterp spec fn aes256gcm_open(key: Seq<u8>, nonce: Seq<u8>, ciphertext: Seq<u8>) -> Option<Seq<u8>>;

/// The largest plaintext, in bytes, that AES-256-GCM accepts (2^36).
pub open spec fn aes_gcm_max_plaintext() -> nat {
    0x10_0000_0000
}

#[verifier::external_type_specification]
#[verifier::external_body]
pub struct ExAeadError(aes_gcm::Error);

#[verifier::external_type_specification]
#[verifier::external_body]
pub struct ExFromUtf8Error(std::string::FromUtf8Error);

/// `pbkdf2::pbkdf2_hmac::<sha2::Sha256>` over the bytes of `password`,
/// filling `key_len` bytes. The claim: the key is the named PBKDF2 result and
/// has the length asked for (the function never fails with HMAC).
#[verifier::external_body]
pub(crate) fn pbkdf2_sha256(password: &str, salt: &[u8], rounds: u32, key_len: usize) -> (key: Vec<u8>)
    ensures
        key@ == pbkdf2_hmac_sha256(password@, salt@, rounds, key_len as nat),
        key@.len() == key_len,
{
    let mut key = vec![0u8; key_len];
    pbkdf2::pbkdf2_hmac::<sha2::Sha256>(password.as_bytes(), salt, rounds, &mut key);
    key
}

/// `Aes256Gcm::encrypt` with a 32-byte key and a 12-byte nonce (the key and
/// nonce constructors panic on other lengths, hence `requires`). The claims:
/// it fails exactly when the plaintext is longer than 2^36 bytes (the crate's
/// `P_MAX`); the ciphertext is the named seal, as long as the plaintext
/// plus the 16-byte tag that `encrypt` appends; decrypting it under the same
/// key and nonce gives the plaintext back (authenticated encryption).
#[verifier::external_body]
pub(crate) fn aes256gcm_encrypt(key: &[u8], nonce: &[u8], plaintext: &[u8]) -> (res: Result<Vec<u8>, aes_gcm::Error>)
    requires
        key@.len() == 32,
        nonce@.len() == 12,
    ensures
        res is Ok <==> plaintext@.len() <= aes_gcm_max_plaintext(),
        res matches Ok(c) ==> c@ == aes256gcm_seal(key@, nonce@, plaintext@),
        res matches Ok(c) ==> c@.len() == plaintext@.len() + 16,
        res matches Ok(c) ==> aes256gcm_open(key@, nonce@, c@) == Some(plaintext@),
{
    let cipher = aes_gcm::Aes256Gcm::new(aes_gcm::Key::<aes_gcm::Aes256Gcm>::from_slice(key));
    cipher.encrypt(aes_gcm::Nonce::from_slice(nonce), plaintext)
}

/// `Aes256Gcm::decrypt` with a 32-byte key and a 12-byte nonce. The claim:
/// the result is the named decryption; an error exactly when that is `None`.
#[verifier::external_body]
pub(crate) fn aes256gcm_decrypt(key: &[u8], nonce: &[u8], ciphertext: &[u8]) -> (res: Result<Vec<u8>, aes_gcm::Error>)
    requires
        key@.len() == 32,
        nonce@.len() == 12,
    ensures
        match res {
            Ok(p) => aes256gcm_open(key@, nonce@, ciphertext@) == Some(p@),
            Err(_) => aes256gcm_open(key@, nonce@, ciphertext@) is None,
        },
{
    let cipher = aes_gcm::Aes256Gcm::new(aes_gcm::Key::<aes_gcm::Aes256Gcm>::from_slice(key));
    cipher.decrypt(aes_gcm::Nonce::from_slice(nonce), ciphertext)
}

/// `String::from_utf8`: an error exactly when the bytes are not valid UTF-8,
/// otherwise the string they encode.
#[verifier::external_body]
pub(crate) fn string_from_utf8(bytes: Vec<u8>) -> (res: Result<String, std::string::FromUtf8Error>)
    ensures
        res is Ok <==> vstd::utf8::valid_utf8(bytes@),
        res matches Ok(s) ==> s@ == vstd::utf8::decode_utf8(bytes@),
{
    String::from_utf8(bytes)
}

} // verus!
