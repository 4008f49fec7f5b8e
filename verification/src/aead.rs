//! Trusted binding to the symmetric authenticated cipher (AES-256-GCM from
//! the aes-gcm crate): sealing appends a 16-byte tag, opening verifies it.

use vstd::prelude::*;
use aes_gcm::{Aes256Gcm, KeyInit, Nonce};
use aes_gcm::aead::Aead;

verus! {

/// The sealed box (ciphertext with its 16-byte tag appended) for a key,
/// nonce and plaintext.
pub uninterp spec fn gcm_seal(key: Seq<u8>, nonce: Seq<u8>, pt: Seq<u8>) -> Seq<u8>;

/// The result of opening a sealed box: the plaintext, or nothing when the
/// tag does not verify.
pub uninterp spec fn gcm_open(key: Seq<u8>, nonce: Seq<u8>, ct: Seq<u8>) -> Option<Seq<u8>>;

/// The sealed box as a sequence of known length: the plaintext length plus
/// the 16-byte tag.
pub open spec fn gseal(key: Seq<u8>, nonce: Seq<u8>, pt: Seq<u8>) -> Seq<u8> {
    Seq::new(pt.len() + 16, |i: int| gcm_seal(key, nonce, pt)[i])
}

/// Relies on aes_gcm::Aes256Gcm::encrypt: authenticated encryption is a
/// deterministic function of key, nonce and plaintext; the output is the
/// ciphertext with the 16-byte tag appended, and decrypting it under the
/// same key and nonce returns the plaintext.
#[verifier::external_body]
pub(crate) fn aead_seal(key: &[u8], nonce: &[u8], pt: &[u8]) -> (r: Vec<u8>)
    requires
        key@.len() == 32,
        nonce@.len() == 12,
        pt@.len() < 0x1000_0000,
    ensures
        r@ == gcm_seal(key@, nonce@, pt@),
        r@ == gseal(key@, nonce@, pt@),
        r@.len() == pt@.len() + 16,
        gcm_open(key@, nonce@, r@) == Some(pt@),
{
    let cipher = Aes256Gcm::new_from_slice(key).unwrap();
    cipher.encrypt(Nonce::from_slice(nonce), pt).unwrap()
}

/// Relies on aes_gcm::Aes256Gcm::decrypt: opening is a deterministic
/// function of key, nonce and ciphertext, and fails exactly when the tag
/// does not verify.
#[verifier::external_body]
pub(crate) fn aead_open(key: &[u8], nonce: &[u8], ct: &[u8]) -> (r: Option<Vec<u8>>)
    requires
        key@.len() == 32,
        nonce@.len() == 12,
    ensures
        match r {
            Some(p) => gcm_open(key@, nonce@, ct@) == Some(p@),
            None => gcm_open(key@, nonce@, ct@) is None,
        },
{
    let cipher = Aes256Gcm::new_from_slice(key).unwrap();
    match cipher.decrypt(Nonce::from_slice(nonce), ct) {
        Ok(p) => Some(p),
        Err(_) => None,
    }
}

} // verus!
