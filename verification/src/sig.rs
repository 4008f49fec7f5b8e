//! Signature engine: a black-box post-quantum sign/verify primitive over a
//! signing/verifying key pair, provided by the ml-dsa crate (the 65-level
//! parameter set: 32-byte signing seed, 1952-byte verifying key, 3309-byte
//! signature).
//!
//! The contract of the primitive is taken on trust from the outside crate:
//! a signature produced over a message verifies under the matching verifying
//! key, and key derivation and signing are deterministic in their inputs.

use vstd::prelude::*;
use ml_dsa::{MlDsa65, SigningKey, VerifyingKey, Signature, Signer, Verifier, Keypair};
use crate::trusted::{random_bytes, wipe_bytes};

verus! {

/// Length of an encoded verifying key.
pub const DSA_VK_LEN: usize = 1952;

/// Length of an encoded signature.
pub const DSA_SIG_LEN: usize = 3309;

/// The encoded verifying key derived from a 32-byte signing seed.
pub uninterp spec fn dsa_vk_of(seed: Seq<u8>) -> Seq<u8>;

/// The signature that the deterministic signing mode produces over a message.
pub uninterp spec fn dsa_sig_of(seed: Seq<u8>, m: Seq<u8>) -> Seq<u8>;

/// Whether a signature verifies over a message under a verifying key.
pub uninterp spec fn dsa_verifies(vk: Seq<u8>, m: Seq<u8>, sig: Seq<u8>) -> bool;

/// The encoded verifying key as a sequence of known length 1952.
pub open spec fn dsa_vk(seed: Seq<u8>) -> Seq<u8> {
    Seq::new(1952, |i: int| dsa_vk_of(seed)[i])
}

/// The signature as a sequence of known length 3309.
pub open spec fn dsa_sig(seed: Seq<u8>, m: Seq<u8>) -> Seq<u8> {
    Seq::new(3309, |i: int| dsa_sig_of(seed, m)[i])
}

/// Relies on ml_dsa::SigningKey::from_seed and VerifyingKey::encode: key
/// derivation from a 32-byte seed is deterministic and the encoded verifying
/// key is 1952 bytes.
#[verifier::external_body]
fn dsa_vk_bytes(seed: &[u8]) -> (r: Vec<u8>)
    requires
        seed@.len() == 32,
    ensures
        r@ == dsa_vk_of(seed@),
        r@ == dsa_vk(seed@),
        r@.len() == 1952,
{
    let seed_arr: ml_dsa::Seed = ml_dsa::Seed::try_from(seed).unwrap();
    let sk = SigningKey::<MlDsa65>::from_seed(&seed_arr);
    sk.verifying_key().encode().to_vec()
}

/// Relies on ml_dsa::SigningKey::try_sign (the deterministic variant with an
/// empty context, which its source shows cannot fail) and Signature::encode:
/// the 3309-byte signature depends on the seed and message alone, and
/// verifies under the verifying key derived from the same seed.
#[verifier::external_body]
fn dsa_sign(seed: &[u8], m: &[u8]) -> (r: Vec<u8>)
    requires
        seed@.len() == 32,
    ensures
        r@ == dsa_sig_of(seed@, m@),
        r@ == dsa_sig(seed@, m@),
        r@.len() == 3309,
        dsa_verifies(dsa_vk(seed@), m@, r@),
{
    let seed_arr: ml_dsa::Seed = ml_dsa::Seed::try_from(seed).unwrap();
    let sk = SigningKey::<MlDsa65>::from_seed(&seed_arr);
    let sig: Signature<MlDsa65> = sk.try_sign(m).unwrap();
    sig.encode().to_vec()
}

/// Relies on ml_dsa::VerifyingKey::decode, Signature::decode and
/// Verifier::verify: whether the signature verifies is a deterministic
/// function of key, message and signature; a signature whose hint encoding is
/// malformed verifies as false.
#[verifier::external_body]
fn dsa_verify(vk: &[u8], m: &[u8], sig: &[u8]) -> (r: bool)
    requires
        vk@.len() == 1952,
        sig@.len() == 3309,
    ensures
        r == dsa_verifies(vk@, m@, sig@),
{
    let Ok(vk_arr) = ml_dsa::EncodedVerifyingKey::<MlDsa65>::try_from(vk) else {
        return false;
    };
    let Ok(sig_arr) = ml_dsa::EncodedSignature::<MlDsa65>::try_from(sig) else {
        return false;
    };
    let Some(signature) = Signature::<MlDsa65>::decode(&sig_arr) else {
        return false;
    };
    VerifyingKey::<MlDsa65>::decode(&vk_arr).verify(m, &signature).is_ok()
}

/// Generate a signature key pair: the 32-byte signing seed (the secret) and
/// the 1952-byte encoded verifying key derived from it.
pub fn sig_keygen() -> (r: (Vec<u8>, Vec<u8>))
    ensures
        r.0@.len() == 32,
        r.1@.len() == 1952,
        r.1@ == dsa_vk(r.0@),
{
    let seed: Vec<u8> = random_bytes(32);
    let vk: Vec<u8> = dsa_vk_bytes(seed.as_slice());
    (seed, vk)
}

/// Derive the encoded verifying key from a 32-byte signing seed.
pub fn vk_from_seed(seed: &[u8]) -> (r: Vec<u8>)
    requires
        seed@.len() == 32,
    ensures
        r@ == dsa_vk(seed@),
        r@.len() == 1952,
{
    dsa_vk_bytes(seed)
}

/// Sign a message with a signing seed. The signature verifies under the
/// verifying key derived from the same seed.
pub fn sign(seed: &[u8], message: &[u8]) -> (r: Vec<u8>)
    requires
        seed@.len() == 32,
    ensures
        r@ == dsa_sig(seed@, message@),
        r@.len() == 3309,
        dsa_verifies(dsa_vk(seed@), message@, r@),
{
    dsa_sign(seed, message)
}

/// Verify a signature over a message: true exactly when the inputs have the
/// right lengths and the signature verifies under the key.
pub fn verify(vk: &[u8], message: &[u8], signature: &[u8]) -> (r: bool)
    ensures
        r == (vk@.len() == 1952 && signature@.len() == 3309 && dsa_verifies(
            vk@,
            message@,
            signature@,
        )),
{
    if vk.len() != DSA_VK_LEN || signature.len() != DSA_SIG_LEN {
        return false;
    }
    dsa_verify(vk, message, signature)
}

} // verus!
