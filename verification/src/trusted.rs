//! Trusted bindings to the outside hash, randomness and zeroization crates.
//!
//! Each wrapper's contract is what the named outside function is documented
//! to do; the hash results are given opaque names (functions of the input
//! alone), since their values cannot be stated in a few lines.

use vstd::prelude::*;
use sha3::digest::{ExtendableOutput, Update};
use sha3::{Digest, Sha3_256, Sha3_512, Shake128, Shake256};
use rand_core::RngCore;
use zeroize::Zeroize;


verus! {

/// The SHA3-256 digest (32 bytes) of a byte string.
pub uninterp spec fn sha3_256_of(b: Seq<u8>) -> Seq<u8>;

/// The SHA3-512 digest (64 bytes) of a byte string.
pub uninterp spec fn sha3_512_of(b: Seq<u8>) -> Seq<u8>;

/// The first n bytes of the SHAKE-128 output stream on a byte string.
pub uninterp spec fn shake128_of(b: Seq<u8>, n: int) -> Seq<u8>;

/// The first n bytes of the SHAKE-256 output stream on a byte string.
pub uninterp spec fn shake256_of(b: Seq<u8>, n: int) -> Seq<u8>;

/// The SHA3-256 digest as a sequence of known length 32 (the digest is
/// 32 bytes long, so this is the digest itself, with the length visible to
/// every proof).
pub open spec fn h256(b: Seq<u8>) -> Seq<u8> {
    Seq::new(32, |i: int| sha3_256_of(b)[i])
}

/// The SHA3-512 digest as a sequence of known length 64.
pub open spec fn h512(b: Seq<u8>) -> Seq<u8> {
    Seq::new(64, |i: int| sha3_512_of(b)[i])
}

/// The SHAKE-128 output as a sequence of known length n.
pub open spec fn xof128(b: Seq<u8>, n: nat) -> Seq<u8> {
    Seq::new(n, |i: int| shake128_of(b, n as int)[i])
}

/// The SHAKE-256 output as a sequence of known length n.
pub open spec fn xof256(b: Seq<u8>, n: nat) -> Seq<u8> {
    Seq::new(n, |i: int| shake256_of(b, n as int)[i])
}

/// Relies on sha3::Sha3_256: a 32-byte digest depending on the input alone.
#[verifier::external_body]
pub(crate) fn sha3_256(b: &[u8]) -> (r: Vec<u8>)
    ensures
        r@ == sha3_256_of(b@),
        r@ == h256(b@),
        r@.len() == 32,
{
    Sha3_256::digest(b).to_vec()
}

/// Relies on sha3::Sha3_512: a 64-byte digest depending on the input alone.
#[verifier::external_body]
pub(crate) fn sha3_512(b: &[u8]) -> (r: Vec<u8>)
    ensures
        r@ == sha3_512_of(b@),
        r@ == h512(b@),
        r@.len() == 64,
{
    Sha3_512::digest(b).to_vec()
}

/// Relies on sha3::Shake128: an extendable output depending on the input alone.
#[verifier::external_body]
pub(crate) fn shake128(b: &[u8], n: usize) -> (r: Vec<u8>)
    ensures
        r@ == shake128_of(b@, n as int),
        r@ == xof128(b@, n as nat),
        r@.len() == n,
{
    let mut h = Shake128::default();
    h.update(b);
    let mut out = vec![0u8; n];
    h.finalize_xof_into(&mut out);
    out
}

/// Relies on sha3::Shake256: an extendable output depending on the input alone.
#[verifier::external_body]
pub(crate) fn shake256(b: &[u8], n: usize) -> (r: Vec<u8>)
    ensures
        r@ == shake256_of(b@, n as int),
        r@ == xof256(b@, n as nat),
        r@.len() == n,
{
    let mut h = Shake256::default();
    h.update(b);
    let mut out = vec![0u8; n];
    h.finalize_xof_into(&mut out);
    out
}

/// Relies on rand_core::OsRng: fills a buffer from the operating system's
/// randomness source, which panics if that source fails rather than hand
/// back predictable bytes. Nothing is promised of the values, only the
/// length.
#[verifier::external_body]
pub(crate) fn random_bytes(n: usize) -> (r: Vec<u8>)
    ensures
        r@.len() == n,
{
    let mut out = vec![0u8; n];
    rand_core::OsRng.fill_bytes(&mut out);
    out
}

/// The JSON rendering of a list of strings.
pub uninterp spec fn json_strings_of(ss: Seq<Seq<char>>) -> Seq<char>;

/// Relies on serde_json::to_string: the JSON text of a list of strings
/// depends on the strings alone (its source shows serializing strings cannot
/// fail).
#[verifier::external_body]
pub(crate) fn json_strings(v: &Vec<String>) -> (r: String)
    ensures
        r@ == json_strings_of(v@.map_values(|s: String| s@)),
{
    serde_json::to_string(v).unwrap()
}

/// Relies on zeroize::Zeroize for byte slices: overwrites every element with
/// zero, keeping the length.
#[verifier::external_body]
pub(crate) fn wipe_bytes(v: &mut Vec<u8>)
    ensures
        final(v)@.len() == old(v)@.len(),
        forall|i: int| 0 <= i < final(v)@.len() ==> final(v)@[i] == 0u8,
{
    v.as_mut_slice().zeroize();
}

} // verus!
