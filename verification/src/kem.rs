//! KEM engine: key generation, encapsulation and decapsulation with implicit
//! rejection, over the k = 3 module lattice.
//!
//! Wire sizes: public key 1184 bytes (32-byte matrix seed, then the three
//! rows of t packed exactly at 12 bits); secret key 2400 bytes (the secret
//! vector s packed at 12 bits, a copy of the public key, its hash, and the
//! 32-byte fallback seed z); ciphertext 1088 bytes (u compressed at 10 bits,
//! v at 4 bits); shared secret 32 bytes.

use vstd::prelude::*;
use crate::ring::{Poly, spec_poly_add, spec_poly_sub};
use crate::ntt::{forward, inverse, pointwise_multiply, spec_forward, spec_inverse, spec_basemul};
use crate::sampler::{sample_matrix_entry, sample_noise_at, spec_matrix_entry, spec_noise};
use crate::codec::{
    compress, decompress, encode12, decode12, encode_msg, decode_msg, spec_compress_poly,
    spec_decompress_poly, spec_encode12, spec_decode12, spec_msg_poly, spec_decode_msg,
};
use crate::trusted::{sha3_256, sha3_512, random_bytes, wipe_bytes, h256, h512};
use crate::bytes::{push_all, copy_range, ct_eq};
use crate::errors::ShieldError;

verus! {

/// Sum of three residue sequences.
pub open spec fn add3(x: Seq<int>, y: Seq<int>, z: Seq<int>) -> Seq<int> {
    spec_poly_add(spec_poly_add(x, y), z)
}

/// The transformed matrix entry at row i, column j.
pub open spec fn spec_ahat(rho: Seq<u8>, i: u8, j: u8) -> Seq<int> {
    spec_forward(spec_matrix_entry(rho, i, j))
}

/// The transformed secret-vector entry j.
pub open spec fn spec_shat(sigma: Seq<u8>, j: u8) -> Seq<int> {
    spec_forward(spec_noise(sigma, j))
}

/// Row i of t = A * s + e, computed through the transform.
pub open spec fn spec_t(rho: Seq<u8>, sigma: Seq<u8>, i: u8) -> Seq<int> {
    spec_poly_add(
        spec_inverse(
            add3(
                spec_basemul(spec_ahat(rho, i, 0), spec_shat(sigma, 0)),
                spec_basemul(spec_ahat(rho, i, 1), spec_shat(sigma, 1)),
                spec_basemul(spec_ahat(rho, i, 2), spec_shat(sigma, 2)),
            ),
        ),
        spec_noise(sigma, (3 + i) as u8),
    )
}

/// The public key derived from the two seed halves.
pub open spec fn spec_pk_bytes(rho: Seq<u8>, sigma: Seq<u8>) -> Seq<u8> {
    rho + spec_encode12(spec_t(rho, sigma, 0)) + spec_encode12(spec_t(rho, sigma, 1))
        + spec_encode12(spec_t(rho, sigma, 2))
}

/// The full key pair derived from the key seed d and fallback seed z.
pub open spec fn spec_keypair(d: Seq<u8>, z: Seq<u8>) -> (Seq<u8>, Seq<u8>) {
    let g = h512(d);
    let rho = g.subrange(0, 32);
    let sigma = g.subrange(32, 64);
    let pk = spec_pk_bytes(rho, sigma);
    let sk = spec_encode12(spec_noise(sigma, 0)) + spec_encode12(spec_noise(sigma, 1))
        + spec_encode12(spec_noise(sigma, 2)) + pk + h256(pk) + z;
    (pk, sk)
}

/// Derive a key pair deterministically from the key seed d and fallback
/// seed z.
pub fn keygen_derand(d: &[u8], z: &[u8]) -> (r: (Vec<u8>, Vec<u8>))
    requires
        d@.len() == 32,
        z@.len() == 32,
    ensures
        (r.0@, r.1@) == spec_keypair(d@, z@),
        r.0@.len() == 1184,
        r.1@.len() == 2400,
{
    let mut g: Vec<u8> = sha3_512(d);
    let rho: Vec<u8> = copy_range(g.as_slice(), 0, 32);
    let mut sigma: Vec<u8> = copy_range(g.as_slice(), 32, 64);

    let mut s0 = sample_noise_at(sigma.as_slice(), 0);
    let mut s1 = sample_noise_at(sigma.as_slice(), 1);
    let mut s2 = sample_noise_at(sigma.as_slice(), 2);
    let mut e0 = sample_noise_at(sigma.as_slice(), 3);
    let mut e1 = sample_noise_at(sigma.as_slice(), 4);
    let mut e2 = sample_noise_at(sigma.as_slice(), 5);
    let mut s0h = forward(&s0);
    let mut s1h = forward(&s1);
    let mut s2h = forward(&s2);

    let a00 = forward(&sample_matrix_entry(rho.as_slice(), 0, 0));
    let a01 = forward(&sample_matrix_entry(rho.as_slice(), 0, 1));
    let a02 = forward(&sample_matrix_entry(rho.as_slice(), 0, 2));
    let t0 = inverse(
        &pointwise_multiply(&a00, &s0h).add(&pointwise_multiply(&a01, &s1h)).add(
            &pointwise_multiply(&a02, &s2h),
        ),
    ).add(&e0);
    let a10 = forward(&sample_matrix_entry(rho.as_slice(), 1, 0));
    let a11 = forward(&sample_matrix_entry(rho.as_slice(), 1, 1));
    let a12 = forward(&sample_matrix_entry(rho.as_slice(), 1, 2));
    let t1 = inverse(
        &pointwise_multiply(&a10, &s0h).add(&pointwise_multiply(&a11, &s1h)).add(
            &pointwise_multiply(&a12, &s2h),
        ),
    ).add(&e1);
    let a20 = forward(&sample_matrix_entry(rho.as_slice(), 2, 0));
    let a21 = forward(&sample_matrix_entry(rho.as_slice(), 2, 1));
    let a22 = forward(&sample_matrix_entry(rho.as_slice(), 2, 2));
    let t2 = inverse(
        &pointwise_multiply(&a20, &s0h).add(&pointwise_multiply(&a21, &s1h)).add(
            &pointwise_multiply(&a22, &s2h),
        ),
    ).add(&e2);

    let mut pk: Vec<u8> = Vec::new();
    push_all(&mut pk, rho.as_slice());
    let t0b = encode12(&t0);
    push_all(&mut pk, t0b.as_slice());
    let t1b = encode12(&t1);
    push_all(&mut pk, t1b.as_slice());
    let t2b = encode12(&t2);
    push_all(&mut pk, t2b.as_slice());

    let h: Vec<u8> = sha3_256(pk.as_slice());

    let mut sk: Vec<u8> = Vec::new();
    let s0b = encode12(&s0);
    push_all(&mut sk, s0b.as_slice());
    let s1b = encode12(&s1);
    push_all(&mut sk, s1b.as_slice());
    let s2b = encode12(&s2);
    push_all(&mut sk, s2b.as_slice());
    push_all(&mut sk, pk.as_slice());
    push_all(&mut sk, h.as_slice());
    push_all(&mut sk, z);

    // every buffer holding secret material is cleared before returning
    wipe_bytes(&mut g);
    wipe_bytes(&mut sigma);
    s0.wipe();
    s1.wipe();
    s2.wipe();
    s0h.wipe();
    s1h.wipe();
    s2h.wipe();
    e0.wipe();
    e1.wipe();
    e2.wipe();

    proof {
        let gg = h512(d@);
        assert(rho@ == gg.subrange(0, 32));
        assert(pk@ == spec_pk_bytes(gg.subrange(0, 32), gg.subrange(32, 64)));
        assert(sk@ == spec_keypair(d@, z@).1);
    }
    (pk, sk)
}

} // verus!
// Encapsulation and decapsulation.

verus! {

/// The transformed coin-vector entry j.
pub open spec fn spec_rhat(sig2: Seq<u8>, j: u8) -> Seq<int> {
    spec_forward(spec_noise(sig2, j))
}

/// The coin seed derived from the message and the public-key hash.
pub open spec fn spec_coins(pk: Seq<u8>, m: Seq<u8>) -> Seq<u8> {
    h512(m + h256(pk)).subrange(0, 32)
}

/// Row j of the t vector parsed back out of a public key.
pub open spec fn spec_pk_t(pk: Seq<u8>, j: int) -> Seq<int> {
    spec_decode12(pk.subrange(32 + 384 * j, 32 + 384 * (j + 1)))
}

/// Row i of u = A^T * r + e1, computed through the transform.
pub open spec fn spec_u(pk: Seq<u8>, m: Seq<u8>, i: u8) -> Seq<int> {
    let rho = pk.subrange(0, 32);
    let sig2 = spec_coins(pk, m);
    spec_poly_add(
        spec_inverse(
            add3(
                spec_basemul(spec_ahat(rho, 0, i), spec_rhat(sig2, 0)),
                spec_basemul(spec_ahat(rho, 1, i), spec_rhat(sig2, 1)),
                spec_basemul(spec_ahat(rho, 2, i), spec_rhat(sig2, 2)),
            ),
        ),
        spec_noise(sig2, (3 + i) as u8),
    )
}

/// v = t^T * r + e2 + encode(m), computed through the transform.
pub open spec fn spec_v(pk: Seq<u8>, m: Seq<u8>) -> Seq<int> {
    let sig2 = spec_coins(pk, m);
    spec_poly_add(
        spec_poly_add(
            spec_inverse(
                add3(
                    spec_basemul(spec_forward(spec_pk_t(pk, 0)), spec_rhat(sig2, 0)),
                    spec_basemul(spec_forward(spec_pk_t(pk, 1)), spec_rhat(sig2, 1)),
                    spec_basemul(spec_forward(spec_pk_t(pk, 2)), spec_rhat(sig2, 2)),
                ),
            ),
            spec_noise(sig2, 6),
        ),
        spec_msg_poly(m),
    )
}

/// The ciphertext for a public key and message: u at 10 bits, v at 4 bits.
pub open spec fn spec_ct(pk: Seq<u8>, m: Seq<u8>) -> Seq<u8> {
    spec_compress_poly(spec_u(pk, m, 0), 10) + spec_compress_poly(spec_u(pk, m, 1), 10)
        + spec_compress_poly(spec_u(pk, m, 2), 10) + spec_compress_poly(spec_v(pk, m), 4)
}

/// The shared secret: the hash of the message, the public-key hash, and the
/// ciphertext bytes.
pub open spec fn spec_ss(pk: Seq<u8>, m: Seq<u8>) -> Seq<u8> {
    h256(m + h256(pk) + spec_ct(pk, m))
}

/// Deterministic encapsulation against a well-formed public key.
#[verifier::rlimit(60)]
pub fn encapsulate_derand(pk: &[u8], m: &[u8]) -> (r: (Vec<u8>, Vec<u8>))
    requires
        pk@.len() == 1184,
        m@.len() == 32,
    ensures
        r.0@ == spec_ct(pk@, m@),
        r.1@ == spec_ss(pk@, m@),
        r.0@.len() == 1088,
        r.1@.len() == 32,
{
    let rho: Vec<u8> = copy_range(pk, 0, 32);
    let t0 = decode12(copy_range(pk, 32, 416).as_slice());
    let t1 = decode12(copy_range(pk, 416, 800).as_slice());
    let t2 = decode12(copy_range(pk, 800, 1184).as_slice());
    proof {
        assert(t0.repr() == spec_pk_t(pk@, 0));
        assert(t1.repr() == spec_pk_t(pk@, 1));
        assert(t2.repr() == spec_pk_t(pk@, 2));
    }
    let h: Vec<u8> = sha3_256(pk);
    let mut mh: Vec<u8> = Vec::new();
    push_all(&mut mh, m);
    push_all(&mut mh, h.as_slice());
    let mut kdf: Vec<u8> = sha3_512(mh.as_slice());
    let mut sig2: Vec<u8> = copy_range(kdf.as_slice(), 0, 32);
    proof {
        assert(sig2@ == spec_coins(pk@, m@));
    }

    let mut r0 = sample_noise_at(sig2.as_slice(), 0);
    let mut r1 = sample_noise_at(sig2.as_slice(), 1);
    let mut r2 = sample_noise_at(sig2.as_slice(), 2);
    let mut e10 = sample_noise_at(sig2.as_slice(), 3);
    let mut e11 = sample_noise_at(sig2.as_slice(), 4);
    let mut e12 = sample_noise_at(sig2.as_slice(), 5);
    let mut e2 = sample_noise_at(sig2.as_slice(), 6);
    let mut r0h = forward(&r0);
    let mut r1h = forward(&r1);
    let mut r2h = forward(&r2);

    let a00 = forward(&sample_matrix_entry(rho.as_slice(), 0, 0));
    let a10 = forward(&sample_matrix_entry(rho.as_slice(), 1, 0));
    let a20 = forward(&sample_matrix_entry(rho.as_slice(), 2, 0));
    let u0 = inverse(
        &pointwise_multiply(&a00, &r0h).add(&pointwise_multiply(&a10, &r1h)).add(
            &pointwise_multiply(&a20, &r2h),
        ),
    ).add(&e10);
    let a01 = forward(&sample_matrix_entry(rho.as_slice(), 0, 1));
    let a11 = forward(&sample_matrix_entry(rho.as_slice(), 1, 1));
    let a21 = forward(&sample_matrix_entry(rho.as_slice(), 2, 1));
    let u1 = inverse(
        &pointwise_multiply(&a01, &r0h).add(&pointwise_multiply(&a11, &r1h)).add(
            &pointwise_multiply(&a21, &r2h),
        ),
    ).add(&e11);
    let a02 = forward(&sample_matrix_entry(rho.as_slice(), 0, 2));
    let a12 = forward(&sample_matrix_entry(rho.as_slice(), 1, 2));
    let a22 = forward(&sample_matrix_entry(rho.as_slice(), 2, 2));
    let u2 = inverse(
        &pointwise_multiply(&a02, &r0h).add(&pointwise_multiply(&a12, &r1h)).add(
            &pointwise_multiply(&a22, &r2h),
        ),
    ).add(&e12);

    let t0h = forward(&t0);
    let t1h = forward(&t1);
    let t2h = forward(&t2);
    let v = inverse(
        &pointwise_multiply(&t0h, &r0h).add(&pointwise_multiply(&t1h, &r1h)).add(
            &pointwise_multiply(&t2h, &r2h),
        ),
    ).add(&e2).add(&encode_msg(m));

    let mut ct: Vec<u8> = Vec::new();
    let u0b = compress(&u0, 10);
    push_all(&mut ct, u0b.as_slice());
    let u1b = compress(&u1, 10);
    push_all(&mut ct, u1b.as_slice());
    let u2b = compress(&u2, 10);
    push_all(&mut ct, u2b.as_slice());
    let vb = compress(&v, 4);
    push_all(&mut ct, vb.as_slice());

    let mut mhc: Vec<u8> = Vec::new();
    push_all(&mut mhc, m);
    push_all(&mut mhc, h.as_slice());
    push_all(&mut mhc, ct.as_slice());
    let ss: Vec<u8> = sha3_256(mhc.as_slice());

    proof {
        assert(ct@ == spec_ct(pk@, m@));
        assert(mhc@ == m@ + h256(pk@) + spec_ct(pk@, m@));
    }

    // coin and message material is cleared before returning
    wipe_bytes(&mut kdf);
    wipe_bytes(&mut sig2);
    wipe_bytes(&mut mh);
    wipe_bytes(&mut mhc);
    r0.wipe();
    r1.wipe();
    r2.wipe();
    r0h.wipe();
    r1h.wipe();
    r2h.wipe();
    e10.wipe();
    e11.wipe();
    e12.wipe();
    e2.wipe();
    (ct, ss)
}

/// The message recovered inside decapsulation: the threshold decoding of
/// w = v - s^T * u.
pub open spec fn spec_decaps_msg(sk: Seq<u8>, ct: Seq<u8>) -> Seq<u8> {
    let s0 = spec_decode12(sk.subrange(0, 384));
    let s1 = spec_decode12(sk.subrange(384, 768));
    let s2 = spec_decode12(sk.subrange(768, 1152));
    let u0 = spec_decompress_poly(ct.subrange(0, 320), 10);
    let u1 = spec_decompress_poly(ct.subrange(320, 640), 10);
    let u2 = spec_decompress_poly(ct.subrange(640, 960), 10);
    let v = spec_decompress_poly(ct.subrange(960, 1088), 4);
    let w = spec_poly_sub(
        v,
        spec_inverse(
            add3(
                spec_basemul(spec_forward(s0), spec_forward(u0)),
                spec_basemul(spec_forward(s1), spec_forward(u1)),
                spec_basemul(spec_forward(s2), spec_forward(u2)),
            ),
        ),
    );
    spec_decode_msg(w)
}

/// The shared secret produced by decapsulation: re-encapsulate the recovered
/// message against the embedded public key; on a byte-exact match the honest
/// secret comes back, otherwise the pseudorandom rejection value hash(z, ct).
pub open spec fn spec_decaps(sk: Seq<u8>, ct: Seq<u8>) -> Seq<u8> {
    let pk = sk.subrange(1152, 2336);
    let z = sk.subrange(2368, 2400);
    let m2 = spec_decaps_msg(sk, ct);
    if spec_ct(pk, m2) == ct {
        spec_ss(pk, m2)
    } else {
        h256(z + ct)
    }
}

/// Decapsulate a ciphertext with a secret key. Implicit rejection is not an
/// error: a mismatching ciphertext yields the pseudorandom fallback secret
/// through the same code path, decided by a constant-time comparison.
#[verifier::rlimit(60)]
pub fn decapsulate(sk: &[u8], ct: &[u8]) -> (r: Vec<u8>)
    requires
        sk@.len() == 2400,
        ct@.len() == 1088,
    ensures
        r@ == spec_decaps(sk@, ct@),
        r@.len() == 32,
{
    let mut s0 = decode12(copy_range(sk, 0, 384).as_slice());
    let mut s1 = decode12(copy_range(sk, 384, 768).as_slice());
    let mut s2 = decode12(copy_range(sk, 768, 1152).as_slice());
    let pk: Vec<u8> = copy_range(sk, 1152, 2336);
    let z: Vec<u8> = copy_range(sk, 2368, 2400);

    let u0b = copy_range(ct, 0, 320);
    let u1b = copy_range(ct, 320, 640);
    let u2b = copy_range(ct, 640, 960);
    let vb = copy_range(ct, 960, 1088);
    let u0 = match decompress(u0b.as_slice(), 10) {
        Some(p) => p,
        None => { unreached() },
    };
    let u1 = match decompress(u1b.as_slice(), 10) {
        Some(p) => p,
        None => { unreached() },
    };
    let u2 = match decompress(u2b.as_slice(), 10) {
        Some(p) => p,
        None => { unreached() },
    };
    let v = match decompress(vb.as_slice(), 4) {
        Some(p) => p,
        None => { unreached() },
    };

    let mut s0h = forward(&s0);
    let mut s1h = forward(&s1);
    let mut s2h = forward(&s2);
    let mut w = v.sub(
        &inverse(
            &pointwise_multiply(&s0h, &forward(&u0)).add(
                &pointwise_multiply(&s1h, &forward(&u1)),
            ).add(&pointwise_multiply(&s2h, &forward(&u2))),
        ),
    );
    let mut m2: Vec<u8> = decode_msg(&w);
    proof {
        assert(m2@ == spec_decaps_msg(sk@, ct@));
    }

    let (ct2, mut ss2) = encapsulate_derand(pk.as_slice(), m2.as_slice());

    let mut zc: Vec<u8> = Vec::new();
    push_all(&mut zc, z.as_slice());
    push_all(&mut zc, ct);
    let mut reject: Vec<u8> = sha3_256(zc.as_slice());

    let matched: bool = ct_eq(ct2.as_slice(), ct);
    let out: Vec<u8> = if matched {
        wipe_bytes(&mut reject);
        ss2
    } else {
        wipe_bytes(&mut ss2);
        reject
    };

    // every buffer holding secret material is cleared on the way out
    s0.wipe();
    s1.wipe();
    s2.wipe();
    s0h.wipe();
    s1h.wipe();
    s2h.wipe();
    w.wipe();
    wipe_bytes(&mut m2);
    wipe_bytes(&mut zc);
    out
}

} // verus!
// Public byte-level KEM interface and the correctness laws.

verus! {

/// Generate a fresh key pair: 1184-byte public key, 2400-byte secret key,
/// derived from fresh randomness as `spec_keypair` describes.
pub fn kyber_keypair() -> (r: (Vec<u8>, Vec<u8>))
    ensures
        r.0@.len() == 1184,
        r.1@.len() == 2400,
        exists|d: Seq<u8>, z: Seq<u8>|
            d.len() == 32 && z.len() == 32 && (r.0@, r.1@) == #[trigger] spec_keypair(d, z),
{
    let mut d: Vec<u8> = random_bytes(32);
    let mut z: Vec<u8> = random_bytes(32);
    let (pk, sk) = keygen_derand(d.as_slice(), z.as_slice());
    wipe_bytes(&mut d);
    wipe_bytes(&mut z);
    (pk, sk)
}

/// Encapsulate to a public key: a fresh 32-byte message is drawn and the
/// ciphertext and shared secret are derived from it deterministically.
/// Fails with FormatError exactly when the key is not 1184 bytes.
pub fn encapsulate(pk: &[u8]) -> (r: Result<(Vec<u8>, Vec<u8>), ShieldError>)
    ensures
        match r {
            Ok(p) => {
                &&& pk@.len() == 1184
                &&& p.0@.len() == 1088
                &&& p.1@.len() == 32
                &&& exists|m: Seq<u8>|
                    m.len() == 32 && p.0@ == #[trigger] spec_ct(pk@, m) && p.1@ == spec_ss(pk@, m)
            },
            Err(e) => pk@.len() != 1184 && e == ShieldError::FormatError,
        },
{
    if pk.len() != 1184 {
        return Err(ShieldError::FormatError);
    }
    let mut m: Vec<u8> = random_bytes(32);
    let (ct, ss) = encapsulate_derand(pk, m.as_slice());
    proof {
        let ghost mm = m@;
        assert(mm.len() == 32 && ct@ == spec_ct(pk@, mm) && ss@ == spec_ss(pk@, mm));
    }
    wipe_bytes(&mut m);
    Ok((ct, ss))
}

/// Decapsulate a ciphertext: the shared secret of `spec_decaps`, which never
/// reports rejection. Fails with FormatError exactly when the secret key is
/// not 2400 bytes or the ciphertext is not 1088 bytes.
pub fn decapsulate_checked(sk: &[u8], ct: &[u8]) -> (r: Result<Vec<u8>, ShieldError>)
    ensures
        match r {
            Ok(ss) => {
                &&& sk@.len() == 2400
                &&& ct@.len() == 1088
                &&& ss@ == spec_decaps(sk@, ct@)
                &&& ss@.len() == 32
            },
            Err(e) => (sk@.len() != 2400 || ct@.len() != 1088) && e == ShieldError::FormatError,
        },
{
    if sk.len() != 2400 || ct.len() != 1088 {
        return Err(ShieldError::FormatError);
    }
    Ok(decapsulate(sk, ct))
}

/// Encapsulate to a well-formed public key, returning (shared secret,
/// ciphertext).
pub fn kyber_encapsulate(pk: &Vec<u8>) -> (r: (Vec<u8>, Vec<u8>))
    requires
        pk@.len() == 1184,
    ensures
        r.0@.len() == 32,
        r.1@.len() == 1088,
        exists|m: Seq<u8>|
            m.len() == 32 && r.1@ == #[trigger] spec_ct(pk@, m) && r.0@ == spec_ss(pk@, m),
{
    let mut m: Vec<u8> = random_bytes(32);
    let (ct, ss) = encapsulate_derand(pk.as_slice(), m.as_slice());
    proof {
        let ghost mm = m@;
        assert(mm.len() == 32 && ct@ == spec_ct(pk@, mm) && ss@ == spec_ss(pk@, mm));
    }
    wipe_bytes(&mut m);
    (ss, ct)
}

/// Decapsulate with a well-formed secret key and ciphertext.
pub fn kyber_decapsulate(sk: &Vec<u8>, ct: &Vec<u8>) -> (r: Vec<u8>)
    requires
        sk@.len() == 2400,
        ct@.len() == 1088,
    ensures
        r@ == spec_decaps(sk@, ct@),
        r@.len() == 32,
{
    decapsulate(sk.as_slice(), ct.as_slice())
}

/// The public key is embedded in the secret key unchanged.
pub proof fn lemma_sk_embeds_pk(d: Seq<u8>, z: Seq<u8>)
    requires
        d.len() == 32,
        z.len() == 32,
    ensures
        spec_keypair(d, z).1.subrange(1152, 2336) == spec_keypair(d, z).0,
        spec_keypair(d, z).1.subrange(2368, 2400) == z,
        spec_keypair(d, z).0.len() == 1184,
        spec_keypair(d, z).1.len() == 2400,
{
    let g = h512(d);
    let rho = g.subrange(0, 32);
    let sigma = g.subrange(32, 64);
    let pk = spec_pk_bytes(rho, sigma);
    let sk = spec_keypair(d, z).1;
    assert(pk.len() == 1184);
    assert(sk.len() == 2400);
    assert(sk.subrange(1152, 2336) =~= pk);
    assert(sk.subrange(2368, 2400) =~= z);
}

/// Honest-party correctness: whenever decapsulation recovers the encapsulated
/// message (which fails only with negligible probability over the noise), the
/// decapsulated secret equals the encapsulated one.
pub proof fn lemma_kem_correctness(d: Seq<u8>, z: Seq<u8>, m: Seq<u8>)
    requires
        d.len() == 32,
        z.len() == 32,
        m.len() == 32,
        spec_decaps_msg(spec_keypair(d, z).1, spec_ct(spec_keypair(d, z).0, m)) == m,
    ensures
        spec_decaps(spec_keypair(d, z).1, spec_ct(spec_keypair(d, z).0, m)) == spec_ss(
            spec_keypair(d, z).0,
            m,
        ),
{
    let pk = spec_keypair(d, z).0;
    let sk = spec_keypair(d, z).1;
    let ct = spec_ct(pk, m);
    lemma_sk_embeds_pk(d, z);
    assert(sk.subrange(1152, 2336) == pk);
    assert(spec_decaps_msg(sk, ct) == m);
    assert(spec_ct(pk, spec_decaps_msg(sk, ct)) == ct);
}

/// Implicit rejection: a ciphertext that does not re-encapsulate byte-exactly
/// yields the pseudorandom fallback hash(z, ct) through the same code path,
/// never an error.
pub proof fn lemma_implicit_rejection(sk: Seq<u8>, ct: Seq<u8>)
    requires
        spec_ct(sk.subrange(1152, 2336), spec_decaps_msg(sk, ct)) != ct,
    ensures
        spec_decaps(sk, ct) == h256(sk.subrange(2368, 2400) + ct),
{
}

} // verus!
