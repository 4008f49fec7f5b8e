//! The post-quantum attestation interface consumed by host bindings: plain
//! functions over base64 strings and byte vectors.

use vstd::prelude::*;
use crate::kem::{kyber_keypair, spec_keypair};
use crate::sig::{sig_keygen, sign, verify, dsa_vk, dsa_sig, dsa_verifies};
use crate::b64::{b64_encode, b64_decode, b64_of, b64_parse};
use crate::blob::{build_blob, spec_blob, spec_payload, seed_opt_view};
use crate::trusted::wipe_bytes;
use crate::errors::ShieldError;

verus! {

/// Copy a 32-byte shared secret into the symmetric cipher key: the identity
/// mapping, since the KEM output size matches the cipher key size.
pub fn derive_aes_key(shared_secret: &Vec<u8>) -> (r: Vec<u8>)
    requires
        shared_secret@.len() == 32,
    ensures
        r@ == shared_secret@,
{
    crate::bytes::copy_range(shared_secret.as_slice(), 0, 32)
}

/// Generate a fresh post-quantum key pair and return (KEM public key, signing
/// seed), both base64 encoded. The signing seed is the signature key pair in
/// its 32-byte serialized form; the verifying key is derived from it.
pub fn generate_pq_keypair() -> (r: (String, String))
    ensures
        exists|d: Seq<u8>, z: Seq<u8>|
            #![trigger spec_keypair(d, z)]
            d.len() == 32 && z.len() == 32 && r.0@ == b64_of(spec_keypair(d, z).0) && b64_parse(
                r.0@,
            ) == Some(spec_keypair(d, z).0),
        r.0@.len() == 1580,
        exists|seed: Seq<u8>|
            seed.len() == 32 && r.1@ == #[trigger] b64_of(seed) && b64_parse(r.1@) == Some(seed),
        r.1@.len() == 44,
{
    let (kem_pk, mut kem_sk) = kyber_keypair();
    let kem_pk_b64: String = b64_encode(kem_pk.as_slice());
    let (dsa_seed, _dsa_vk) = sig_keygen();
    let dsa_seed_b64: String = b64_encode(dsa_seed.as_slice());
    // this interface hands out public material only; the KEM secret key is
    // cleared here, and the signing seed lives on only in its encoding
    wipe_bytes(&mut kem_sk);
    (kem_pk_b64, dsa_seed_b64)
}

/// Sign a message with a base64-encoded 32-byte signing seed; the signature
/// comes back base64 encoded. Fails with FormatError exactly when the seed
/// is not valid base64 of 32 bytes.
pub fn pq_sign_data(dsa_sk_b64: String, message: Vec<u8>) -> (r: Result<String, ShieldError>)
    ensures
        match r {
            Ok(s) => {
                &&& b64_parse(dsa_sk_b64@) is Some
                &&& b64_parse(dsa_sk_b64@)->Some_0.len() == 32
                &&& s@ == b64_of(dsa_sig(b64_parse(dsa_sk_b64@)->Some_0, message@))
                &&& b64_parse(s@) == Some(dsa_sig(b64_parse(dsa_sk_b64@)->Some_0, message@))
                &&& s@.len() == 4412
            },
            Err(e) => {
                &&& e == ShieldError::FormatError
                &&& (b64_parse(dsa_sk_b64@) is None || b64_parse(dsa_sk_b64@)->Some_0.len() != 32)
            },
        },
{
    let decoded = b64_decode(dsa_sk_b64.as_str());
    let mut seed: Vec<u8> = match decoded {
        Some(v) => v,
        None => {
            return Err(ShieldError::FormatError);
        },
    };
    if seed.len() != 32 {
        wipe_bytes(&mut seed);
        return Err(ShieldError::FormatError);
    }
    let sig: Vec<u8> = sign(seed.as_slice(), message.as_slice());
    let sig_b64: String = b64_encode(sig.as_slice());
    // the decoded seed is cleared before returning
    wipe_bytes(&mut seed);
    Ok(sig_b64)
}

/// Verify a base64 signature over a message. The key may be given either as
/// the 32-byte signing seed (the verifying key is derived from it) or as the
/// 1952-byte verifying key itself. Any malformed input verifies as false.
pub fn pq_verify_data(dsa_pk_b64: String, message: Vec<u8>, signature_b64: String) -> (r: bool)
    ensures
        r == (b64_parse(dsa_pk_b64@) is Some && b64_parse(signature_b64@) is Some && {
            let key = b64_parse(dsa_pk_b64@)->Some_0;
            let sig = b64_parse(signature_b64@)->Some_0;
            &&& sig.len() == 3309
            &&& if key.len() == 32 {
                dsa_verifies(dsa_vk(key), message@, sig)
            } else {
                key.len() == 1952 && dsa_verifies(key, message@, sig)
            }
        }),
{
    let key: Vec<u8> = match b64_decode(dsa_pk_b64.as_str()) {
        Some(v) => v,
        None => {
            return false;
        },
    };
    let sig: Vec<u8> = match b64_decode(signature_b64.as_str()) {
        Some(v) => v,
        None => {
            return false;
        },
    };
    if key.len() == 32 {
        let vk: Vec<u8> = crate::sig::vk_from_seed(key.as_slice());
        verify(vk.as_slice(), message.as_slice(), sig.as_slice())
    } else {
        verify(key.as_slice(), message.as_slice(), sig.as_slice())
    }
}

/// The decoded bytes of an optional base64 signing seed (meaningful only
/// where the decode succeeds).
pub open spec fn sk_opt_parsed(s: &Option<String>) -> Option<Seq<u8>> {
    match s {
        Option::Some(sk) => Option::Some(b64_parse(sk@)->Some_0),
        Option::None => Option::None,
    }
}

/// The output is the base64 text of a blob built over the given public key
/// and payload, for some fresh message seed and nonce.
pub open spec fn spec_blob_b64_ok(
    out: Seq<char>,
    pk: Seq<u8>,
    report: Seq<u8>,
    seed: Option<Seq<u8>>,
) -> bool {
    exists|m: Seq<u8>, nonce: Seq<u8>|
        {
            &&& m.len() == 32
            &&& nonce.len() == 12
            &&& out == b64_of(#[trigger] spec_blob(pk, m, nonce, spec_payload(report, seed)))
            &&& b64_parse(out) == Some(spec_blob(pk, m, nonce, spec_payload(report, seed)))
            &&& out.len() == 4 * ((spec_blob(pk, m, nonce, spec_payload(report, seed)).len() + 2)
                / 3)
        }
}

/// Build a base64-encoded attestation blob for a report: optionally sign it
/// with a base64 signing seed, then encrypt everything to the server's
/// base64 KEM public key. Fails with FormatError exactly when the key or the
/// seed is not valid base64 of the right length.
pub fn pq_secure_attestation_blob(
    report: Vec<u8>,
    server_kem_pk_b64: String,
    local_dsa_sk_b64: Option<String>,
) -> (r: Result<String, ShieldError>)
    requires
        report@.len() < 0x100_0000,
    ensures
        r is Ok ==> {
            &&& b64_parse(server_kem_pk_b64@) is Some
            &&& b64_parse(server_kem_pk_b64@)->Some_0.len() == 1184
            &&& (local_dsa_sk_b64 matches Some(sk) ==> b64_parse(sk@) is Some && b64_parse(
                sk@,
            )->Some_0.len() == 32)
            &&& spec_blob_b64_ok(
                r->Ok_0@,
                b64_parse(server_kem_pk_b64@)->Some_0,
                report@,
                sk_opt_parsed(&local_dsa_sk_b64),
            )
        },
        r is Err ==> r->Err_0 == ShieldError::FormatError && (b64_parse(server_kem_pk_b64@)
            is None || b64_parse(server_kem_pk_b64@)->Some_0.len() != 1184 || (local_dsa_sk_b64
            matches Some(sk) && (b64_parse(sk@) is None || b64_parse(sk@)->Some_0.len() != 32))),
{
    let server_pk: Vec<u8> = match b64_decode(server_kem_pk_b64.as_str()) {
        Some(v) => v,
        None => {
            return Err(ShieldError::FormatError);
        },
    };
    if server_pk.len() != 1184 {
        return Err(ShieldError::FormatError);
    }
    let blob: Vec<u8> = match &local_dsa_sk_b64 {
        Some(sk_b64) => {
            let mut seed: Vec<u8> = match b64_decode(sk_b64.as_str()) {
                Some(v) => v,
                None => {
                    return Err(ShieldError::FormatError);
                },
            };
            if seed.len() != 32 {
                wipe_bytes(&mut seed);
                return Err(ShieldError::FormatError);
            }
            let ghost sv = seed@;
            let built = build_blob(report.as_slice(), Some(&seed), server_pk.as_slice());
            let arm: Vec<u8> = match built {
                Ok(b) => {
                    proof {
                        let (m0, n0) = choose|m: Seq<u8>, n: Seq<u8>|
                            m.len() == 32 && n.len() == 12 && b@ == #[trigger] spec_blob(
                                server_pk@,
                                m,
                                n,
                                spec_payload(report@, seed_opt_view(Some(&seed))),
                            );
                        assert(seed_opt_view(Some(&seed)) == Option::Some(sv));
                        assert(sk_opt_parsed(&local_dsa_sk_b64) == Option::Some(sv));
                        assert(m0.len() == 32 && n0.len() == 12 && b@ == spec_blob(
                            server_pk@,
                            m0,
                            n0,
                            spec_payload(report@, sk_opt_parsed(&local_dsa_sk_b64)),
                        ));
                    }
                    b
                },
                Err(e) => {
                    wipe_bytes(&mut seed);
                    return Err(e);
                },
            };
            wipe_bytes(&mut seed);
            arm
        },
        None => {
            match build_blob(report.as_slice(), None, server_pk.as_slice()) {
                Ok(b) => {
                    proof {
                        let (m0, n0) = choose|m: Seq<u8>, n: Seq<u8>|
                            m.len() == 32 && n.len() == 12 && b@ == #[trigger] spec_blob(
                                server_pk@,
                                m,
                                n,
                                spec_payload(report@, seed_opt_view(None)),
                            );
                        assert(m0.len() == 32 && n0.len() == 12 && b@ == spec_blob(
                            server_pk@,
                            m0,
                            n0,
                            spec_payload(report@, sk_opt_parsed(&local_dsa_sk_b64)),
                        ));
                    }
                    b
                },
                Err(e) => {
                    return Err(e);
                },
            }
        },
    };
    let out: String = b64_encode(blob.as_slice());
    proof {
        let (m1, n1) = choose|m: Seq<u8>, n: Seq<u8>|
            m.len() == 32 && n.len() == 12 && blob@ == #[trigger] spec_blob(
                server_pk@,
                m,
                n,
                spec_payload(report@, sk_opt_parsed(&local_dsa_sk_b64)),
            );
        let bb = spec_blob(server_pk@, m1, n1, spec_payload(report@, sk_opt_parsed(&local_dsa_sk_b64)));
        assert(out@ == b64_of(bb));
        assert(b64_parse(out@) == Some(bb));
        assert(out@.len() == 4 * ((bb.len() + 2) / 3));
        assert(spec_blob_b64_ok(out@, server_pk@, report@, sk_opt_parsed(&local_dsa_sk_b64)));
    }
    Ok(out)
}

} // verus!
