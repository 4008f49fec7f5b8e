//! Blob protocol: KEM, symmetric authenticated cipher and signature composed
//! into one wire-format attestation blob.
//!
//! Layout: `[ciphertext: 1088][nonce: 12][sealed payload: variable, tag
//! included]`. The sealed payload is `report || signature`; the report is
//! self-describing, carrying the signer's 1952-byte verifying key as its
//! leading field.

use vstd::prelude::*;
use crate::kem::{spec_ct, spec_ss, spec_decaps, encapsulate_derand, decapsulate};
use crate::aead::{gcm_open, gseal, aead_seal, aead_open};
use crate::sig::{dsa_sig, dsa_vk, dsa_verifies, sign, verify};
use crate::trusted::{random_bytes, wipe_bytes};
use crate::bytes::{push_all, copy_range};
use crate::errors::ShieldError;

verus! {

/// The view of an optional signing seed.
pub open spec fn seed_opt_view(s: Option<&Vec<u8>>) -> Option<Seq<u8>> {
    match s {
        Option::Some(v) => Option::Some(v@),
        Option::None => Option::None,
    }
}

/// The signed payload carried inside a blob: the report, with the detached
/// signature appended when a signing seed is supplied.
pub open spec fn spec_payload(report: Seq<u8>, seed: Option<Seq<u8>>) -> Seq<u8> {
    match seed {
        Option::Some(s) => report + dsa_sig(s, report),
        Option::None => report,
    }
}

/// The full blob for a public key, message seed, nonce and payload.
pub open spec fn spec_blob(pk: Seq<u8>, m: Seq<u8>, nonce: Seq<u8>, payload: Seq<u8>) -> Seq<u8> {
    spec_ct(pk, m) + nonce + gseal(spec_ss(pk, m), nonce, payload)
}

/// The result of opening a blob with a server secret key.
pub open spec fn spec_open_blob(blob: Seq<u8>, sk: Seq<u8>) -> Result<
    (Seq<u8>, Seq<u8>),
    ShieldError,
> {
    if blob.len() < 1116 {
        Result::Err(ShieldError::AuthenticationFailure)
    } else {
        let ct = blob.subrange(0, 1088);
        let nonce = blob.subrange(1088, 1100);
        let sealed = blob.subrange(1100, blob.len() as int);
        let ss = spec_decaps(sk, ct);
        match gcm_open(ss, nonce, sealed) {
            Option::None => Result::Err(ShieldError::AuthenticationFailure),
            Option::Some(payload) => {
                if payload.len() < 5261 {
                    Result::Err(ShieldError::FormatError)
                } else {
                    let report = payload.subrange(0, payload.len() - 3309);
                    let sig = payload.subrange(payload.len() - 3309, payload.len() as int);
                    let vk = payload.subrange(0, 1952);
                    if dsa_verifies(vk, report, sig) {
                        Result::Ok((report, vk))
                    } else {
                        Result::Err(ShieldError::SignatureInvalid)
                    }
                }
            },
        }
    }
}

/// Build an attestation blob: sign the report when a signing seed is given,
/// encapsulate a fresh shared secret to the server's public key, seal the
/// payload under it with a fresh nonce, and emit ciphertext, nonce and
/// sealed payload in order. Fails with FormatError exactly when the public
/// key is not 1184 bytes or a supplied signing seed is not 32 bytes.
pub fn build_blob(report: &[u8], signing_seed: Option<&Vec<u8>>, server_pk: &[u8]) -> (r: Result<
    Vec<u8>,
    ShieldError,
>)
    requires
        report@.len() < 0x100_0000,
    ensures
        match r {
            Ok(b) => {
                &&& server_pk@.len() == 1184
                &&& (signing_seed matches Some(s) ==> s@.len() == 32)
                &&& exists|m: Seq<u8>, nonce: Seq<u8>|
                    m.len() == 32 && nonce.len() == 12 && b@ == #[trigger] spec_blob(
                        server_pk@,
                        m,
                        nonce,
                        spec_payload(report@, seed_opt_view(signing_seed)),
                    )
            },
            Err(e) => {
                &&& e == ShieldError::FormatError
                &&& (server_pk@.len() != 1184 || (signing_seed matches Some(s) && s@.len() != 32))
            },
        },
{
    if server_pk.len() != 1184 {
        return Err(ShieldError::FormatError);
    }
    let mut payload: Vec<u8> = Vec::new();
    push_all(&mut payload, report);
    match signing_seed {
        Some(seed) => {
            if seed.len() != 32 {
                return Err(ShieldError::FormatError);
            }
            let sig = sign(seed.as_slice(), report);
            push_all(&mut payload, sig.as_slice());
        },
        None => {},
    }

    let mut m: Vec<u8> = random_bytes(32);
    let (ct, mut ss) = encapsulate_derand(server_pk, m.as_slice());
    let nonce: Vec<u8> = random_bytes(12);
    let sealed: Vec<u8> = aead_seal(ss.as_slice(), nonce.as_slice(), payload.as_slice());

    let mut blob: Vec<u8> = ct;
    push_all(&mut blob, nonce.as_slice());
    push_all(&mut blob, sealed.as_slice());

    proof {
        let ghost mm = m@;
        let ghost nn = nonce@;
        assert(blob@ == spec_blob(
            server_pk@,
            mm,
            nn,
            spec_payload(report@, seed_opt_view(signing_seed)),
        ));
    }
    // the message seed and the shared secret are cleared before returning
    wipe_bytes(&mut m);
    wipe_bytes(&mut ss);
    Ok(blob)
}

/// Open an attestation blob with the server's secret key: split it at the
/// fixed ciphertext and nonce lengths, decapsulate, open the sealed payload
/// (a tag mismatch is AuthenticationFailure), split off the fixed-length
/// trailing signature, read the claimed verifying key from the report's
/// leading field, and verify the signature (a failure is SignatureInvalid).
/// A secret key that is not 2400 bytes is FormatError.
pub fn open_blob(blob: &[u8], server_sk: &[u8]) -> (r: Result<(Vec<u8>, Vec<u8>), ShieldError>)
    ensures
        match r {
            Ok(p) => {
                &&& server_sk@.len() == 2400
                &&& spec_open_blob(blob@, server_sk@) == Result::Ok::<
                    (Seq<u8>, Seq<u8>),
                    ShieldError,
                >((p.0@, p.1@))
            },
            Err(e) => {
                if server_sk@.len() != 2400 {
                    e == ShieldError::FormatError
                } else {
                    spec_open_blob(blob@, server_sk@) == Result::Err::<
                        (Seq<u8>, Seq<u8>),
                        ShieldError,
                    >(e)
                }
            },
        },
{
    if server_sk.len() != 2400 {
        return Err(ShieldError::FormatError);
    }
    if blob.len() < 1116 {
        return Err(ShieldError::AuthenticationFailure);
    }
    let ct: Vec<u8> = copy_range(blob, 0, 1088);
    let nonce: Vec<u8> = copy_range(blob, 1088, 1100);
    let sealed: Vec<u8> = copy_range(blob, 1100, blob.len());
    let mut ss: Vec<u8> = decapsulate(server_sk, ct.as_slice());
    let opened = aead_open(ss.as_slice(), nonce.as_slice(), sealed.as_slice());
    wipe_bytes(&mut ss);
    let payload: Vec<u8> = match opened {
        Some(p) => p,
        None => {
            return Err(ShieldError::AuthenticationFailure);
        },
    };
    if payload.len() < 5261 {
        return Err(ShieldError::FormatError);
    }
    let report: Vec<u8> = copy_range(payload.as_slice(), 0, payload.len() - 3309);
    let sig: Vec<u8> = copy_range(payload.as_slice(), payload.len() - 3309, payload.len());
    let vk: Vec<u8> = copy_range(payload.as_slice(), 0, 1952);
    if verify(vk.as_slice(), report.as_slice(), sig.as_slice()) {
        Ok((report, vk))
    } else {
        Err(ShieldError::SignatureInvalid)
    }
}

} // verus!
// The blob round-trip law.

verus! {

/// Blob round trip: a blob built over a self-describing signed report opens
/// to exactly that report and the signer's verifying key.
///
/// The premises are the three cryptographic guarantees at this instance,
/// each stated on the trusted binding that provides it: the KEM recovers the
/// encapsulated message (fails only with negligible probability over the
/// noise), the cipher opens what it sealed, and the signature verifies under
/// the key derived from the same seed. Everything else -- the wire layout,
/// the splits, the branch logic -- is proved.
pub proof fn lemma_blob_roundtrip(
    d: Seq<u8>,
    z: Seq<u8>,
    m: Seq<u8>,
    nonce: Seq<u8>,
    seed: Seq<u8>,
    report: Seq<u8>,
)
    requires
        d.len() == 32,
        z.len() == 32,
        m.len() == 32,
        nonce.len() == 12,
        report.len() >= 1952,
        report.subrange(0, 1952) == dsa_vk(seed),
        crate::kem::spec_decaps_msg(
            crate::kem::spec_keypair(d, z).1,
            spec_ct(crate::kem::spec_keypair(d, z).0, m),
        ) == m,
        gcm_open(
            spec_ss(crate::kem::spec_keypair(d, z).0, m),
            nonce,
            gseal(
                spec_ss(crate::kem::spec_keypair(d, z).0, m),
                nonce,
                report + dsa_sig(seed, report),
            ),
        ) == Some(report + dsa_sig(seed, report)),
        dsa_verifies(dsa_vk(seed), report, dsa_sig(seed, report)),
    ensures
        spec_open_blob(
            spec_blob(
                crate::kem::spec_keypair(d, z).0,
                m,
                nonce,
                spec_payload(report, Option::Some(seed)),
            ),
            crate::kem::spec_keypair(d, z).1,
        ) == Result::Ok::<(Seq<u8>, Seq<u8>), ShieldError>((report, dsa_vk(seed))),
{
    let pk = crate::kem::spec_keypair(d, z).0;
    let sk = crate::kem::spec_keypair(d, z).1;
    let payload = report + dsa_sig(seed, report);
    assert(spec_payload(report, Option::Some(seed)) == payload);
    let ct = spec_ct(pk, m);
    let sealed = gseal(spec_ss(pk, m), nonce, payload);
    let blob = spec_blob(pk, m, nonce, payload);
    assert(ct.len() == 1088);
    assert(sealed.len() == payload.len() + 16);
    assert(blob.len() == 1100 + sealed.len());
    assert(blob.len() >= 1116);
    assert(blob.subrange(0, 1088) =~= ct);
    assert(blob.subrange(1088, 1100) =~= nonce);
    assert(blob.subrange(1100, blob.len() as int) =~= sealed);
    crate::kem::lemma_kem_correctness(d, z, m);
    assert(crate::kem::spec_decaps(sk, ct) == spec_ss(pk, m));
    assert(gcm_open(crate::kem::spec_decaps(sk, ct), nonce, sealed) == Some(payload));
    assert(payload.len() >= 5261);
    assert(payload.subrange(0, payload.len() - 3309) =~= report);
    assert(payload.subrange(payload.len() - 3309, payload.len() as int) =~= dsa_sig(seed, report));
    assert(payload.subrange(0, 1952) =~= dsa_vk(seed));
}

} // verus!
