use mercyshieldplus::sig::{sig_keygen, sign, verify};
use mercyshieldplus::blob::{build_blob, open_blob};
use mercyshieldplus::kem::kyber_keypair;
use mercyshieldplus::errors::ShieldError;
use mercyshieldplus::integrity::{evaluate_integrity, report_to_json, IntegrityVerdict};

#[test]
fn sig_roundtrip_and_bit_flips() {
    let (seed, vk) = sig_keygen();
    let message = b"device integrity report".to_vec();
    let sig = sign(&seed, &message);
    assert!(verify(&vk, &message, &sig));

    // flipping any single bit of the message must fail verification
    for byte in [0usize, 10, 22] {
        for bit in 0..8 {
            let mut m2 = message.clone();
            m2[byte] ^= 1 << bit;
            assert!(!verify(&vk, &m2, &sig));
        }
    }
    // flipping bits of the signature must fail verification
    for byte in [0usize, 1000, 3308] {
        let mut s2 = sig.clone();
        s2[byte] ^= 1;
        assert!(!verify(&vk, &message, &s2));
    }
}

#[test]
fn sig_wrong_lengths_verify_false() {
    let (seed, vk) = sig_keygen();
    let message = b"msg".to_vec();
    let sig = sign(&seed, &message);
    assert!(!verify(&vk[..1951], &message, &sig));
    assert!(!verify(&vk, &message, &sig[..3308]));
}

fn self_describing_report(vk: &[u8], tail: &[u8]) -> Vec<u8> {
    let mut r = vk.to_vec();
    r.extend_from_slice(tail);
    r
}

#[test]
fn blob_roundtrip_signed() {
    let (server_pk, server_sk) = kyber_keypair();
    let (seed, vk) = sig_keygen();
    let report = self_describing_report(&vk, b"{\"status\":\"genuine\",\"risk\":0}");
    let blob = build_blob(&report, Some(&seed), &server_pk).unwrap();
    let (got_report, got_vk) = open_blob(&blob, &server_sk).unwrap();
    assert_eq!(got_report, report);
    assert_eq!(got_vk, vk);
}

#[test]
fn blob_roundtrip_various_report_sizes() {
    let (server_pk, server_sk) = kyber_keypair();
    let (seed, vk) = sig_keygen();
    for tail_len in [1usize, 100, 4096] {
        let tail: Vec<u8> = (0..tail_len).map(|i| (i % 251) as u8).collect();
        let report = self_describing_report(&vk, &tail);
        let blob = build_blob(&report, Some(&seed), &server_pk).unwrap();
        let (got_report, got_vk) = open_blob(&blob, &server_sk).unwrap();
        assert_eq!(got_report, report);
        assert_eq!(got_vk, vk);
    }
}

#[test]
fn blob_too_short_is_authentication_failure() {
    let (_pk, server_sk) = kyber_keypair();
    assert_eq!(
        open_blob(&vec![0u8; 1115], &server_sk).unwrap_err(),
        ShieldError::AuthenticationFailure
    );
    assert_eq!(
        open_blob(&vec![0u8; 0], &server_sk).unwrap_err(),
        ShieldError::AuthenticationFailure
    );
}

#[test]
fn blob_corrupted_nonce_or_tag_is_authentication_failure() {
    let (server_pk, server_sk) = kyber_keypair();
    let (seed, vk) = sig_keygen();
    let report = self_describing_report(&vk, b"payload");
    let blob = build_blob(&report, Some(&seed), &server_pk).unwrap();

    // corrupt a nonce byte
    let mut b1 = blob.clone();
    b1[1088] ^= 0xFF;
    assert_eq!(
        open_blob(&b1, &server_sk).unwrap_err(),
        ShieldError::AuthenticationFailure
    );
    // corrupt the final tag byte
    let mut b2 = blob.clone();
    let last = b2.len() - 1;
    b2[last] ^= 1;
    assert_eq!(
        open_blob(&b2, &server_sk).unwrap_err(),
        ShieldError::AuthenticationFailure
    );
    // corrupt a ciphertext byte: decapsulation silently diverges, so the
    // symmetric key is wrong and the tag cannot verify
    let mut b3 = blob.clone();
    b3[17] ^= 1;
    assert_eq!(
        open_blob(&b3, &server_sk).unwrap_err(),
        ShieldError::AuthenticationFailure
    );
}

#[test]
fn blob_forged_report_is_signature_invalid() {
    let (server_pk, server_sk) = kyber_keypair();
    let (seed, _vk) = sig_keygen();
    let (_seed2, other_vk) = sig_keygen();
    // the report claims a different verifying key than the one that signed
    let report = self_describing_report(&other_vk, b"forged");
    let blob = build_blob(&report, Some(&seed), &server_pk).unwrap();
    assert_eq!(
        open_blob(&blob, &server_sk).unwrap_err(),
        ShieldError::SignatureInvalid
    );
}

#[test]
fn blob_unsigned_payload_is_format_error() {
    let (server_pk, server_sk) = kyber_keypair();
    let report = b"short unsigned report".to_vec();
    let blob = build_blob(&report, None, &server_pk).unwrap();
    assert_eq!(
        open_blob(&blob, &server_sk).unwrap_err(),
        ShieldError::FormatError
    );
}

#[test]
fn blob_wrong_length_keys_are_format_errors() {
    let (server_pk, server_sk) = kyber_keypair();
    let (seed, _vk) = sig_keygen();
    assert_eq!(
        build_blob(b"r", Some(&seed), &server_pk[..1183]).unwrap_err(),
        ShieldError::FormatError
    );
    let short_seed = vec![0u8; 31];
    assert_eq!(
        build_blob(b"r", Some(&short_seed), &server_pk).unwrap_err(),
        ShieldError::FormatError
    );
    let blob = build_blob(b"r", Some(&seed), &server_pk).unwrap();
    assert_eq!(
        open_blob(&blob, &server_sk[..2399]).unwrap_err(),
        ShieldError::FormatError
    );
}

#[test]
fn api_blob_rejects_bad_base64() {
    assert_eq!(
        mercyshieldplus::pqapi::pq_secure_attestation_blob(
            b"r".to_vec(),
            "!!!not base64!!!".to_string(),
            None
        )
        .unwrap_err(),
        ShieldError::FormatError
    );
}

#[test]
fn api_sign_rejects_bad_seed() {
    assert_eq!(
        mercyshieldplus::pqapi::pq_sign_data("####".to_string(), b"m".to_vec()).unwrap_err(),
        ShieldError::FormatError
    );
    // valid base64 of the wrong length
    assert_eq!(
        mercyshieldplus::pqapi::pq_sign_data("AAAA".to_string(), b"m".to_vec()).unwrap_err(),
        ShieldError::FormatError
    );
}

#[test]
fn error_descriptions() {
    assert_eq!(ShieldError::FormatError.describe(), "invalid format");
    assert_eq!(ShieldError::AuthenticationFailure.describe(), "invalid blob");
    assert_eq!(ShieldError::SignatureInvalid.describe(), "forged report");
}

#[test]
fn integrity_scores() {
    let r = evaluate_integrity(vec![], vec![], false, None);
    assert_eq!(r.risk_score, 10);
    assert!(matches!(r.verdict, IntegrityVerdict::Suspicious));

    let r = evaluate_integrity(
        vec!["/system/bin/su".to_string()],
        vec!["ro.debuggable=1".to_string()],
        true,
        Some("".to_string()),
    );
    assert_eq!(r.risk_score, 100);
    assert!(matches!(r.verdict, IntegrityVerdict::Compromised));

    let r = evaluate_integrity(vec![], vec![], false, Some("MEETS_BASIC_INTEGRITY".to_string()));
    assert_eq!(r.risk_score, 15);
    assert!(matches!(r.verdict, IntegrityVerdict::Suspicious));

    let r = evaluate_integrity(vec![], vec![], false, Some("MEETS_DEVICE_INTEGRITY".to_string()));
    assert_eq!(r.risk_score, 0);
    assert!(matches!(r.verdict, IntegrityVerdict::Genuine));

    // the verdicts are matched as substrings of a composite token
    let r = evaluate_integrity(
        vec![],
        vec![],
        false,
        Some("[MEETS_BASIC_INTEGRITY, MEETS_DEVICE_INTEGRITY]".to_string()),
    );
    assert_eq!(r.risk_score, 0);
    assert!(matches!(r.verdict, IntegrityVerdict::Genuine));

    // any other supplied token is a failed check
    let r = evaluate_integrity(vec![], vec![], false, Some("UNEVALUATED".to_string()));
    assert_eq!(r.risk_score, 35);
    assert!(matches!(r.verdict, IntegrityVerdict::Suspicious));

    let r = evaluate_integrity(vec![], vec![], true, None);
    assert_eq!(r.risk_score, 30);
    assert!(matches!(r.verdict, IntegrityVerdict::Suspicious));
}

#[test]
fn integrity_report_json() {
    let r = evaluate_integrity(vec![], vec![], false, Some("MEETS_DEVICE_INTEGRITY".to_string()));
    let json = report_to_json(r);
    assert_eq!(json, "{\"verdict\":\"Genuine\",\"risk_score\":0,\"details\":[]}");

    let r = evaluate_integrity(vec![], vec![], true, None);
    let json = report_to_json(r);
    assert_eq!(
        json,
        "{\"verdict\":\"Suspicious\",\"risk_score\":30,\"details\":[\"Magisk/Zygisk indicators found\",\"Play Integrity unavailable\"]}"
    );
}

#[test]
fn ui_status_mentions_rendering() {
    assert!(mercyshieldplus::mercy_shield_ui_status().contains("Rendering"));
}
