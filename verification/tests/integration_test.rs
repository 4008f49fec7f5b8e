use base64::Engine;

#[test]
fn test_mercy_status() {
    assert!(mercyshieldplus::mercy_shield_status().contains("Green Harmony"));
}

#[test]
fn test_kyber_roundtrip_placeholder() {
    let (pk, sk) = mercyshieldplus::kyber_keypair();
    let (ss1, ct) = mercyshieldplus::kyber_encapsulate(&pk);
    let ss2 = mercyshieldplus::kyber_decapsulate(&sk, &ct);
    assert_eq!(ss1.len(), 32);
    assert_eq!(ss2.len(), 32);
    assert_eq!(ss1, ss2);
}

#[test]
fn test_key_generation_non_empty() {
    let (kem_pk_b64, dsa_pk_b64) = mercyshieldplus::generate_pq_keypair();
    assert!(!kem_pk_b64.is_empty(), "KEM PK empty");
    assert!(!dsa_pk_b64.is_empty(), "DSA PK empty");

    let kem_pk_bytes = base64::engine::general_purpose::STANDARD
        .decode(&kem_pk_b64)
        .unwrap();
    assert_eq!(kem_pk_bytes.len(), 1184, "Wrong KEM PK size");
}

#[test]
fn test_sign_verify_roundtrip() {
    let message = b"MercyShieldPlus Eternal Integrity Report".to_vec();

    let (_kem_pk_b64, _dsa_pk_b64) = mercyshieldplus::generate_pq_keypair();
    let (_kem_pk_b64_2, dsa_pk_b64_2) = mercyshieldplus::generate_pq_keypair();

    let sig_b64 = mercyshieldplus::pq_sign_data(dsa_pk_b64_2.clone(), message.clone())
        .unwrap();

    let verified = mercyshieldplus::pq_verify_data(dsa_pk_b64_2, message, sig_b64);
    assert!(verified, "Signature verification failed on roundtrip");
}

#[test]
fn test_sign_verify_tampered_message() {
    let message = b"Original Report".to_vec();
    let tampered = b"Tampered Report".to_vec();

    let (_kem_pk_b64, _dsa_pk_b64) = mercyshieldplus::generate_pq_keypair();
    let (_kem_pk_b64_2, dsa_pk_b64_2) = mercyshieldplus::generate_pq_keypair();

    let sig_b64 = mercyshieldplus::pq_sign_data(dsa_pk_b64_2.clone(), message).unwrap();

    let verified = mercyshieldplus::pq_verify_data(dsa_pk_b64_2, tampered, sig_b64);
    assert!(!verified, "Tampered message verified - security failure");
}

#[test]
fn test_blob_generation_format() {
    let report = b"{\"status\":\"genuine\"}".to_vec();
    let server_pk_b64 = mercyshieldplus::generate_pq_keypair().0;

    let blob_b64 =
        mercyshieldplus::pq_secure_attestation_blob(report.clone(), server_pk_b64.clone(), None)
            .unwrap();

    let blob_bytes = base64::engine::general_purpose::STANDARD
        .decode(blob_b64)
        .unwrap();
    assert!(blob_bytes.len() > 1088 + 12 + 16, "Blob too short");
    // exact layout: ciphertext, nonce, sealed payload with its tag
    assert_eq!(blob_bytes.len(), 1088 + 12 + report.len() + 16);
}

#[test]
fn test_blob_with_signature() {
    let report = b"{\"risk\":0}".to_vec();

    let (_kem_pk, _dsa_pk_b64) = mercyshieldplus::generate_pq_keypair();
    let (kem_pk_server, dsa_pk_client) = mercyshieldplus::generate_pq_keypair();

    let blob_b64 = mercyshieldplus::pq_secure_attestation_blob(
        report.clone(),
        kem_pk_server,
        Some(dsa_pk_client.clone()),
    )
    .unwrap();

    let blob_bytes = base64::engine::general_purpose::STANDARD
        .decode(blob_b64)
        .unwrap();
    assert!(blob_bytes.len() > 4000, "Blob missing signature length");
}

#[test]
fn test_derive_aes_key() {
    let (pk, _sk) = mercyshieldplus::kyber_keypair();
    let (ss, _ct) = mercyshieldplus::kyber_encapsulate(&pk);

    let key = mercyshieldplus::derive_aes_key(&ss);
    assert_eq!(key.len(), 32, "Derived key wrong size");
    assert_ne!(key, vec![0u8; 32], "Derived key all zero");
}

#[test]
fn pq_keygen_sign_verify() {
    let (kem_pk, dsa_pk) = mercyshieldplus::generate_pq_keypair();
    assert!(!kem_pk.is_empty());
    assert!(!dsa_pk.is_empty());
}

#[test]
fn integrity_basic() {
    // an unrecognized token is a failed check: fail closed
    let report = mercyshieldplus::evaluate_integrity(
        vec![],
        vec![],
        false,
        Some("valid_token".to_string()),
    );
    assert_eq!(report.risk_score, 35);
    assert!(matches!(
        report.verdict,
        mercyshieldplus::IntegrityVerdict::Suspicious
    ));
    assert_eq!(
        report.details,
        vec!["Play Integrity failed \u{2014} compromised".to_string()]
    );
}
