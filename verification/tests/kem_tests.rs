use mercyshieldplus::kem::{
    keygen_derand, encapsulate_derand, decapsulate, decapsulate_checked, encapsulate,
    kyber_keypair, kyber_encapsulate, kyber_decapsulate,
};
use mercyshieldplus::errors::ShieldError;

fn seq(from: u8, n: usize) -> Vec<u8> {
    (0..n).map(|i| from.wrapping_add(i as u8)).collect()
}

#[test]
fn kem_known_answer() {
    let d = seq(0, 32);
    let z = seq(32, 32);
    let m = seq(64, 32);
    let (pk, sk) = keygen_derand(&d, &z);
    assert_eq!(pk.len(), 1184);
    assert_eq!(sk.len(), 2400);
    assert_eq!(&pk[0..8], &[0xcb, 0xd3, 0xf6, 0xee, 0xba, 0x67, 0x6b, 0x21]);
    let (ct, ss) = encapsulate_derand(&pk, &m);
    assert_eq!(ct.len(), 1088);
    assert_eq!(&ct[0..8], &[0xc2, 0xbd, 0xec, 0x95, 0x07, 0x05, 0x1d, 0xc6]);
    let expected_ss: Vec<u8> = vec![
        0xab, 0x78, 0xf9, 0x77, 0x23, 0x1b, 0x84, 0x68, 0x35, 0x97, 0x90, 0xa2, 0x87, 0xf6,
        0x33, 0xa4, 0x50, 0x64, 0x3f, 0xc5, 0x5c, 0x7b, 0xa1, 0x3f, 0x0b, 0xa1, 0x4f, 0x1d,
        0x26, 0x23, 0x52, 0x4e,
    ];
    assert_eq!(ss, expected_ss);
    let ss2 = decapsulate(&sk, &ct);
    assert_eq!(ss2, expected_ss);
}

#[test]
fn kem_honest_roundtrip() {
    let (pk, sk) = kyber_keypair();
    let (ss1, ct) = kyber_encapsulate(&pk);
    let ss2 = kyber_decapsulate(&sk, &ct);
    assert_eq!(ss1, ss2);
}

#[test]
fn kem_tampered_ciphertext_rejects_implicitly() {
    let (pk, sk) = kyber_keypair();
    let (ss1, ct) = kyber_encapsulate(&pk);
    for pos in [0usize, 500, 1000, 1087] {
        let mut tampered = ct.clone();
        tampered[pos] ^= 1;
        // no error is surfaced; the secret silently differs
        let ss2 = decapsulate_checked(&sk, &tampered).unwrap();
        assert_eq!(ss2.len(), 32);
        assert_ne!(ss2, ss1, "tampered byte {} produced the honest secret", pos);
    }
}

#[test]
fn kem_keypairs_differ() {
    let (pk1, _) = kyber_keypair();
    let (pk2, _) = kyber_keypair();
    assert_ne!(pk1, pk2);
}

#[test]
fn kem_wrong_length_public_key() {
    assert_eq!(
        encapsulate(&vec![0u8; 1183]).unwrap_err(),
        ShieldError::FormatError
    );
    assert_eq!(
        encapsulate(&vec![0u8; 0]).unwrap_err(),
        ShieldError::FormatError
    );
}

#[test]
fn kem_wrong_length_inputs_decapsulate() {
    let (pk, sk) = kyber_keypair();
    let (_ss, ct) = kyber_encapsulate(&pk);
    assert_eq!(
        decapsulate_checked(&sk[..2399], &ct).unwrap_err(),
        ShieldError::FormatError
    );
    assert_eq!(
        decapsulate_checked(&sk, &ct[..1087]).unwrap_err(),
        ShieldError::FormatError
    );
    assert!(decapsulate_checked(&sk, &ct).is_ok());
}

#[test]
fn kem_deterministic_reencapsulation() {
    let d = seq(7, 32);
    let z = seq(77, 32);
    let m = seq(147, 32);
    let (pk, _sk) = keygen_derand(&d, &z);
    let (ct1, ss1) = encapsulate_derand(&pk, &m);
    let (ct2, ss2) = encapsulate_derand(&pk, &m);
    assert_eq!(ct1, ct2);
    assert_eq!(ss1, ss2);
}
