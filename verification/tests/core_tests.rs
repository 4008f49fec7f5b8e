use mercyshieldplus::ring::Poly;
use mercyshieldplus::ntt::{forward, inverse, pointwise_multiply};
use mercyshieldplus::codec::{compress, decompress, encode12, decode12, encode_msg, decode_msg};
use mercyshieldplus::sampler::{sample_noise, parse_uniform};

fn poly_from(values: &[i16]) -> Poly {
    let mut coeffs = vec![0i16; 256];
    for (i, v) in values.iter().enumerate() {
        coeffs[i] = *v;
    }
    Poly { coeffs }
}

fn varied_poly() -> Poly {
    // a deterministic spread of centered coefficients
    let mut coeffs = vec![0i16; 256];
    for i in 0..256usize {
        let v = ((i as i32 * 97 + 13) % 3329) as i32;
        coeffs[i] = if v > 1664 { (v - 3329) as i16 } else { v as i16 };
    }
    Poly { coeffs }
}

fn residues(p: &Poly) -> Vec<i32> {
    p.coeffs
        .iter()
        .map(|&c| {
            let mut v = c as i32 % 3329;
            if v < 0 {
                v += 3329;
            }
            v
        })
        .collect()
}

#[test]
fn ring_add_sub_roundtrip() {
    let a = varied_poly();
    let b = poly_from(&[5, -7, 1664, -1664, 100]);
    let c = a.add(&b).sub(&b);
    assert_eq!(residues(&c), residues(&a));
}

#[test]
fn ring_zero_is_identity() {
    let p = varied_poly();
    let z = Poly::zero();
    assert_eq!(residues(&p.add(&z)), residues(&p));
    assert_eq!(residues(&z.sub(&p).add(&p)), residues(&z));
}

#[test]
fn ring_constant_time_equality() {
    let a = varied_poly();
    let mut b = varied_poly();
    assert!(a.equals(&b));
    b.coeffs[200] = if b.coeffs[200] == 0 { 1 } else { 0 };
    assert!(!a.equals(&b));
    // equality is on residues, not on representatives
    let mut c = varied_poly();
    c.coeffs[0] = 1665; // same residue as -1664
    let mut d = varied_poly();
    d.coeffs[0] = -1664;
    c.reduce();
    assert!(c.equals(&d));
}

#[test]
fn ring_reduce_centers() {
    let mut p = poly_from(&[0; 5]);
    p.coeffs[0] = 3329i16;
    p.coeffs[1] = -3329i16;
    p.coeffs[2] = 1665i16;
    p.coeffs[3] = -1665i16;
    p.coeffs[4] = 20000i16;
    p.reduce();
    assert_eq!(p.coeffs[0], 0);
    assert_eq!(p.coeffs[1], 0);
    assert_eq!(p.coeffs[2], -1664);
    assert_eq!(p.coeffs[3], 1664);
    // 20000 mod 3329 = 26, centered
    assert_eq!(p.coeffs[4], 26);
    for &c in p.coeffs.iter() {
        assert!(-1664 <= c && c <= 1664);
    }
}

#[test]
fn ntt_roundtrip_impulse() {
    let p = poly_from(&[1]);
    let q = inverse(&forward(&p));
    assert_eq!(residues(&q), residues(&p));
}

#[test]
fn ntt_roundtrip_varied() {
    let p = varied_poly();
    let q = inverse(&forward(&p));
    assert_eq!(residues(&q), residues(&p));
}

#[test]
fn ntt_multiply_matches_schoolbook() {
    // (1 + X) * (1 + X) = 1 + 2X + X^2 in the negacyclic ring
    let a = poly_from(&[1, 1]);
    let prod = inverse(&pointwise_multiply(&forward(&a), &forward(&a)));
    let r = residues(&prod);
    assert_eq!(r[0], 1);
    assert_eq!(r[1], 2);
    assert_eq!(r[2], 1);
    for i in 3..256 {
        assert_eq!(r[i], 0);
    }
}

#[test]
fn ntt_multiply_negacyclic_wraparound() {
    // X^255 * X = X^256 = -1 mod (X^256 + 1)
    let mut a = vec![0i16; 256];
    a[255] = 1;
    let x255 = Poly { coeffs: a };
    let x1 = poly_from(&[0, 1]);
    let prod = inverse(&pointwise_multiply(&forward(&x255), &forward(&x1)));
    let r = residues(&prod);
    assert_eq!(r[0], 3328); // -1 mod q
    for i in 1..256 {
        assert_eq!(r[i], 0);
    }
}

#[test]
fn codec_roundtrip_bound_d4() {
    let p = varied_poly();
    let packed = compress(&p, 4);
    assert_eq!(packed.len(), 128);
    let q = decompress(&packed, 4).unwrap();
    let ra = residues(&p);
    let rb = residues(&q);
    for i in 0..256 {
        let diff = (ra[i] - rb[i]).rem_euclid(3329);
        let dist = diff.min(3329 - diff);
        assert!(dist <= 104, "coefficient {} moved {}", i, dist);
    }
}

#[test]
fn codec_roundtrip_bound_d10() {
    let p = varied_poly();
    let packed = compress(&p, 10);
    assert_eq!(packed.len(), 320);
    let q = decompress(&packed, 10).unwrap();
    let ra = residues(&p);
    let rb = residues(&q);
    for i in 0..256 {
        let diff = (ra[i] - rb[i]).rem_euclid(3329);
        let dist = diff.min(3329 - diff);
        assert!(dist <= 2, "coefficient {} moved {}", i, dist);
    }
}

#[test]
fn codec_exact_values() {
    // compress(1664, 4) = round(1664 * 16 / 3329) = 8; decompress(8, 4) = 1665
    let p = poly_from(&[1664]);
    let packed = compress(&p, 4);
    assert_eq!(packed[0] & 0x0F, 8);
    let q = decompress(&packed, 4).unwrap();
    assert_eq!(residues(&q)[0], 1665);
}

#[test]
fn codec_wrong_length_rejected() {
    assert!(decompress(&[0u8; 127], 4).is_none());
    assert!(decompress(&[0u8; 319], 10).is_none());
    assert!(decompress(&[0u8; 320], 4).is_none());
}

#[test]
fn codec_encode12_exact_roundtrip() {
    let p = varied_poly();
    let packed = encode12(&p);
    assert_eq!(packed.len(), 384);
    let q = decode12(&packed);
    assert_eq!(residues(&q), residues(&p));
}

#[test]
fn codec_msg_roundtrip() {
    let m: Vec<u8> = (0u8..32).map(|i| i.wrapping_mul(37).wrapping_add(5)).collect();
    let p = encode_msg(&m);
    let back = decode_msg(&p);
    assert_eq!(back, m);
}

#[test]
fn sampler_cbd_known_values() {
    // byte 0b0000_0001: low nibble 1 -> 1 - 0 = 1; high nibble 0 -> 0
    let mut bytes = vec![0u8; 128];
    bytes[0] = 0x01;
    bytes[1] = 0xC0; // nibbles 0x0 -> 0, 0xC -> bits a=0, b=2 -> -2
    let p = sample_noise(&bytes);
    assert_eq!(p.coeffs[0], 1);
    assert_eq!(p.coeffs[1], 0);
    assert_eq!(p.coeffs[2], 0);
    assert_eq!(p.coeffs[3], -2);
    for &c in p.coeffs.iter() {
        assert!(-2 <= c && c <= 2);
    }
}

#[test]
fn sampler_rejection_accepts_small_values() {
    // groups of three zero bytes give two accepted zeros each
    let bytes = vec![0u8; 384];
    let p = parse_uniform(&bytes);
    assert_eq!(p.coeffs, vec![0i16; 256]);
}

#[test]
fn sampler_rejection_skips_large_values() {
    // first group: d1 = 0xFFF (rejected), d2 = 0xFFF (rejected);
    // the rest are zeros, so the poly is all zeros
    let mut bytes = vec![0u8; 387];
    bytes[0] = 0xFF;
    bytes[1] = 0xFF;
    bytes[2] = 0xFF;
    let p = parse_uniform(&bytes);
    assert_eq!(p.coeffs, vec![0i16; 256]);
}
