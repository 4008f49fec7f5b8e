//! Sampler: centered binomial noise and uniform rejection sampling from an
//! extendable-output hash stream.
//!
//! Noise: each coefficient is the difference of two 2-bit sums drawn from its
//! own nibble of the input, so exactly half a byte is consumed per
//! coefficient with no leftover-bit reuse. Uniform: consecutive 12-bit
//! little-endian groups are read from the stream and kept only if strictly
//! below q, until 256 values are accepted. The stream length is chosen so
//! large that fewer than 256 acceptances cannot occur in practice; if it did,
//! the remaining coefficients are zero, identically on both ends.

use vstd::prelude::*;
use crate::ring::Poly;
use crate::ring::center_of_residue;
use crate::trusted::{shake128, xof128, shake256, xof256};
use crate::bytes::push_all;
use crate::lemmas::lemma_mod_small_signed;

verus! {

/// The centered-binomial value (in [-2, 2]) drawn from nibble i of a byte
/// string: the sum of its low two bits minus the sum of its high two bits.
pub open spec fn cbd_value(b: Seq<u8>, i: int) -> int {
    let nib = if i % 2 == 0 {
        (b[i / 2] as int) % 16
    } else {
        (b[i / 2] as int) / 16
    };
    (nib % 2) + ((nib / 2) % 2) - ((nib / 4) % 2) - ((nib / 8) % 2)
}

/// The noise element sampled from 128 bytes: residues of the 256 centered
/// binomial values.
pub open spec fn spec_cbd(b: Seq<u8>) -> Seq<int> {
    Seq::new(256, |i: int| cbd_value(b, i) % 3329)
}

/// Draw a noise element from 128 input bytes, consuming one nibble per
/// coefficient.
#[verifier::loop_isolation(false)]
pub fn sample_noise(bytes: &[u8]) -> (r: Poly)
    requires
        bytes@.len() == 128,
    ensures
        r.wf(),
        r.repr() == spec_cbd(bytes@),
{
    let ghost s = bytes@;
    let mut out: Vec<i16> = Vec::new();
    for i in 0..256usize
        invariant
            out@.len() == i,
            forall|j: int| 0 <= j < i ==> -1664 <= #[trigger] out@[j] <= 1664,
            forall|j: int|
                0 <= j < i ==> (#[trigger] out@[j] as int) % 3329 == cbd_value(s, j) % 3329,
    {
        let byte: u16 = bytes[i / 2] as u16;
        let nib: u16 = if i % 2 == 0 {
            byte % 16
        } else {
            byte / 16
        };
        let a: i32 = ((nib % 2) + ((nib / 2) % 2)) as i32;
        let b: i32 = (((nib / 4) % 2) + ((nib / 8) % 2)) as i32;
        let c: i32 = a - b;
        proof {
            lemma_mod_small_signed(c as int);
            lemma_mod_small_signed((c as int) % 3329);
        }
        out.push(c as i16);
    }
    let r = Poly { coeffs: out };
    proof {
        assert(r.repr() =~= spec_cbd(s));
    }
    r
}

/// The first 12-bit value of 3-byte group g, read little-endian.
pub open spec fn group_d1(b: Seq<u8>, g: int) -> int {
    (b[3 * g] as int) + 256 * ((b[3 * g + 1] as int) % 16)
}

/// The second 12-bit value of 3-byte group g, read little-endian.
pub open spec fn group_d2(b: Seq<u8>, g: int) -> int {
    ((b[3 * g + 1] as int) / 16) + 16 * (b[3 * g + 2] as int)
}

/// Rejection parse: walk the 3-byte groups from g on, appending each 12-bit
/// value that is strictly below q, until 256 values are accepted or the
/// stream ends.
pub open spec fn spec_parse_from(b: Seq<u8>, g: int, acc: Seq<int>) -> Seq<int>
    decreases b.len() - 3 * g,
{
    if acc.len() >= 256 || 3 * (g + 1) > b.len() || g < 0 {
        acc
    } else {
        let d1 = group_d1(b, g);
        let d2 = group_d2(b, g);
        let acc1 = if d1 < 3329 {
            acc.push(d1)
        } else {
            acc
        };
        let acc2 = if acc1.len() < 256 && d2 < 3329 {
            acc1.push(d2)
        } else {
            acc1
        };
        spec_parse_from(b, g + 1, acc2)
    }
}

/// The uniform element parsed from a byte stream: the accepted values, padded
/// with zeros in the (practically impossible) case that fewer than 256 were
/// accepted.
pub open spec fn spec_parse_poly(b: Seq<u8>) -> Seq<int> {
    let v = spec_parse_from(b, 0, Seq::empty());
    Seq::new(256, |i: int| if i < v.len() { v[i] } else { 0 })
}

/// Parse a uniform ring element from a byte stream by 12-bit rejection.
#[verifier::loop_isolation(false)]
#[verifier::rlimit(60)]
pub fn parse_uniform(bytes: &[u8]) -> (r: Poly)
    ensures
        r.wf(),
        r.repr() == spec_parse_poly(bytes@),
{
    let ghost s = bytes@;
    let mut out: Vec<i16> = Vec::new();
    let ghost gacc: Seq<int> = Seq::empty();
    let mut g: usize = 0;
    let ng: usize = bytes.len() / 3;
    proof {
        assert(spec_parse_from(s, 0, Seq::empty()) == spec_parse_from(s, g as int, gacc));
        vstd::arithmetic::div_mod::lemma_fundamental_div_mod(s.len() as int, 3);
        vstd::arithmetic::div_mod::lemma_mod_bound(s.len() as int, 3);
    }
    while out.len() < 256 && g < ng
        invariant
            out@.len() == gacc.len() <= 256,
            ng == s.len() / 3,
            s.len() == 3 * (s.len() / 3) + s.len() % 3,
            0 <= s.len() % 3 < 3,
            g <= ng,
            forall|j: int| 0 <= j < out@.len() ==> -1664 <= #[trigger] out@[j] <= 1664,
            forall|j: int|
                0 <= j < out@.len() ==> (#[trigger] out@[j] as int) % 3329 == gacc[j],
            forall|j: int| 0 <= j < gacc.len() ==> 0 <= #[trigger] gacc[j] < 3329,
            spec_parse_from(s, 0, Seq::empty()) == spec_parse_from(s, g as int, gacc),
        decreases ng - g,
    {
        let b0: u16 = bytes[3 * g] as u16;
        let b1: u16 = bytes[3 * g + 1] as u16;
        let b2: u16 = bytes[3 * g + 2] as u16;
        let d1: u16 = b0 + 256 * (b1 % 16);
        let d2: u16 = b1 / 16 + 16 * b2;
        proof {
            assert(d1 as int == group_d1(s, g as int));
            assert(d2 as int == group_d2(s, g as int));
        }
        let ghost acc0 = gacc;
        if d1 < 3329 {
            out.push(center_of_residue(d1 as i32));
            proof {
                gacc = gacc.push(d1 as int);
            }
        }
        if out.len() < 256 && d2 < 3329 {
            out.push(center_of_residue(d2 as i32));
            proof {
                gacc = gacc.push(d2 as int);
            }
        }
        proof {
            assert(spec_parse_from(s, g as int, acc0) == spec_parse_from(s, g as int + 1, gacc));
        }
        g = g + 1;
    }
    proof {
        if out.len() < 256 {
            assert(3 * (g as int + 1) > s.len());
        }
        assert(spec_parse_from(s, g as int, gacc) == gacc);
        assert(spec_parse_from(s, 0, Seq::empty()) == gacc);
    }
    while out.len() < 256
        invariant
            out@.len() >= gacc.len(),
            out@.len() <= 256,
            forall|j: int| 0 <= j < out@.len() ==> -1664 <= #[trigger] out@[j] <= 1664,
            forall|j: int|
                0 <= j < gacc.len() ==> (#[trigger] out@[j] as int) % 3329 == gacc[j],
            forall|j: int| gacc.len() <= j < out@.len() ==> #[trigger] out@[j] == 0i16,
        decreases 256 - out.len(),
    {
        out.push(0i16);
    }
    let r = Poly { coeffs: out };
    proof {
        assert(r.repr() =~= spec_parse_poly(s));
    }
    r
}

/// The uniform matrix entry at row i, column j derived from a 32-byte seed:
/// the rejection parse of the hash stream seeded by (seed, column, row).
pub open spec fn spec_matrix_entry(rho: Seq<u8>, i: u8, j: u8) -> Seq<int> {
    spec_parse_poly(xof128(rho + seq![j, i], 4032))
}

/// Derive the public matrix entry at row i, column j from the seed.
pub fn sample_matrix_entry(rho: &[u8], i: u8, j: u8) -> (r: Poly)
    requires
        rho@.len() == 32,
    ensures
        r.wf(),
        r.repr() == spec_matrix_entry(rho@, i, j),
{
    let mut input: Vec<u8> = Vec::new();
    push_all(&mut input, rho);
    input.push(j);
    input.push(i);
    proof {
        assert(input@ =~= rho@ + seq![j, i]);
    }
    let stream: Vec<u8> = shake128(input.as_slice(), 4032);
    parse_uniform(stream.as_slice())
}

/// The noise element with the given domain-separation index derived from a
/// 32-byte seed: binomial sampling of the hash stream seeded by (seed, n).
pub open spec fn spec_noise(seed: Seq<u8>, n: u8) -> Seq<int> {
    spec_cbd(xof256(seed + seq![n], 128))
}

/// Derive the noise element with domain-separation index n from the seed.
pub fn sample_noise_at(seed: &[u8], n: u8) -> (r: Poly)
    requires
        seed@.len() == 32,
    ensures
        r.wf(),
        r.repr() == spec_noise(seed@, n),
{
    let mut input: Vec<u8> = Vec::new();
    push_all(&mut input, seed);
    input.push(n);
    proof {
        assert(input@ =~= seed@ + seq![n]);
    }
    let stream: Vec<u8> = shake256(input.as_slice(), 128);
    sample_noise(stream.as_slice())
}

} // verus!
