//! Codec: lossy quantization of ring coefficients to d bits and back, and
//! bit-packing of quantized elements into fixed-size byte blocks.
//!
//! A residue r in [0, q) compresses to round(r * 2^d / q) mod 2^d and
//! decompresses to round(y * q / 2^d); the round trip moves a coefficient by
//! at most about q / 2^(d+1) (`lemma_compress_bound`). Packing is
//! least-significant-bits first, a fixed internal convention used identically
//! on both ends.

use vstd::prelude::*;
use crate::lemmas::lemma_mod_small_signed;
use crate::ring::{Poly, is_residues, residue, center_of_residue};
use vstd::arithmetic::div_mod::{
    lemma_div_denominator, lemma_fundamental_div_mod, lemma_fundamental_div_mod_converse,
    lemma_mod_bound, lemma_mod_self_0, lemma_small_mod,
};

verus! {

/// The quantization step 2^d for the supported depths.
pub open spec fn pfor(d: int) -> int {
    if d == 1 {
        2
    } else if d == 4 {
        16
    } else {
        1024
    }
}

/// Quantize a residue to d bits: round(r * 2^d / q) mod 2^d.
pub open spec fn spec_compress(r: int, d: int) -> int {
    ((2 * pfor(d) * r + 3329) / 6658) % pfor(d)
}

/// Reconstruct a residue from a d-bit value: round(y * q / 2^d).
pub open spec fn spec_decompress(y: int, d: int) -> int {
    (3329 * y + pfor(d) / 2) / pfor(d)
}

/// Distance between two residues measured around the circle of size q.
pub open spec fn centered_distance(x: int, y: int) -> int {
    let e = (x - y) % 3329;
    if e > 1664 {
        3329 - e
    } else {
        e
    }
}

/// The round-trip error bound: round(q / 2^(d+1)).
pub open spec fn spec_max_error(d: int) -> int {
    (3329 + pfor(d)) / (2 * pfor(d))
}

/// Quantize one residue.
pub(crate) fn compress_coeff(r: i32, d: usize) -> (c: u16)
    requires
        0 <= r < 3329,
        d == 1 || d == 4 || d == 10,
    ensures
        c as int == spec_compress(r as int, d as int),
        0 <= (c as int) < pfor(d as int),
{
    let p: i32 = if d == 1 {
        2
    } else if d == 4 {
        16
    } else {
        1024
    };
    proof {
        assert(0 <= 2 * (p as int) * (r as int) + 3329 < 0x7fff_ffff) by (nonlinear_arith)
            requires
                0 < p <= 1024,
                0 <= r < 3329,
        ;
    }
    let t: i32 = (2 * p * r + 3329) / 6658;
    proof {
        lemma_mod_bound(t as int, p as int);
    }
    ((t % p) as u16)
}

/// Reconstruct one residue from a d-bit value.
pub(crate) fn decompress_coeff(y: u16, d: usize) -> (r: i32)
    requires
        d == 1 || d == 4 || d == 10,
        0 <= (y as int) < pfor(d as int),
    ensures
        r as int == spec_decompress(y as int, d as int),
        0 <= r < 3329,
{
    let p: i32 = if d == 1 {
        2
    } else if d == 4 {
        16
    } else {
        1024
    };
    let x: i32 = (3329 * (y as i32) + p / 2) / p;
    proof {
        lemma_fundamental_div_mod(3329 * (y as int) + p as int / 2, p as int);
        lemma_mod_bound(3329 * (y as int) + p as int / 2, p as int);
        assert(0 <= x < 3329) by (nonlinear_arith)
            requires
                p == pfor(d as int),
                (p == 2 || p == 16 || p == 1024),
                0 <= y < p,
                3329 * (y as int) + p as int / 2 == p as int * (x as int) + (3329 * (y as int)
                    + p as int / 2) % (p as int),
                0 <= (3329 * (y as int) + p as int / 2) % (p as int) < p,
        ;
    }
    x
}

/// Bounded lossy round trip: quantizing a residue and reconstructing it moves
/// it at most round(q / 2^(d+1)) around the circle of size q.
pub proof fn lemma_compress_bound(r: int, d: int)
    requires
        0 <= r < 3329,
        d == 4 || d == 10,
    ensures
        centered_distance(spec_decompress(spec_compress(r, d), d), r) <= spec_max_error(d),
{
    let p = pfor(d);
    let t = (2 * p * r + 3329) / 6658;
    lemma_fundamental_div_mod(2 * p * r + 3329, 6658);
    lemma_mod_bound(2 * p * r + 3329, 6658);
    let rem = (2 * p * r + 3329) % 6658;
    assert(2 * p * r + 3329 == 6658 * t + rem);
    assert(0 <= t <= p) by (nonlinear_arith)
        requires
            2 * p * r + 3329 == 6658 * t + rem,
            0 <= rem < 6658,
            0 <= r < 3329,
            (p == 16 || p == 1024),
    ;
    let c = spec_compress(r, d);
    if t < p {
        lemma_small_mod(t as nat, p as nat);
        assert(c == t);
    } else {
        lemma_mod_self_0(p);
        assert(c == 0);
    }
    let x = spec_decompress(c, d);
    lemma_fundamental_div_mod(3329 * c + p / 2, p);
    lemma_mod_bound(3329 * c + p / 2, p);
    let rem2 = (3329 * c + p / 2) % p;
    assert(3329 * c + p / 2 == p * x + rem2);
    assert(0 <= x < 3329) by (nonlinear_arith)
        requires
            3329 * c + p / 2 == p * x + rem2,
            0 <= rem2 < p,
            0 <= c < p,
            (p == 16 || p == 1024),
    ;
    let b: int = if d == 4 { 104 } else { 2 };
    let h: int = if d == 4 { 8 } else { 512 };
    assert(p / 2 == h);
    if d == 4 {
        assert(2 * pfor(d) == 32);
        assert(spec_max_error(d) == (3329 + 16) / 32);
    } else {
        assert(2 * pfor(d) == 2048);
        assert(spec_max_error(d) == (3329 + 1024) / 2048);
    }
    assert(spec_max_error(d) == b);
    if t < p {
        // |2p(x - r)| <= p + q, hence |x - r| <= b
        assert(-b <= x - r <= b) by (nonlinear_arith)
            requires
                2 * p * r + 3329 == 6658 * t + rem,
                0 <= rem < 6658,
                3329 * t + h == p * x + rem2,
                0 <= rem2 < p,
                (p == 16 && b == 104 && h == 8) || (p == 1024 && b == 2 && h == 512),
        ;
        lemma_mod_small_signed(x - r);
        if x - r >= 0 {
            assert(centered_distance(x, r) <= b);
        } else {
            assert((x - r) % 3329 == x - r + 3329);
            assert(centered_distance(x, r) == r - x || centered_distance(x, r) == x - r + 3329);
            assert(centered_distance(x, r) <= b);
        }
    } else {
        // r is within q/2^(d+1) of q; it wraps to 0
        assert(x == 0) by (nonlinear_arith)
            requires
                3329 * c + h == p * x + rem2,
                0 <= rem2 < p,
                c == 0,
                (p == 16 && h == 8) || (p == 1024 && h == 512),
        ;
        assert(3329 - b <= r < 3329) by (nonlinear_arith)
            requires
                2 * p * r + 3329 == 6658 * t + rem,
                0 <= rem < 6658,
                t == p,
                0 <= r < 3329,
                (p == 16 && b == 104) || (p == 1024 && b == 2),
        ;
        lemma_mod_small_signed(0 - r);
        assert(centered_distance(0, r) <= b);
    }
}

} // verus!
// Bit-packing: quantized values are packed least-significant-bits first into
// byte blocks, 2 four-bit values per byte, 4 ten-bit values per 5 bytes, and
// 2 twelve-bit values per 3 bytes (used uncompressed for key encoding).

verus! {

/// Powers of 256 used when splitting a packed group into bytes.
pub open spec fn e256(k: int) -> int {
    if k == 0 {
        1
    } else if k == 1 {
        0x100
    } else if k == 2 {
        0x1_0000
    } else if k == 3 {
        0x100_0000
    } else {
        0x1_0000_0000
    }
}

/// Powers of 1024 used when splitting a packed group into ten-bit values.
pub open spec fn e1024(j: int) -> int {
    if j == 0 {
        1
    } else if j == 1 {
        0x400
    } else if j == 2 {
        0x10_0000
    } else {
        0x4000_0000
    }
}

/// The packed group value of four ten-bit values.
pub open spec fn group10(c: Seq<int>, g: int) -> int {
    c[4 * g] + 1024 * (c[4 * g + 1] + 1024 * (c[4 * g + 2] + 1024 * c[4 * g + 3]))
}

/// The packed group value of five bytes.
pub open spec fn bgroup10(s: Seq<u8>, g: int) -> int {
    s[5 * g] as int + 256 * (s[5 * g + 1] as int + 256 * (s[5 * g + 2] as int + 256 * (s[5 * g
        + 3] as int + 256 * (s[5 * g + 4] as int))))
}

/// Pack 256 four-bit values into 128 bytes.
pub open spec fn spec_pack4(c: Seq<int>) -> Seq<u8> {
    Seq::new(128, |b: int| (c[2 * b] + 16 * c[2 * b + 1]) as u8)
}

/// Unpack 128 bytes into 256 four-bit values.
pub open spec fn spec_unpack4(s: Seq<u8>) -> Seq<int> {
    Seq::new(
        256,
        |i: int|
            if i % 2 == 0 {
                (s[i / 2] as int) % 16
            } else {
                (s[i / 2] as int) / 16
            },
    )
}

/// Pack 256 ten-bit values into 320 bytes.
pub open spec fn spec_pack10(c: Seq<int>) -> Seq<u8> {
    Seq::new(320, |b: int| ((group10(c, b / 5) / e256(b % 5)) % 256) as u8)
}

/// Unpack 320 bytes into 256 ten-bit values.
pub open spec fn spec_unpack10(s: Seq<u8>) -> Seq<int> {
    Seq::new(256, |i: int| (bgroup10(s, i / 4) / e1024(i % 4)) % 1024)
}

/// The packed group value of two twelve-bit values.
pub open spec fn group12(c: Seq<int>, g: int) -> int {
    c[2 * g] + 4096 * c[2 * g + 1]
}

/// Pack 256 twelve-bit values into 384 bytes.
pub open spec fn spec_pack12(c: Seq<int>) -> Seq<u8> {
    Seq::new(384, |b: int| ((group12(c, b / 3) / e256(b % 3)) % 256) as u8)
}

/// The packed group value of three bytes.
pub open spec fn bgroup12(s: Seq<u8>, g: int) -> int {
    s[3 * g] as int + 256 * (s[3 * g + 1] as int + 256 * (s[3 * g + 2] as int))
}

/// Unpack 384 bytes into 256 twelve-bit values, reducing each mod q.
pub open spec fn spec_unpack12(s: Seq<u8>) -> Seq<int> {
    Seq::new(
        256,
        |i: int|
            (if i % 2 == 0 {
                bgroup12(s, i / 2) % 4096
            } else {
                bgroup12(s, i / 2) / 4096
            }) % 3329,
    )
}

/// The 256 quantized values of a residue sequence.
pub open spec fn spec_compressed(a: Seq<int>, d: int) -> Seq<int> {
    Seq::new(256, |i: int| spec_compress(a[i], d))
}

/// Quantize and pack a whole ring element at depth 4 or 10.
pub open spec fn spec_compress_poly(a: Seq<int>, d: int) -> Seq<u8> {
    if d == 4 {
        spec_pack4(spec_compressed(a, 4))
    } else {
        spec_pack10(spec_compressed(a, 10))
    }
}

/// Unpack and reconstruct a whole ring element at depth 4 or 10.
pub open spec fn spec_decompress_poly(s: Seq<u8>, d: int) -> Seq<int> {
    if d == 4 {
        Seq::new(256, |i: int| spec_decompress(spec_unpack4(s)[i], 4))
    } else {
        Seq::new(256, |i: int| spec_decompress(spec_unpack10(s)[i], 10))
    }
}

/// Encode a full ring element exactly: residues packed at 12 bits.
pub open spec fn spec_encode12(a: Seq<int>) -> Seq<u8> {
    spec_pack12(a)
}

/// Decode a 12-bit-packed ring element, reducing each value mod q.
pub open spec fn spec_decode12(s: Seq<u8>) -> Seq<int> {
    spec_unpack12(s)
}

} // verus!
// Executable packing, and the exactness of packing round trips.

verus! {

/// Base-256 digit recomposition for five-byte groups.
proof fn lemma_digits5(n: int)
    requires
        0 <= n < 0x100_0000_0000,
    ensures
        (n % 256) + 256 * (((n / 0x100) % 256) + 256 * (((n / 0x1_0000) % 256) + 256 * (((n
            / 0x100_0000) % 256) + 256 * ((n / 0x1_0000_0000) % 256)))) == n,
{
    let n1 = n / 0x100;
    let n2 = n / 0x1_0000;
    let n3 = n / 0x100_0000;
    let n4 = n / 0x1_0000_0000;
    lemma_div_denominator(n, 0x100, 0x100);
    lemma_div_denominator(n, 0x1_0000, 0x100);
    lemma_div_denominator(n, 0x100_0000, 0x100);
    assert(n2 == n1 / 0x100);
    assert(n3 == n2 / 0x100);
    assert(n4 == n3 / 0x100);
    lemma_fundamental_div_mod(n, 0x100);
    lemma_fundamental_div_mod(n1, 0x100);
    lemma_fundamental_div_mod(n2, 0x100);
    lemma_fundamental_div_mod(n3, 0x100);
    vstd::arithmetic::div_mod::lemma_div_pos_is_pos(n, 0x1_0000_0000);
    vstd::arithmetic::div_mod::lemma_div_is_ordered(n, 0xFF_FFFF_FFFF, 0x1_0000_0000);
    lemma_small_mod(n4 as nat, 256);
}

/// Base-256 digit recomposition for three-byte groups.
proof fn lemma_digits3(n: int)
    requires
        0 <= n < 0x100_0000,
    ensures
        (n % 256) + 256 * (((n / 0x100) % 256) + 256 * ((n / 0x1_0000) % 256)) == n,
{
    let n1 = n / 0x100;
    let n2 = n / 0x1_0000;
    lemma_div_denominator(n, 0x100, 0x100);
    assert(n2 == n1 / 0x100);
    lemma_fundamental_div_mod(n, 0x100);
    lemma_fundamental_div_mod(n1, 0x100);
    vstd::arithmetic::div_mod::lemma_div_pos_is_pos(n, 0x1_0000);
    vstd::arithmetic::div_mod::lemma_div_is_ordered(n, 0xFF_FFFF, 0x1_0000);
    lemma_small_mod(n2 as nat, 256);
}

/// Extraction of the four ten-bit values from a packed group.
proof fn lemma_extract10(c0: int, c1: int, c2: int, c3: int, n: int)
    requires
        n == c0 + 1024 * (c1 + 1024 * (c2 + 1024 * c3)),
        0 <= c0 < 1024,
        0 <= c1 < 1024,
        0 <= c2 < 1024,
        0 <= c3 < 1024,
    ensures
        n % 1024 == c0,
        (n / 0x400) % 1024 == c1,
        (n / 0x10_0000) % 1024 == c2,
        (n / 0x4000_0000) % 1024 == c3,
        0 <= n < 0x100_0000_0000,
{
    let x1 = c1 + 1024 * (c2 + 1024 * c3);
    let x2 = c2 + 1024 * c3;
    lemma_fundamental_div_mod_converse(n, 1024, x1, c0);
    lemma_fundamental_div_mod_converse(x1, 1024, x2, c1);
    lemma_fundamental_div_mod_converse(x2, 1024, c3, c2);
    lemma_div_denominator(n, 0x400, 0x400);
    lemma_div_denominator(n, 0x10_0000, 0x400);
    assert(n / 0x10_0000 == x2);
    assert(n / 0x4000_0000 == c3);
    lemma_small_mod(c3 as nat, 1024);
}

/// Extraction of the two twelve-bit values from a packed group.
proof fn lemma_extract12(c0: int, c1: int, n: int)
    requires
        n == c0 + 4096 * c1,
        0 <= c0 < 4096,
        0 <= c1 < 4096,
    ensures
        n % 4096 == c0,
        n / 4096 == c1,
        0 <= n < 0x100_0000,
{
    lemma_fundamental_div_mod_converse(n, 4096, c1, c0);
}

/// Packing four-bit values and unpacking them returns the same values.
pub proof fn lemma_pack4_roundtrip(c: Seq<int>)
    requires
        c.len() == 256,
        forall|i: int| 0 <= i < 256 ==> 0 <= #[trigger] c[i] < 16,
    ensures
        spec_unpack4(spec_pack4(c)) == c,
{
    let s = spec_pack4(c);
    assert forall|i: int| 0 <= i < 256 implies #[trigger] spec_unpack4(s)[i] == c[i] by {
        let g = i / 2;
        lemma_fundamental_div_mod(i, 2);
        lemma_mod_bound(i, 2);
        let v = c[2 * g] + 16 * c[2 * g + 1];
        assert(s[g] as int == v);
        lemma_fundamental_div_mod_converse(v, 16, c[2 * g + 1], c[2 * g]);
    }
    assert(spec_unpack4(s) =~= c);
}

/// Packing ten-bit values and unpacking them returns the same values.
pub proof fn lemma_pack10_roundtrip(c: Seq<int>)
    requires
        c.len() == 256,
        forall|i: int| 0 <= i < 256 ==> 0 <= #[trigger] c[i] < 1024,
    ensures
        spec_unpack10(spec_pack10(c)) == c,
{
    let s = spec_pack10(c);
    assert forall|i: int| 0 <= i < 256 implies #[trigger] spec_unpack10(s)[i] == c[i] by {
        let g = i / 4;
        let j = i % 4;
        lemma_fundamental_div_mod(i, 4);
        lemma_mod_bound(i, 4);
        let n = group10(c, g);
        lemma_extract10(c[4 * g], c[4 * g + 1], c[4 * g + 2], c[4 * g + 3], n);
        // each of the five bytes of the group
        assert forall|k: int| 0 <= k < 5 implies #[trigger] s[5 * g + k] as int == (n / e256(k))
            % 256 by {
            lemma_fundamental_div_mod_converse(5 * g + k, 5, g, k);
            lemma_mod_bound(n, e256(k));
        }
        lemma_mod_bound(n, 0x100);
        lemma_mod_bound(n / 0x100, 0x100);
        lemma_mod_bound(n / 0x1_0000, 0x100);
        lemma_mod_bound(n / 0x100_0000, 0x100);
        lemma_mod_bound(n / 0x1_0000_0000, 0x100);
        lemma_digits5(n);
        assert(bgroup10(s, g) == n);
    }
    assert(spec_unpack10(s) =~= c);
}

/// Encoding residues at twelve bits and decoding returns the same residues.
pub proof fn lemma_pack12_roundtrip(a: Seq<int>)
    requires
        is_residues(a),
    ensures
        spec_decode12(spec_encode12(a)) == a,
{
    let s = spec_pack12(a);
    assert forall|i: int| 0 <= i < 256 implies #[trigger] spec_unpack12(s)[i] == a[i] by {
        let g = i / 2;
        lemma_fundamental_div_mod(i, 2);
        lemma_mod_bound(i, 2);
        let n = group12(a, g);
        lemma_extract12(a[2 * g], a[2 * g + 1], n);
        assert forall|k: int| 0 <= k < 3 implies #[trigger] s[3 * g + k] as int == (n / e256(k))
            % 256 by {
            lemma_fundamental_div_mod_converse(3 * g + k, 3, g, k);
            lemma_mod_bound(n, e256(k));
        }
        lemma_mod_bound(n, 0x100);
        lemma_mod_bound(n / 0x100, 0x100);
        lemma_mod_bound(n / 0x1_0000, 0x100);
        lemma_digits3(n);
        assert(bgroup12(s, g) == n);
        lemma_small_mod(a[i] as nat, 3329);
    }
    assert(spec_unpack12(s) =~= a);
}

} // verus!
// Executable quantization and packing of whole ring elements.

verus! {

/// Quantize and pack at depth 4 (2 values per byte).
#[verifier::loop_isolation(false)]
fn compress4(p: &Poly) -> (r: Vec<u8>)
    requires
        p.wf(),
    ensures
        r@ == spec_compress_poly(p.repr(), 4),
{
    let ghost a = p.repr();
    let ghost cc = spec_compressed(a, 4);
    let mut out: Vec<u8> = Vec::new();
    for g in 0..128usize
        invariant
            out@.len() == g,
            forall|j: int| 0 <= j < g ==> #[trigger] out@[j] == spec_pack4(cc)[j],
    {
        let c0: u16 = compress_coeff(residue(p.coeffs[2 * g]), 4);
        let c1: u16 = compress_coeff(residue(p.coeffs[2 * g + 1]), 4);
        let b: u8 = (c0 + 16 * c1) as u8;
        out.push(b);
    }
    proof {
        assert(out@ =~= spec_pack4(cc));
    }
    out
}

/// Quantize and pack at depth 10 (4 values per 5 bytes).
#[verifier::loop_isolation(false)]
fn compress10(p: &Poly) -> (r: Vec<u8>)
    requires
        p.wf(),
    ensures
        r@ == spec_compress_poly(p.repr(), 10),
{
    let ghost a = p.repr();
    let ghost cc = spec_compressed(a, 10);
    let mut out: Vec<u8> = Vec::new();
    for g in 0..64usize
        invariant
            out@.len() == 5 * g,
            forall|j: int| 0 <= j < 5 * g ==> #[trigger] out@[j] == spec_pack10(cc)[j],
    {
        let c0: u16 = compress_coeff(residue(p.coeffs[4 * g]), 10);
        let c1: u16 = compress_coeff(residue(p.coeffs[4 * g + 1]), 10);
        let c2: u16 = compress_coeff(residue(p.coeffs[4 * g + 2]), 10);
        let c3: u16 = compress_coeff(residue(p.coeffs[4 * g + 3]), 10);
        let n: u64 = c0 as u64 + 1024 * (c1 as u64 + 1024 * (c2 as u64 + 1024 * (c3 as u64)));
        proof {
            assert(n as int == group10(cc, g as int));
            assert forall|k: int| 0 <= k < 5 implies #[trigger] spec_pack10(cc)[5 * g + k] == ((
            n as int / e256(k)) % 256) as u8 by {
                lemma_fundamental_div_mod_converse(5 * g + k, 5, g as int, k);
            }
        }
        out.push((n % 256) as u8);
        out.push(((n / 0x100) % 256) as u8);
        out.push(((n / 0x1_0000) % 256) as u8);
        out.push(((n / 0x100_0000) % 256) as u8);
        out.push(((n / 0x1_0000_0000) % 256) as u8);
    }
    proof {
        assert(out@ =~= spec_pack10(cc));
    }
    out
}

/// Quantize a ring element to d bits per coefficient and pack the result:
/// 128 bytes at depth 4, 320 bytes at depth 10.
pub fn compress(p: &Poly, d: usize) -> (r: Vec<u8>)
    requires
        p.wf(),
        d == 4 || d == 10,
    ensures
        r@ == spec_compress_poly(p.repr(), d as int),
        r@.len() == 32 * d,
{
    if d == 4 {
        compress4(p)
    } else {
        compress10(p)
    }
}

/// Unpack and reconstruct at depth 4.
#[verifier::loop_isolation(false)]
fn decompress4(bytes: &[u8]) -> (r: Poly)
    requires
        bytes@.len() == 128,
    ensures
        r.wf(),
        r.repr() == spec_decompress_poly(bytes@, 4),
{
    let ghost s = bytes@;
    let mut out: Vec<i16> = Vec::new();
    for g in 0..128usize
        invariant
            out@.len() == 2 * g,
            forall|j: int| 0 <= j < 2 * g ==> -1664 <= #[trigger] out@[j] <= 1664,
            forall|j: int|
                0 <= j < 2 * g ==> (#[trigger] out@[j] as int) % 3329 == spec_decompress_poly(
                    s,
                    4,
                )[j],
    {
        let b: u16 = bytes[g] as u16;
        let x0: i32 = decompress_coeff(b % 16, 4);
        let x1: i32 = decompress_coeff(b / 16, 4);
        proof {
            lemma_fundamental_div_mod_converse(2 * g as int, 2, g as int, 0);
            lemma_fundamental_div_mod_converse(2 * g as int + 1, 2, g as int, 1);
        }
        out.push(center_of_residue(x0));
        out.push(center_of_residue(x1));
    }
    let r = Poly { coeffs: out };
    proof {
        assert(r.repr() =~= spec_decompress_poly(s, 4));
    }
    r
}

/// Unpack and reconstruct at depth 10.
#[verifier::rlimit(60)]
#[verifier::loop_isolation(false)]
fn decompress10(bytes: &[u8]) -> (r: Poly)
    requires
        bytes@.len() == 320,
    ensures
        r.wf(),
        r.repr() == spec_decompress_poly(bytes@, 10),
{
    let ghost s = bytes@;
    let mut out: Vec<i16> = Vec::new();
    for g in 0..64usize
        invariant
            out@.len() == 4 * g,
            forall|j: int| 0 <= j < 4 * g ==> -1664 <= #[trigger] out@[j] <= 1664,
            forall|j: int|
                0 <= j < 4 * g ==> (#[trigger] out@[j] as int) % 3329 == spec_decompress_poly(
                    s,
                    10,
                )[j],
    {
        let b0: u64 = bytes[5 * g] as u64;
        let b1: u64 = bytes[5 * g + 1] as u64;
        let b2: u64 = bytes[5 * g + 2] as u64;
        let b3: u64 = bytes[5 * g + 3] as u64;
        let b4: u64 = bytes[5 * g + 4] as u64;
        let m: u64 = b0 + 256 * (b1 + 256 * (b2 + 256 * (b3 + 256 * b4)));
        proof {
            assert(m as int == bgroup10(s, g as int));
            assert forall|j: int| 0 <= j < 4 implies spec_unpack10(s)[4 * g + j] == (m as int
                / e1024(j)) % 1024 by {
                lemma_fundamental_div_mod_converse(4 * g + j, 4, g as int, j);
            }
            lemma_mod_bound(m as int, 1024);
            lemma_mod_bound(m as int / 0x400, 1024);
            lemma_mod_bound(m as int / 0x10_0000, 1024);
            lemma_mod_bound(m as int / 0x4000_0000, 1024);
            vstd::arithmetic::div_mod::lemma_div_pos_is_pos(m as int, 0x4000_0000);
        }
        let v0: u16 = (m % 1024) as u16;
        let v1: u16 = ((m / 0x400) % 1024) as u16;
        let v2: u16 = ((m / 0x10_0000) % 1024) as u16;
        let v3: u16 = ((m / 0x4000_0000) % 1024) as u16;
        out.push(center_of_residue(decompress_coeff(v0, 10)));
        out.push(center_of_residue(decompress_coeff(v1, 10)));
        out.push(center_of_residue(decompress_coeff(v2, 10)));
        out.push(center_of_residue(decompress_coeff(v3, 10)));
    }
    let r = Poly { coeffs: out };
    proof {
        assert(r.repr() =~= spec_decompress_poly(s, 10));
    }
    r
}

/// Unpack and reconstruct a ring element from its packed d-bit form.
/// Fails exactly when the input length is not 32 * d bytes.
pub fn decompress(bytes: &[u8], d: usize) -> (r: Option<Poly>)
    requires
        d == 4 || d == 10,
    ensures
        match r {
            Some(p) => {
                &&& bytes@.len() == 32 * d
                &&& p.wf()
                &&& p.repr() == spec_decompress_poly(bytes@, d as int)
            },
            None => bytes@.len() != 32 * d,
        },
{
    if d == 4 {
        if bytes.len() != 128 {
            return None;
        }
        Some(decompress4(bytes))
    } else {
        if bytes.len() != 320 {
            return None;
        }
        Some(decompress10(bytes))
    }
}

/// Encode a ring element exactly at 12 bits per coefficient (384 bytes).
#[verifier::loop_isolation(false)]
pub fn encode12(p: &Poly) -> (r: Vec<u8>)
    requires
        p.wf(),
    ensures
        r@ == spec_encode12(p.repr()),
        r@.len() == 384,
{
    let ghost a = p.repr();
    let mut out: Vec<u8> = Vec::new();
    for g in 0..128usize
        invariant
            out@.len() == 3 * g,
            forall|j: int| 0 <= j < 3 * g ==> #[trigger] out@[j] == spec_pack12(a)[j],
    {
        let r0: i32 = residue(p.coeffs[2 * g]);
        let r1: i32 = residue(p.coeffs[2 * g + 1]);
        let n: u32 = r0 as u32 + 4096 * (r1 as u32);
        proof {
            assert(n as int == group12(a, g as int));
            assert forall|k: int| 0 <= k < 3 implies #[trigger] spec_pack12(a)[3 * g + k] == ((
            n as int / e256(k)) % 256) as u8 by {
                lemma_fundamental_div_mod_converse(3 * g + k, 3, g as int, k);
            }
        }
        out.push((n % 256) as u8);
        out.push(((n / 0x100) % 256) as u8);
        out.push(((n / 0x1_0000) % 256) as u8);
    }
    proof {
        assert(out@ =~= spec_pack12(a));
    }
    out
}

/// Decode a 12-bit-packed ring element (384 bytes), reducing each value mod q.
#[verifier::loop_isolation(false)]
pub fn decode12(bytes: &[u8]) -> (r: Poly)
    requires
        bytes@.len() == 384,
    ensures
        r.wf(),
        r.repr() == spec_decode12(bytes@),
{
    let ghost s = bytes@;
    let mut out: Vec<i16> = Vec::new();
    for g in 0..128usize
        invariant
            out@.len() == 2 * g,
            forall|j: int| 0 <= j < 2 * g ==> -1664 <= #[trigger] out@[j] <= 1664,
            forall|j: int|
                0 <= j < 2 * g ==> (#[trigger] out@[j] as int) % 3329 == spec_decode12(s)[j],
    {
        let b0: u32 = bytes[3 * g] as u32;
        let b1: u32 = bytes[3 * g + 1] as u32;
        let b2: u32 = bytes[3 * g + 2] as u32;
        let m: u32 = b0 + 256 * (b1 + 256 * b2);
        proof {
            assert(m as int == bgroup12(s, g as int));
            lemma_fundamental_div_mod_converse(2 * g as int, 2, g as int, 0);
            lemma_fundamental_div_mod_converse(2 * g as int + 1, 2, g as int, 1);
            lemma_mod_bound(m as int, 4096);
            vstd::arithmetic::div_mod::lemma_div_pos_is_pos(m as int, 4096);
            vstd::arithmetic::div_mod::lemma_div_is_ordered(m as int, 0xFF_FFFF, 4096);
        }
        let v0: u32 = m % 4096;
        let v1: u32 = m / 4096;
        out.push(reduce_u12(v0));
        out.push(reduce_u12(v1));
    }
    let r = Poly { coeffs: out };
    proof {
        assert(r.repr() =~= spec_decode12(s));
    }
    r
}

/// Reduce a twelve-bit value mod q and center it.
fn reduce_u12(v: u32) -> (x: i16)
    requires
        v < 4096,
    ensures
        -1664 <= x <= 1664,
        (x as int) % 3329 == (v as int) % 3329,
{
    let rr: i32 = if v >= 3329 {
        v as i32 - 3329
    } else {
        v as i32
    };
    proof {
        crate::lemmas::lemma_shift_mod(rr as int, v as int);
        lemma_mod_small_signed(rr as int);
    }
    center_of_residue(rr)
}

} // verus!
// Message encoding: one bit per coefficient, scaled to (q+1)/2, and its
// threshold decoding; plus the bounded round-trip law for the lossy codec.

verus! {

/// Powers of 2 used for bit extraction within a byte.
pub open spec fn e2(j: int) -> int {
    if j == 0 {
        1
    } else if j == 1 {
        2
    } else if j == 2 {
        4
    } else if j == 3 {
        8
    } else if j == 4 {
        16
    } else if j == 5 {
        32
    } else if j == 6 {
        64
    } else {
        128
    }
}

/// Bit i of a 32-byte message, least-significant bit first.
pub open spec fn msg_bit(m: Seq<u8>, i: int) -> int {
    ((m[i / 8] as int) / e2(i % 8)) % 2
}

/// A message as a ring element: bit b becomes the residue b * (q+1)/2.
pub open spec fn spec_msg_poly(m: Seq<u8>) -> Seq<int> {
    Seq::new(256, |i: int| msg_bit(m, i) * 1665)
}

/// One byte of the threshold decoding of a ring element.
pub open spec fn spec_decode_msg_byte(a: Seq<int>, k: int) -> int {
    spec_compress(a[8 * k], 1) + 2 * spec_compress(a[8 * k + 1], 1) + 4 * spec_compress(
        a[8 * k + 2],
        1,
    ) + 8 * spec_compress(a[8 * k + 3], 1) + 16 * spec_compress(a[8 * k + 4], 1) + 32
        * spec_compress(a[8 * k + 5], 1) + 64 * spec_compress(a[8 * k + 6], 1) + 128
        * spec_compress(a[8 * k + 7], 1)
}

/// Threshold decoding of a ring element back into 32 message bytes.
pub open spec fn spec_decode_msg(a: Seq<int>) -> Seq<u8> {
    Seq::new(32, |k: int| spec_decode_msg_byte(a, k) as u8)
}

/// Turn a 32-byte message into a ring element, one bit per coefficient.
#[verifier::loop_isolation(false)]
pub fn encode_msg(m: &[u8]) -> (r: Poly)
    requires
        m@.len() == 32,
    ensures
        r.wf(),
        r.repr() == spec_msg_poly(m@),
{
    let ghost ms = m@;
    let mut out: Vec<i16> = Vec::new();
    for i in 0..256usize
        invariant
            out@.len() == i,
            forall|j: int| 0 <= j < i ==> -1664 <= #[trigger] out@[j] <= 1664,
            forall|j: int|
                0 <= j < i ==> (#[trigger] out@[j] as int) % 3329 == msg_bit(ms, j) * 1665,
    {
        let k: usize = i / 8;
        let j: usize = i % 8;
        let po: u16 = if j == 0 {
            1
        } else if j == 1 {
            2
        } else if j == 2 {
            4
        } else if j == 3 {
            8
        } else if j == 4 {
            16
        } else if j == 5 {
            32
        } else if j == 6 {
            64
        } else {
            128
        };
        proof {
            assert(po as int == e2(j as int));
        }
        let bit: u16 = ((m[k] as u16) / po) % 2;
        let c: i32 = if bit == 1 {
            1665
        } else {
            0
        };
        out.push(center_of_residue(c));
    }
    let r = Poly { coeffs: out };
    proof {
        assert(r.repr() =~= spec_msg_poly(ms));
    }
    r
}

/// Decode a ring element into 32 message bytes by per-coefficient threshold.
#[verifier::loop_isolation(false)]
pub fn decode_msg(p: &Poly) -> (r: Vec<u8>)
    requires
        p.wf(),
    ensures
        r@ == spec_decode_msg(p.repr()),
        r@.len() == 32,
{
    let ghost a = p.repr();
    let mut out: Vec<u8> = Vec::new();
    for k in 0..32usize
        invariant
            out@.len() == k,
            forall|j: int| 0 <= j < k ==> #[trigger] out@[j] == spec_decode_msg(a)[j],
    {
        let b0: u16 = compress_coeff(residue(p.coeffs[8 * k]), 1);
        let b1: u16 = compress_coeff(residue(p.coeffs[8 * k + 1]), 1);
        let b2: u16 = compress_coeff(residue(p.coeffs[8 * k + 2]), 1);
        let b3: u16 = compress_coeff(residue(p.coeffs[8 * k + 3]), 1);
        let b4: u16 = compress_coeff(residue(p.coeffs[8 * k + 4]), 1);
        let b5: u16 = compress_coeff(residue(p.coeffs[8 * k + 5]), 1);
        let b6: u16 = compress_coeff(residue(p.coeffs[8 * k + 6]), 1);
        let b7: u16 = compress_coeff(residue(p.coeffs[8 * k + 7]), 1);
        let byte: u16 = b0 + 2 * b1 + 4 * b2 + 8 * b3 + 16 * b4 + 32 * b5 + 64 * b6 + 128 * b7;
        out.push(byte as u8);
    }
    proof {
        assert(out@ =~= spec_decode_msg(a));
    }
    out
}

/// Bounded lossy round trip for whole ring elements: at depth 4 or 10, each
/// reconstructed coefficient is within round(q / 2^(d+1)) of the original.
pub proof fn lemma_codec_roundtrip(a: Seq<int>, d: int)
    requires
        is_residues(a),
        d == 4 || d == 10,
    ensures
        forall|i: int|
            0 <= i < 256 ==> #[trigger] centered_distance(
                spec_decompress_poly(spec_compress_poly(a, d), d)[i],
                a[i],
            ) <= spec_max_error(d),
{
    let cc = spec_compressed(a, d);
    assert forall|i: int| 0 <= i < 256 implies 0 <= #[trigger] cc[i] < pfor(d) by {
        lemma_mod_bound((2 * pfor(d) * a[i] + 3329) / 6658, pfor(d));
    }
    if d == 4 {
        lemma_pack4_roundtrip(cc);
    } else {
        lemma_pack10_roundtrip(cc);
    }
    assert forall|i: int| 0 <= i < 256 implies #[trigger] centered_distance(
        spec_decompress_poly(spec_compress_poly(a, d), d)[i],
        a[i],
    ) <= spec_max_error(d) by {
        assert(spec_decompress_poly(spec_compress_poly(a, d), d)[i] == spec_decompress(
            spec_compress(a[i], d),
            d,
        ));
        lemma_compress_bound(a[i], d);
    }
}

} // verus!
