//! Number-theoretic transform (NTT) engine: forward and inverse transforms
//! and the product of transformed ring elements.
//!
//! The forward transform is a 7-layer radix-2 butterfly network over block
//! lengths 128 down to 2; the inverse applies the mirrored butterflies with
//! inverted constants in reverse order and a final scaling by the modular
//! inverse of 128. The round-trip law `inverse(forward(x)) == x` is proved
//! below (`lemma_ntt_roundtrip`).

use vstd::prelude::*;
use crate::ring::{Poly, is_residues, recenter, residue, center_of_residue};
use crate::lemmas::{
    lemma_add_mod_right, lemma_add_residues, lemma_distribute_add, lemma_distribute_sub,
    lemma_mod_range, lemma_mod_small_signed, lemma_mul_bound, lemma_mul_mod_left,
    lemma_mul_mod_right, lemma_mul_shuffle, lemma_sub_mod_right,
    lemma_sub_residues,
};
use vstd::arithmetic::div_mod::{lemma_fundamental_div_mod_converse, lemma_small_mod};

verus! {

/// The 128 butterfly constants: powers of a primitive 256th root of unity
/// (17 mod q) at bit-reversed exponents, reduced mod q.
pub open spec fn zetas_seq() -> Seq<i16> {
    seq![
        1i16, 1729i16, 2580i16, 3289i16, 2642i16, 630i16, 1897i16, 848i16,
        1062i16, 1919i16, 193i16, 797i16, 2786i16, 3260i16, 569i16, 1746i16,
        296i16, 2447i16, 1339i16, 1476i16, 3046i16, 56i16, 2240i16, 1333i16,
        1426i16, 2094i16, 535i16, 2882i16, 2393i16, 2879i16, 1974i16, 821i16,
        289i16, 331i16, 3253i16, 1756i16, 1197i16, 2304i16, 2277i16, 2055i16,
        650i16, 1977i16, 2513i16, 632i16, 2865i16, 33i16, 1320i16, 1915i16,
        2319i16, 1435i16, 807i16, 452i16, 1438i16, 2868i16, 1534i16, 2402i16,
        2647i16, 2617i16, 1481i16, 648i16, 2474i16, 3110i16, 1227i16, 910i16,
        17i16, 2761i16, 583i16, 2649i16, 1637i16, 723i16, 2288i16, 1100i16,
        1409i16, 2662i16, 3281i16, 233i16, 756i16, 2156i16, 3015i16, 3050i16,
        1703i16, 1651i16, 2789i16, 1789i16, 1847i16, 952i16, 1461i16, 2687i16,
        939i16, 2308i16, 2437i16, 2388i16, 733i16, 2337i16, 268i16, 641i16,
        1584i16, 2298i16, 2037i16, 3220i16, 375i16, 2549i16, 2090i16, 1645i16,
        1063i16, 319i16, 2773i16, 757i16, 2099i16, 561i16, 2466i16, 2594i16,
        2804i16, 1092i16, 403i16, 1026i16, 1143i16, 2150i16, 2775i16, 886i16,
        1722i16, 1212i16, 1874i16, 1029i16, 2110i16, 2935i16, 885i16, 2154i16,
    ]
}

/// Modular inverses of the butterfly constants, in matching positions.
pub open spec fn inv_zetas_seq() -> Seq<i16> {
    seq![
        1i16, 1600i16, 40i16, 749i16, 2481i16, 1432i16, 2699i16, 687i16,
        1583i16, 2760i16, 69i16, 543i16, 2532i16, 3136i16, 1410i16, 2267i16,
        2508i16, 1355i16, 450i16, 936i16, 447i16, 2794i16, 1235i16, 1903i16,
        1996i16, 1089i16, 3273i16, 283i16, 1853i16, 1990i16, 882i16, 3033i16,
        2419i16, 2102i16, 219i16, 855i16, 2681i16, 1848i16, 712i16, 682i16,
        927i16, 1795i16, 461i16, 1891i16, 2877i16, 2522i16, 1894i16, 1010i16,
        1414i16, 2009i16, 3296i16, 464i16, 2697i16, 816i16, 1352i16, 2679i16,
        1274i16, 1052i16, 1025i16, 2132i16, 1573i16, 76i16, 2998i16, 3040i16,
        1175i16, 2444i16, 394i16, 1219i16, 2300i16, 1455i16, 2117i16, 1607i16,
        2443i16, 554i16, 1179i16, 2186i16, 2303i16, 2926i16, 2237i16, 525i16,
        735i16, 863i16, 2768i16, 1230i16, 2572i16, 556i16, 3010i16, 2266i16,
        1684i16, 1239i16, 780i16, 2954i16, 109i16, 1292i16, 1031i16, 1745i16,
        2688i16, 3061i16, 992i16, 2596i16, 941i16, 892i16, 1021i16, 2390i16,
        642i16, 1868i16, 2377i16, 1482i16, 1540i16, 540i16, 1678i16, 1626i16,
        279i16, 314i16, 1173i16, 2573i16, 3096i16, 48i16, 667i16, 1920i16,
        2229i16, 1041i16, 2606i16, 1692i16, 680i16, 2746i16, 568i16, 3312i16,
    ]
}

/// Entry k of both tables is a unit, and the tables are inverse to each other.
pub open spec fn zeta_ok(k: int) -> bool {
    &&& 1 <= zetas_seq()[k] <= 3328
    &&& 1 <= inv_zetas_seq()[k] <= 3328
    &&& ((zetas_seq()[k] as int) * (inv_zetas_seq()[k] as int)) % 3329 == 1
}

spec fn zetas_ok_upto(n: nat) -> bool
    decreases n,
{
    n == 0 || (zeta_ok(n - 1) && zetas_ok_upto((n - 1) as nat))
}

proof fn lemma_zetas_ok_peel(n: nat, k: int)
    requires
        zetas_ok_upto(n),
        0 <= k < n,
    ensures
        zeta_ok(k),
    decreases n,
{
    if k < n - 1 {
        lemma_zetas_ok_peel((n - 1) as nat, k);
    }
}

/// Every table entry is a unit with the recorded inverse. The facts are
/// established entry by entry (each step evaluates one concrete product
/// mod q and extends the checked prefix), then generalized by the peeling
/// lemma above.
#[verifier::rlimit(100)]
pub proof fn lemma_zetas_ok()
    ensures
        forall|k: int| 0 <= k < 128 ==> zeta_ok(k),
{
    assert(zetas_ok_upto(0));
    assert(zeta_ok(0));
    assert(zetas_ok_upto(1));
    assert(zeta_ok(1));
    assert(zetas_ok_upto(2));
    assert(zeta_ok(2));
    assert(zetas_ok_upto(3));
    assert(zeta_ok(3));
    assert(zetas_ok_upto(4));
    assert(zeta_ok(4));
    assert(zetas_ok_upto(5));
    assert(zeta_ok(5));
    assert(zetas_ok_upto(6));
    assert(zeta_ok(6));
    assert(zetas_ok_upto(7));
    assert(zeta_ok(7));
    assert(zetas_ok_upto(8));
    assert(zeta_ok(8));
    assert(zetas_ok_upto(9));
    assert(zeta_ok(9));
    assert(zetas_ok_upto(10));
    assert(zeta_ok(10));
    assert(zetas_ok_upto(11));
    assert(zeta_ok(11));
    assert(zetas_ok_upto(12));
    assert(zeta_ok(12));
    assert(zetas_ok_upto(13));
    assert(zeta_ok(13));
    assert(zetas_ok_upto(14));
    assert(zeta_ok(14));
    assert(zetas_ok_upto(15));
    assert(zeta_ok(15));
    assert(zetas_ok_upto(16));
    assert(zeta_ok(16));
    assert(zetas_ok_upto(17));
    assert(zeta_ok(17));
    assert(zetas_ok_upto(18));
    assert(zeta_ok(18));
    assert(zetas_ok_upto(19));
    assert(zeta_ok(19));
    assert(zetas_ok_upto(20));
    assert(zeta_ok(20));
    assert(zetas_ok_upto(21));
    assert(zeta_ok(21));
    assert(zetas_ok_upto(22));
    assert(zeta_ok(22));
    assert(zetas_ok_upto(23));
    assert(zeta_ok(23));
    assert(zetas_ok_upto(24));
    assert(zeta_ok(24));
    assert(zetas_ok_upto(25));
    assert(zeta_ok(25));
    assert(zetas_ok_upto(26));
    assert(zeta_ok(26));
    assert(zetas_ok_upto(27));
    assert(zeta_ok(27));
    assert(zetas_ok_upto(28));
    assert(zeta_ok(28));
    assert(zetas_ok_upto(29));
    assert(zeta_ok(29));
    assert(zetas_ok_upto(30));
    assert(zeta_ok(30));
    assert(zetas_ok_upto(31));
    assert(zeta_ok(31));
    assert(zetas_ok_upto(32));
    assert(zeta_ok(32));
    assert(zetas_ok_upto(33));
    assert(zeta_ok(33));
    assert(zetas_ok_upto(34));
    assert(zeta_ok(34));
    assert(zetas_ok_upto(35));
    assert(zeta_ok(35));
    assert(zetas_ok_upto(36));
    assert(zeta_ok(36));
    assert(zetas_ok_upto(37));
    assert(zeta_ok(37));
    assert(zetas_ok_upto(38));
    assert(zeta_ok(38));
    assert(zetas_ok_upto(39));
    assert(zeta_ok(39));
    assert(zetas_ok_upto(40));
    assert(zeta_ok(40));
    assert(zetas_ok_upto(41));
    assert(zeta_ok(41));
    assert(zetas_ok_upto(42));
    assert(zeta_ok(42));
    assert(zetas_ok_upto(43));
    assert(zeta_ok(43));
    assert(zetas_ok_upto(44));
    assert(zeta_ok(44));
    assert(zetas_ok_upto(45));
    assert(zeta_ok(45));
    assert(zetas_ok_upto(46));
    assert(zeta_ok(46));
    assert(zetas_ok_upto(47));
    assert(zeta_ok(47));
    assert(zetas_ok_upto(48));
    assert(zeta_ok(48));
    assert(zetas_ok_upto(49));
    assert(zeta_ok(49));
    assert(zetas_ok_upto(50));
    assert(zeta_ok(50));
    assert(zetas_ok_upto(51));
    assert(zeta_ok(51));
    assert(zetas_ok_upto(52));
    assert(zeta_ok(52));
    assert(zetas_ok_upto(53));
    assert(zeta_ok(53));
    assert(zetas_ok_upto(54));
    assert(zeta_ok(54));
    assert(zetas_ok_upto(55));
    assert(zeta_ok(55));
    assert(zetas_ok_upto(56));
    assert(zeta_ok(56));
    assert(zetas_ok_upto(57));
    assert(zeta_ok(57));
    assert(zetas_ok_upto(58));
    assert(zeta_ok(58));
    assert(zetas_ok_upto(59));
    assert(zeta_ok(59));
    assert(zetas_ok_upto(60));
    assert(zeta_ok(60));
    assert(zetas_ok_upto(61));
    assert(zeta_ok(61));
    assert(zetas_ok_upto(62));
    assert(zeta_ok(62));
    assert(zetas_ok_upto(63));
    assert(zeta_ok(63));
    assert(zetas_ok_upto(64));
    assert(zeta_ok(64));
    assert(zetas_ok_upto(65));
    assert(zeta_ok(65));
    assert(zetas_ok_upto(66));
    assert(zeta_ok(66));
    assert(zetas_ok_upto(67));
    assert(zeta_ok(67));
    assert(zetas_ok_upto(68));
    assert(zeta_ok(68));
    assert(zetas_ok_upto(69));
    assert(zeta_ok(69));
    assert(zetas_ok_upto(70));
    assert(zeta_ok(70));
    assert(zetas_ok_upto(71));
    assert(zeta_ok(71));
    assert(zetas_ok_upto(72));
    assert(zeta_ok(72));
    assert(zetas_ok_upto(73));
    assert(zeta_ok(73));
    assert(zetas_ok_upto(74));
    assert(zeta_ok(74));
    assert(zetas_ok_upto(75));
    assert(zeta_ok(75));
    assert(zetas_ok_upto(76));
    assert(zeta_ok(76));
    assert(zetas_ok_upto(77));
    assert(zeta_ok(77));
    assert(zetas_ok_upto(78));
    assert(zeta_ok(78));
    assert(zetas_ok_upto(79));
    assert(zeta_ok(79));
    assert(zetas_ok_upto(80));
    assert(zeta_ok(80));
    assert(zetas_ok_upto(81));
    assert(zeta_ok(81));
    assert(zetas_ok_upto(82));
    assert(zeta_ok(82));
    assert(zetas_ok_upto(83));
    assert(zeta_ok(83));
    assert(zetas_ok_upto(84));
    assert(zeta_ok(84));
    assert(zetas_ok_upto(85));
    assert(zeta_ok(85));
    assert(zetas_ok_upto(86));
    assert(zeta_ok(86));
    assert(zetas_ok_upto(87));
    assert(zeta_ok(87));
    assert(zetas_ok_upto(88));
    assert(zeta_ok(88));
    assert(zetas_ok_upto(89));
    assert(zeta_ok(89));
    assert(zetas_ok_upto(90));
    assert(zeta_ok(90));
    assert(zetas_ok_upto(91));
    assert(zeta_ok(91));
    assert(zetas_ok_upto(92));
    assert(zeta_ok(92));
    assert(zetas_ok_upto(93));
    assert(zeta_ok(93));
    assert(zetas_ok_upto(94));
    assert(zeta_ok(94));
    assert(zetas_ok_upto(95));
    assert(zeta_ok(95));
    assert(zetas_ok_upto(96));
    assert(zeta_ok(96));
    assert(zetas_ok_upto(97));
    assert(zeta_ok(97));
    assert(zetas_ok_upto(98));
    assert(zeta_ok(98));
    assert(zetas_ok_upto(99));
    assert(zeta_ok(99));
    assert(zetas_ok_upto(100));
    assert(zeta_ok(100));
    assert(zetas_ok_upto(101));
    assert(zeta_ok(101));
    assert(zetas_ok_upto(102));
    assert(zeta_ok(102));
    assert(zetas_ok_upto(103));
    assert(zeta_ok(103));
    assert(zetas_ok_upto(104));
    assert(zeta_ok(104));
    assert(zetas_ok_upto(105));
    assert(zeta_ok(105));
    assert(zetas_ok_upto(106));
    assert(zeta_ok(106));
    assert(zetas_ok_upto(107));
    assert(zeta_ok(107));
    assert(zetas_ok_upto(108));
    assert(zeta_ok(108));
    assert(zetas_ok_upto(109));
    assert(zeta_ok(109));
    assert(zetas_ok_upto(110));
    assert(zeta_ok(110));
    assert(zetas_ok_upto(111));
    assert(zeta_ok(111));
    assert(zetas_ok_upto(112));
    assert(zeta_ok(112));
    assert(zetas_ok_upto(113));
    assert(zeta_ok(113));
    assert(zetas_ok_upto(114));
    assert(zeta_ok(114));
    assert(zetas_ok_upto(115));
    assert(zeta_ok(115));
    assert(zetas_ok_upto(116));
    assert(zeta_ok(116));
    assert(zetas_ok_upto(117));
    assert(zeta_ok(117));
    assert(zetas_ok_upto(118));
    assert(zeta_ok(118));
    assert(zetas_ok_upto(119));
    assert(zeta_ok(119));
    assert(zetas_ok_upto(120));
    assert(zeta_ok(120));
    assert(zetas_ok_upto(121));
    assert(zeta_ok(121));
    assert(zetas_ok_upto(122));
    assert(zeta_ok(122));
    assert(zetas_ok_upto(123));
    assert(zeta_ok(123));
    assert(zetas_ok_upto(124));
    assert(zeta_ok(124));
    assert(zetas_ok_upto(125));
    assert(zeta_ok(125));
    assert(zetas_ok_upto(126));
    assert(zeta_ok(126));
    assert(zetas_ok_upto(127));
    assert(zeta_ok(127));
    assert(zetas_ok_upto(128));
    assert forall|k: int| 0 <= k < 128 implies zeta_ok(k) by {
        lemma_zetas_ok_peel(128, k);
    }
}

/// The seven butterfly layers: block half-length and first table index.
pub open spec fn valid_layer(len: int, k0: int) -> bool {
    &&& (len == 128 || len == 64 || len == 32 || len == 16 || len == 8 || len == 4 || len == 2)
    &&& k0 * len == 128
}

/// One coefficient of a forward butterfly layer.
pub open spec fn fwd_point(a: Seq<int>, len: int, k0: int, i: int) -> int {
    let blk = i / (2 * len);
    let pos = i % (2 * len);
    let z = zetas_seq()[k0 + blk] as int;
    if pos < len {
        (a[i] + z * a[i + len]) % 3329
    } else {
        (a[i - len] - z * a[i]) % 3329
    }
}

/// One forward butterfly layer applied to a whole residue sequence.
pub open spec fn spec_fwd_layer(a: Seq<int>, len: int, k0: int) -> Seq<int> {
    Seq::new(256, |i: int| fwd_point(a, len, k0, i))
}

/// One coefficient of an inverse butterfly layer.
pub open spec fn inv_point(a: Seq<int>, len: int, k0: int, i: int) -> int {
    let blk = i / (2 * len);
    let pos = i % (2 * len);
    let zi = inv_zetas_seq()[k0 + blk] as int;
    if pos < len {
        (a[i] + a[i + len]) % 3329
    } else {
        (zi * (a[i - len] - a[i])) % 3329
    }
}

/// One inverse butterfly layer applied to a whole residue sequence.
pub open spec fn spec_inv_layer(a: Seq<int>, len: int, k0: int) -> Seq<int> {
    Seq::new(256, |i: int| inv_point(a, len, k0, i))
}

/// Pointwise scaling by a constant, reduced mod q.
pub open spec fn spec_scale(a: Seq<int>, c: int) -> Seq<int> {
    Seq::new(256, |i: int| (c * a[i]) % 3329)
}

/// The full forward transform: layers at block half-lengths 128 down to 2.
pub open spec fn spec_forward(a: Seq<int>) -> Seq<int> {
    spec_fwd_layer(
        spec_fwd_layer(
            spec_fwd_layer(
                spec_fwd_layer(
                    spec_fwd_layer(spec_fwd_layer(spec_fwd_layer(a, 128, 1), 64, 2), 32, 4),
                    16,
                    8,
                ),
                8,
                16,
            ),
            4,
            32,
        ),
        2,
        64,
    )
}

/// The full inverse transform: mirrored layers at block half-lengths 2 up to
/// 128, then scaling by the inverse of 128 mod q.
pub open spec fn spec_inverse(a: Seq<int>) -> Seq<int> {
    spec_scale(
        spec_inv_layer(
            spec_inv_layer(
                spec_inv_layer(
                    spec_inv_layer(
                        spec_inv_layer(spec_inv_layer(spec_inv_layer(a, 2, 64), 4, 32), 8, 16),
                        16,
                        8,
                    ),
                    32,
                    4,
                ),
                64,
                2,
            ),
            128,
            1,
        ),
        3303,
    )
}

/// The slot constant for the product of transformed elements: slot s of 128
/// two-coefficient slots multiplies mod (X^2 - gamma(s)).
pub open spec fn gamma(s: int) -> int {
    if s % 2 == 0 {
        zetas_seq()[64 + s / 2] as int
    } else {
        3329 - zetas_seq()[64 + s / 2] as int
    }
}

/// One coefficient of the product of two transformed elements.
pub open spec fn basemul_point(a: Seq<int>, b: Seq<int>, i: int) -> int {
    if i % 2 == 0 {
        (a[i] * b[i] + gamma(i / 2) * (a[i + 1] * b[i + 1])) % 3329
    } else {
        (a[i - 1] * b[i] + a[i] * b[i - 1]) % 3329
    }
}

/// The product of two transformed elements, slot by slot.
pub open spec fn spec_basemul(a: Seq<int>, b: Seq<int>) -> Seq<int> {
    Seq::new(256, |i: int| basemul_point(a, b, i))
}

/// The butterfly-constant table as an executable vector.
pub(crate) fn make_zetas() -> (v: Vec<i16>)
    ensures
        v@ == zetas_seq(),
{
    let t: [i16; 128] = [
        1, 1729, 2580, 3289, 2642, 630, 1897, 848,
        1062, 1919, 193, 797, 2786, 3260, 569, 1746,
        296, 2447, 1339, 1476, 3046, 56, 2240, 1333,
        1426, 2094, 535, 2882, 2393, 2879, 1974, 821,
        289, 331, 3253, 1756, 1197, 2304, 2277, 2055,
        650, 1977, 2513, 632, 2865, 33, 1320, 1915,
        2319, 1435, 807, 452, 1438, 2868, 1534, 2402,
        2647, 2617, 1481, 648, 2474, 3110, 1227, 910,
        17, 2761, 583, 2649, 1637, 723, 2288, 1100,
        1409, 2662, 3281, 233, 756, 2156, 3015, 3050,
        1703, 1651, 2789, 1789, 1847, 952, 1461, 2687,
        939, 2308, 2437, 2388, 733, 2337, 268, 641,
        1584, 2298, 2037, 3220, 375, 2549, 2090, 1645,
        1063, 319, 2773, 757, 2099, 561, 2466, 2594,
        2804, 1092, 403, 1026, 1143, 2150, 2775, 886,
        1722, 1212, 1874, 1029, 2110, 2935, 885, 2154,
    ];
    let mut v: Vec<i16> = Vec::new();
    for i in 0..128usize
        invariant
            v@.len() == i,
            forall|j: int| 0 <= j < i ==> #[trigger] v@[j] == t@[j],
    {
        v.push(t[i]);
    }
    proof {
        assert(v@ =~= t@);
        assert(t@ =~= zetas_seq());
    }
    v
}

/// The inverse-constant table as an executable vector.
pub(crate) fn make_inv_zetas() -> (v: Vec<i16>)
    ensures
        v@ == inv_zetas_seq(),
{
    let t: [i16; 128] = [
        1, 1600, 40, 749, 2481, 1432, 2699, 687,
        1583, 2760, 69, 543, 2532, 3136, 1410, 2267,
        2508, 1355, 450, 936, 447, 2794, 1235, 1903,
        1996, 1089, 3273, 283, 1853, 1990, 882, 3033,
        2419, 2102, 219, 855, 2681, 1848, 712, 682,
        927, 1795, 461, 1891, 2877, 2522, 1894, 1010,
        1414, 2009, 3296, 464, 2697, 816, 1352, 2679,
        1274, 1052, 1025, 2132, 1573, 76, 2998, 3040,
        1175, 2444, 394, 1219, 2300, 1455, 2117, 1607,
        2443, 554, 1179, 2186, 2303, 2926, 2237, 525,
        735, 863, 2768, 1230, 2572, 556, 3010, 2266,
        1684, 1239, 780, 2954, 109, 1292, 1031, 1745,
        2688, 3061, 992, 2596, 941, 892, 1021, 2390,
        642, 1868, 2377, 1482, 1540, 540, 1678, 1626,
        279, 314, 1173, 2573, 3096, 48, 667, 1920,
        2229, 1041, 2606, 1692, 680, 2746, 568, 3312,
    ];
    let mut v: Vec<i16> = Vec::new();
    for i in 0..128usize
        invariant
            v@.len() == i,
            forall|j: int| 0 <= j < i ==> #[trigger] v@[j] == t@[j],
    {
        v.push(t[i]);
    }
    proof {
        assert(v@ =~= t@);
        assert(t@ =~= inv_zetas_seq());
    }
    v
}

/// One forward butterfly layer.
#[verifier::rlimit(60)]
#[verifier::loop_isolation(false)]
fn fwd_layer(p: &Poly, zt: &Vec<i16>, len: usize, k0: usize) -> (r: Poly)
    requires
        p.wf(),
        zt@ == zetas_seq(),
        valid_layer(len as int, k0 as int),
    ensures
        r.wf(),
        r.repr() == spec_fwd_layer(p.repr(), len as int, k0 as int),
{
    proof {
        lemma_zetas_ok();
    }
    let ghost a = p.repr();
    let mut out: Vec<i16> = Vec::new();
    let mut blk: usize = 0;
    let mut pos: usize = 0;
    for i in 0..256usize
        invariant
            out@.len() == i,
            i == 2 * len * blk + pos,
            pos < 2 * len,
            forall|j: int| 0 <= j < i ==> -1664 <= #[trigger] out@[j] <= 1664,
            forall|j: int|
                0 <= j < i ==> (#[trigger] out@[j] as int) % 3329 == fwd_point(
                    a,
                    len as int,
                    k0 as int,
                    j,
                ),
    {
        proof {
            assert(2 * len * blk + pos < 256);
            assert(blk < k0) by (nonlinear_arith)
                requires
                    2 * len * blk + pos < 256,
                    k0 * len == 128,
                    pos >= 0,
                    len >= 2,
                    blk >= 0,
            ;
            lemma_fundamental_div_mod_converse(i as int, 2 * len as int, blk as int, pos as int);
            assert(i as int / (2 * len as int) == blk as int);
            assert(i as int % (2 * len as int) == pos as int);
            assert(zeta_ok(k0 + blk as int));
        }
        let z: i32 = zt[k0 + blk] as i32;
        let w: i16 = if pos < len {
            proof {
                assert(i + len < 256) by (nonlinear_arith)
                    requires
                        i == 2 * len * blk + pos,
                        pos < len,
                        blk < k0,
                        k0 * len == 128,
                        len >= 2,
                        blk >= 0,
                        pos >= 0,
                ;
            }
            let rb: i32 = residue(p.coeffs[i + len]);
            proof {
                lemma_mul_bound(z as int, rb as int);
            }
            let t: i32 = (z * rb) % 3329;
            proof {
                lemma_mod_range(z as int * rb as int);
                lemma_mul_mod_right(z as int, p.coeffs@[i + len] as int);
                lemma_add_residues(p.coeffs@[i as int] as int, t as int);
                lemma_small_mod(t as nat, 3329);
                lemma_add_mod_right(a[i as int], z as int * a[i + len]);
            }
            recenter(p.coeffs[i] as i32 + t)
        } else {
            let rb: i32 = residue(p.coeffs[i]);
            proof {
                lemma_mul_bound(z as int, rb as int);
            }
            let t: i32 = (z * rb) % 3329;
            proof {
                lemma_mod_range(z as int * rb as int);
                lemma_mul_mod_right(z as int, p.coeffs@[i as int] as int);
                lemma_sub_residues(p.coeffs@[i - len] as int, t as int);
                lemma_small_mod(t as nat, 3329);
                lemma_sub_mod_right(a[i - len], z as int * a[i as int]);
            }
            recenter(p.coeffs[i - len] as i32 - t)
        };
        out.push(w);
        pos = pos + 1;
        if pos == 2 * len {
            proof {
                assert(2 * len * (blk + 1) == 2 * len * blk + 2 * len) by (nonlinear_arith);
            }
            pos = 0;
            blk = blk + 1;
        }
    }
    let r = Poly { coeffs: out };
    proof {
        assert(r.repr() =~= spec_fwd_layer(a, len as int, k0 as int));
    }
    r
}

/// One inverse butterfly layer.
#[verifier::rlimit(60)]
#[verifier::loop_isolation(false)]
fn inv_layer(p: &Poly, izt: &Vec<i16>, len: usize, k0: usize) -> (r: Poly)
    requires
        p.wf(),
        izt@ == inv_zetas_seq(),
        valid_layer(len as int, k0 as int),
    ensures
        r.wf(),
        r.repr() == spec_inv_layer(p.repr(), len as int, k0 as int),
{
    proof {
        lemma_zetas_ok();
    }
    let ghost a = p.repr();
    let mut out: Vec<i16> = Vec::new();
    let mut blk: usize = 0;
    let mut pos: usize = 0;
    for i in 0..256usize
        invariant
            out@.len() == i,
            i == 2 * len * blk + pos,
            pos < 2 * len,
            forall|j: int| 0 <= j < i ==> -1664 <= #[trigger] out@[j] <= 1664,
            forall|j: int|
                0 <= j < i ==> (#[trigger] out@[j] as int) % 3329 == inv_point(
                    a,
                    len as int,
                    k0 as int,
                    j,
                ),
    {
        proof {
            assert(2 * len * blk + pos < 256);
            assert(blk < k0) by (nonlinear_arith)
                requires
                    2 * len * blk + pos < 256,
                    k0 * len == 128,
                    pos >= 0,
                    len >= 2,
                    blk >= 0,
            ;
            lemma_fundamental_div_mod_converse(i as int, 2 * len as int, blk as int, pos as int);
            assert(zeta_ok(k0 + blk as int));
        }
        let w: i16 = if pos < len {
            proof {
                assert(i + len < 256) by (nonlinear_arith)
                    requires
                        i == 2 * len * blk + pos,
                        pos < len,
                        blk < k0,
                        k0 * len == 128,
                        len >= 2,
                        blk >= 0,
                        pos >= 0,
                ;
                lemma_add_residues(p.coeffs@[i as int] as int, p.coeffs@[i + len] as int);
            }
            recenter(p.coeffs[i] as i32 + p.coeffs[i + len] as i32)
        } else {
            let zi: i32 = izt[k0 + blk] as i32;
            let d: i32 = p.coeffs[i - len] as i32 - p.coeffs[i] as i32;
            let dm: i32 = if d < 0 {
                d + 3329
            } else {
                d
            };
            proof {
                lemma_mod_small_signed(d as int);
                lemma_sub_residues(p.coeffs@[i - len] as int, p.coeffs@[i as int] as int);
                lemma_mul_mod_right(zi as int, a[i - len] - a[i as int]);
                lemma_mul_bound(zi as int, dm as int);
                lemma_mod_range(zi as int * dm as int);
            }
            let t: i32 = (zi * dm) % 3329;
            center_of_residue(t)
        };
        out.push(w);
        pos = pos + 1;
        if pos == 2 * len {
            proof {
                assert(2 * len * (blk + 1) == 2 * len * blk + 2 * len) by (nonlinear_arith);
            }
            pos = 0;
            blk = blk + 1;
        }
    }
    let r = Poly { coeffs: out };
    proof {
        assert(r.repr() =~= spec_inv_layer(a, len as int, k0 as int));
    }
    r
}

/// Pointwise scaling by a constant in [0, q).
#[verifier::loop_isolation(false)]
fn scale_poly(p: &Poly, c: i32) -> (r: Poly)
    requires
        p.wf(),
        0 <= c < 3329,
    ensures
        r.wf(),
        r.repr() == spec_scale(p.repr(), c as int),
{
    let ghost a = p.repr();
    let mut out: Vec<i16> = Vec::new();
    for i in 0..256usize
        invariant
            out@.len() == i,
            forall|j: int| 0 <= j < i ==> -1664 <= #[trigger] out@[j] <= 1664,
            forall|j: int|
                0 <= j < i ==> (#[trigger] out@[j] as int) % 3329 == (c as int * a[j]) % 3329,
    {
        let rb: i32 = residue(p.coeffs[i]);
        proof {
            lemma_mul_bound(c as int, rb as int);
        }
        let t: i32 = (c * rb) % 3329;
        proof {
            lemma_mul_mod_right(c as int, p.coeffs@[i as int] as int);
            lemma_mod_range(c as int * rb as int);
        }
        let w: i16 = center_of_residue(t);
        out.push(w);
    }
    let r = Poly { coeffs: out };
    proof {
        assert(r.repr() =~= spec_scale(a, c as int));
    }
    r
}

/// Forward transform of a ring element.
pub fn forward(p: &Poly) -> (r: Poly)
    requires
        p.wf(),
    ensures
        r.wf(),
        r.repr() == spec_forward(p.repr()),
{
    let zt: Vec<i16> = make_zetas();
    let p1 = fwd_layer(p, &zt, 128, 1);
    let p2 = fwd_layer(&p1, &zt, 64, 2);
    let p3 = fwd_layer(&p2, &zt, 32, 4);
    let p4 = fwd_layer(&p3, &zt, 16, 8);
    let p5 = fwd_layer(&p4, &zt, 8, 16);
    let p6 = fwd_layer(&p5, &zt, 4, 32);
    fwd_layer(&p6, &zt, 2, 64)
}

/// Inverse transform of a transformed element, including the final scaling.
pub fn inverse(p: &Poly) -> (r: Poly)
    requires
        p.wf(),
    ensures
        r.wf(),
        r.repr() == spec_inverse(p.repr()),
{
    let izt: Vec<i16> = make_inv_zetas();
    let p1 = inv_layer(p, &izt, 2, 64);
    let p2 = inv_layer(&p1, &izt, 4, 32);
    let p3 = inv_layer(&p2, &izt, 8, 16);
    let p4 = inv_layer(&p3, &izt, 16, 8);
    let p5 = inv_layer(&p4, &izt, 32, 4);
    let p6 = inv_layer(&p5, &izt, 64, 2);
    let p7 = inv_layer(&p6, &izt, 128, 1);
    scale_poly(&p7, 3303)
}

/// Product of two transformed elements, slot by slot: slot s of 128
/// two-coefficient slots is multiplied mod (X^2 - gamma(s)).
#[verifier::rlimit(60)]
pub fn pointwise_multiply(p: &Poly, q: &Poly) -> (r: Poly)
    requires
        p.wf(),
        q.wf(),
    ensures
        r.wf(),
        r.repr() == spec_basemul(p.repr(), q.repr()),
{
    proof {
        lemma_zetas_ok();
    }
    let zt: Vec<i16> = make_zetas();
    let ghost a = p.repr();
    let ghost b = q.repr();
    let mut out: Vec<i16> = Vec::new();
    #[verifier::loop_isolation(false)]
    for s in 0..128usize
        invariant
            out@.len() == 2 * s,
            forall|j: int| 0 <= j < 2 * s ==> -1664 <= #[trigger] out@[j] <= 1664,
            forall|j: int|
                0 <= j < 2 * s ==> (#[trigger] out@[j] as int) % 3329 == basemul_point(a, b, j),
    {
        let i: usize = 2 * s;
        let a0: i32 = residue(p.coeffs[i]);
        let a1: i32 = residue(p.coeffs[i + 1]);
        let b0: i32 = residue(q.coeffs[i]);
        let b1: i32 = residue(q.coeffs[i + 1]);
        let zq: i32 = zt[64 + s / 2] as i32;
        let g: i32 = if s % 2 == 1 {
            3329 - zq
        } else {
            zq
        };
        proof {
            assert(zeta_ok(64 + s as int / 2));
            assert(g as int == gamma(s as int));
        }
        // even coefficient of the slot
        proof {
            lemma_mul_bound(a1 as int, b1 as int);
            lemma_mod_range(a1 as int * b1 as int);
        }
        let m1: i32 = (a1 * b1) % 3329;
        proof {
            lemma_mul_bound(g as int, m1 as int);
            lemma_mul_bound(a0 as int, b0 as int);
        }
        let m2: i32 = (g * m1) % 3329;
        let m0: i32 = (a0 * b0) % 3329;
        let c0: i32 = (m0 + m2) % 3329;
        proof {
            lemma_mod_range(a1 as int * b1 as int);
            lemma_mod_range(g as int * m1 as int);
            lemma_mod_range(a0 as int * b0 as int);
            lemma_mod_range(m0 as int + m2 as int);
            lemma_mul_mod_right(g as int, a1 as int * b1 as int);
            lemma_add_residues(a0 as int * b0 as int, g as int * (a1 as int * b1 as int));
            assert((m0 + m2) as int % 3329 == (a[i as int] * b[i as int] + gamma(s as int) * (a[i
                + 1] * b[i + 1])) % 3329);
        }
        let w0: i16 = center_of_residue(c0);
        // odd coefficient of the slot
        proof {
            lemma_mul_bound(a0 as int, b1 as int);
            lemma_mul_bound(a1 as int, b0 as int);
        }
        let n0: i32 = (a0 * b1) % 3329;
        let n1: i32 = (a1 * b0) % 3329;
        let c1: i32 = (n0 + n1) % 3329;
        proof {
            lemma_mod_range(a0 as int * b1 as int);
            lemma_mod_range(a1 as int * b0 as int);
            lemma_mod_range(n0 as int + n1 as int);
            lemma_add_residues(a0 as int * b1 as int, a1 as int * b0 as int);
            assert((n0 + n1) as int % 3329 == (a[i as int] * b[i + 1] + a[i + 1] * b[i as int])
                % 3329);
        }
        let w1: i16 = center_of_residue(c1);
        out.push(w0);
        out.push(w1);
        proof {
            assert(basemul_point(a, b, i as int) == (a[i as int] * b[i as int] + gamma(
                i as int / 2,
            ) * (a[i + 1] * b[i + 1])) % 3329);
            assert(basemul_point(a, b, i + 1) == (a[i as int] * b[i + 1] + a[i + 1] * b[i as int])
                % 3329);
        }
    }
    let r = Poly { coeffs: out };
    proof {
        assert(r.repr() =~= spec_basemul(a, b));
    }
    r
}

} // verus!
// The round-trip proof: one inverse layer undoes one forward layer up to a
// factor of 2; inverse layers commute with scaling; scalings compose; and the
// final factor 2^7 * 3303 is 1 mod q.

use vstd::prelude::*;
use crate::lemmas::{lemma_mul_swap, lemma_mul_assoc};

verus! {

/// A forward layer always yields residues.
pub proof fn lemma_fwd_layer_residues(a: Seq<int>, len: int, k0: int)
    ensures
        is_residues(spec_fwd_layer(a, len, k0)),
{
    assert forall|i: int| 0 <= i < 256 implies 0 <= #[trigger] spec_fwd_layer(a, len, k0)[i]
        < 3329 by {
        lemma_mod_range(
            if i % (2 * len) < len {
                a[i] + (zetas_seq()[k0 + i / (2 * len)] as int) * a[i + len]
            } else {
                a[i - len] - (zetas_seq()[k0 + i / (2 * len)] as int) * a[i]
            },
        );
    }
}

/// An inverse layer always yields residues.
pub proof fn lemma_inv_layer_residues(a: Seq<int>, len: int, k0: int)
    ensures
        is_residues(spec_inv_layer(a, len, k0)),
{
    assert forall|i: int| 0 <= i < 256 implies 0 <= #[trigger] spec_inv_layer(a, len, k0)[i]
        < 3329 by {
        lemma_mod_range(
            if i % (2 * len) < len {
                a[i] + a[i + len]
            } else {
                (inv_zetas_seq()[k0 + i / (2 * len)] as int) * (a[i - len] - a[i])
            },
        );
    }
}

/// Index bookkeeping for one butterfly pair: position i with pos < len is the
/// lower leg; i + len is the upper leg of the same block.
proof fn lemma_pair_indices(i: int, len: int, k0: int)
    requires
        valid_layer(len, k0),
        0 <= i < 256,
        i % (2 * len) < len,
    ensures
        0 <= i / (2 * len) < k0,
        (i + len) / (2 * len) == i / (2 * len),
        (i + len) % (2 * len) == i % (2 * len) + len,
        i + len < 256,
{
    let blk = i / (2 * len);
    let pos = i % (2 * len);
    vstd::arithmetic::div_mod::lemma_fundamental_div_mod(i, 2 * len);
    vstd::arithmetic::div_mod::lemma_mod_bound(i, 2 * len);
    assert(i == 2 * len * blk + pos);
    assert(0 <= blk < k0) by (nonlinear_arith)
        requires
            i == 2 * len * blk + pos,
            0 <= i < 256,
            0 <= pos < 2 * len,
            k0 * len == 128,
            len >= 2,
    ;
    assert(i + len < 256) by (nonlinear_arith)
        requires
            i == 2 * len * blk + pos,
            pos < len,
            0 <= blk < k0,
            k0 * len == 128,
            len >= 2,
            pos >= 0,
    ;
    vstd::arithmetic::mul::lemma_mul_is_commutative(blk, 2 * len);
    lemma_fundamental_div_mod_converse(i + len, 2 * len, blk, pos + len);
}

/// Index bookkeeping for the upper leg: position i with pos >= len belongs to
/// the same block as i - len, which sits at pos - len.
proof fn lemma_pair_indices_upper(i: int, len: int, k0: int)
    requires
        valid_layer(len, k0),
        0 <= i < 256,
        i % (2 * len) >= len,
    ensures
        0 <= i / (2 * len) < k0,
        0 <= i - len,
        (i - len) / (2 * len) == i / (2 * len),
        (i - len) % (2 * len) == i % (2 * len) - len,
        (i - len) % (2 * len) < len,
    {
    let blk = i / (2 * len);
    let pos = i % (2 * len);
    vstd::arithmetic::div_mod::lemma_fundamental_div_mod(i, 2 * len);
    vstd::arithmetic::div_mod::lemma_mod_bound(i, 2 * len);
    assert(i == 2 * len * blk + pos);
    assert(0 <= blk < k0) by (nonlinear_arith)
        requires
            i == 2 * len * blk + pos,
            0 <= i < 256,
            0 <= pos < 2 * len,
            k0 * len == 128,
            len >= 2,
    ;
    assert(2 * len * blk >= 0) by (nonlinear_arith)
        requires
            len >= 2,
            blk >= 0,
    ;
    vstd::arithmetic::mul::lemma_mul_is_commutative(blk, 2 * len);
    lemma_fundamental_div_mod_converse(i - len, 2 * len, blk, pos - len);
}

/// One inverse layer undoes the matching forward layer up to a factor of 2.
pub proof fn lemma_layer_roundtrip(a: Seq<int>, len: int, k0: int)
    requires
        is_residues(a),
        valid_layer(len, k0),
    ensures
        spec_inv_layer(spec_fwd_layer(a, len, k0), len, k0) == spec_scale(a, 2),
{
    lemma_zetas_ok();
    let y = spec_fwd_layer(a, len, k0);
    assert forall|i: int| 0 <= i < 256 implies #[trigger] spec_inv_layer(y, len, k0)[i] == (2
        * a[i]) % 3329 by {
        let blk = i / (2 * len);
        let pos = i % (2 * len);
        vstd::arithmetic::div_mod::lemma_mod_bound(i, 2 * len);
        if pos < len {
            lemma_pair_indices(i, len, k0);
            let z = zetas_seq()[k0 + blk] as int;
            assert(y[i] == (a[i] + z * a[i + len]) % 3329);
            assert(y[i + len] == (a[i] - z * a[i + len]) % 3329);
            lemma_add_residues(a[i] + z * a[i + len], a[i] - z * a[i + len]);
            assert(inv_point(y, len, k0, i) == (2 * a[i]) % 3329);
        } else {
            lemma_pair_indices_upper(i, len, k0);
            lemma_pair_indices(i - len, len, k0);
            let z = zetas_seq()[k0 + blk] as int;
            let zi = inv_zetas_seq()[k0 + blk] as int;
            let p = a[i - len] + z * a[i];
            let m = a[i - len] - z * a[i];
            assert(y[i - len] == p % 3329);
            assert(y[i] == m % 3329);
            lemma_sub_residues(p, m);
            assert((p % 3329 - m % 3329) % 3329 == (p - m) % 3329);
            lemma_mul_mod_right(zi, p % 3329 - m % 3329);
            lemma_mul_mod_right(zi, p - m);
            assert((zi * (p % 3329 - m % 3329)) % 3329 == (zi * (p - m)) % 3329);
            assert(p - m == 2 * (z * a[i]));
            lemma_mul_shuffle(zi, z, a[i]);
            assert(zi * (p - m) == (zi * z) * (2 * a[i]));
            lemma_mul_mod_left(zi * z, 2 * a[i]);
            assert(zeta_ok(k0 + blk));
            assert((z * zi) % 3329 == 1);
            assert(zi * z == z * zi) by (nonlinear_arith);
            assert(((zi * z) * (2 * a[i])) % 3329 == (1 * (2 * a[i])) % 3329);
            assert(inv_point(y, len, k0, i) == (2 * a[i]) % 3329);
        }
    }
    assert(spec_inv_layer(y, len, k0) =~= spec_scale(a, 2));
}

/// Inverse layers commute with pointwise scaling.
pub proof fn lemma_inv_layer_scale(a: Seq<int>, c: int, len: int, k0: int)
    requires
        a.len() == 256,
        valid_layer(len, k0),
    ensures
        spec_inv_layer(spec_scale(a, c), len, k0) == spec_scale(spec_inv_layer(a, len, k0), c),
{
    let sa = spec_scale(a, c);
    let ia = spec_inv_layer(a, len, k0);
    assert forall|i: int| 0 <= i < 256 implies #[trigger] spec_inv_layer(sa, len, k0)[i]
        == spec_scale(ia, c)[i] by {
        let blk = i / (2 * len);
        let pos = i % (2 * len);
        vstd::arithmetic::div_mod::lemma_mod_bound(i, 2 * len);
        if pos < len {
            lemma_pair_indices(i, len, k0);
            lemma_add_residues(c * a[i], c * a[i + len]);
            lemma_distribute_add(c, a[i], a[i + len]);
            lemma_mul_mod_right(c, a[i] + a[i + len]);
            assert(inv_point(sa, len, k0, i) == (c * (a[i] + a[i + len])) % 3329);
            assert(spec_scale(ia, c)[i] == (c * ((a[i] + a[i + len]) % 3329)) % 3329);
        } else {
            lemma_pair_indices_upper(i, len, k0);
            lemma_pair_indices(i - len, len, k0);
            let zi = inv_zetas_seq()[k0 + blk] as int;
            lemma_sub_residues(c * a[i - len], c * a[i]);
            lemma_mul_mod_right(zi, (c * a[i - len]) % 3329 - (c * a[i]) % 3329);
            lemma_mul_mod_right(zi, c * a[i - len] - c * a[i]);
            lemma_distribute_sub(c, a[i - len], a[i]);
            lemma_mul_swap(zi, c, a[i - len] - a[i]);
            lemma_mul_mod_right(c, zi * (a[i - len] - a[i]));
            assert(inv_point(sa, len, k0, i) == (zi * (c * a[i - len] - c * a[i])) % 3329);
            assert(spec_scale(ia, c)[i] == (c * ((zi * (a[i - len] - a[i])) % 3329)) % 3329);
            assert((zi * (c * (a[i - len] - a[i])))  == (c * (zi * (a[i - len] - a[i]))));
        }
    }
    assert(spec_inv_layer(sa, len, k0) =~= spec_scale(ia, c));
}

/// Pointwise scalings compose by multiplying the constants.
pub proof fn lemma_scale_scale(a: Seq<int>, c: int, d: int)
    requires
        a.len() == 256,
    ensures
        spec_scale(spec_scale(a, c), d) == spec_scale(a, d * c),
{
    assert forall|i: int| 0 <= i < 256 implies #[trigger] spec_scale(spec_scale(a, c), d)[i]
        == spec_scale(a, d * c)[i] by {
        lemma_mul_mod_right(d, c * a[i]);
        lemma_mul_assoc(d, c, a[i]);
    }
    assert(spec_scale(spec_scale(a, c), d) =~= spec_scale(a, d * c));
}

/// Scaling by anything congruent to 1 mod q is the identity on residues.
pub proof fn lemma_scale_unit(a: Seq<int>, c: int)
    requires
        is_residues(a),
        c % 3329 == 1,
    ensures
        spec_scale(a, c) == a,
{
    assert forall|i: int| 0 <= i < 256 implies #[trigger] spec_scale(a, c)[i] == a[i] by {
        lemma_mul_mod_left(c, a[i]);
        lemma_small_mod(a[i] as nat, 3329);
    }
    assert(spec_scale(a, c) =~= a);
}

/// NTT round-trip law at the level of ring elements: for every well-formed
/// element, the inverse transform of the forward transform is the element
/// itself.
pub proof fn lemma_ntt_roundtrip_poly(p: Poly)
    requires
        p.wf(),
    ensures
        spec_inverse(spec_forward(p.repr())) == p.repr(),
{
    p.lemma_wf_residues();
    lemma_ntt_roundtrip(p.repr());
}

/// NTT round-trip law: the inverse transform undoes the forward transform on
/// every ring element.
pub proof fn lemma_ntt_roundtrip(a: Seq<int>)
    requires
        is_residues(a),
    ensures
        spec_inverse(spec_forward(a)) == a,
{
    let f1 = spec_fwd_layer(a, 128, 1);
    let f2 = spec_fwd_layer(f1, 64, 2);
    let f3 = spec_fwd_layer(f2, 32, 4);
    let f4 = spec_fwd_layer(f3, 16, 8);
    let f5 = spec_fwd_layer(f4, 8, 16);
    let f6 = spec_fwd_layer(f5, 4, 32);
    let f7 = spec_fwd_layer(f6, 2, 64);
    lemma_fwd_layer_residues(a, 128, 1);
    lemma_fwd_layer_residues(f1, 64, 2);
    lemma_fwd_layer_residues(f2, 32, 4);
    lemma_fwd_layer_residues(f3, 16, 8);
    lemma_fwd_layer_residues(f4, 8, 16);
    lemma_fwd_layer_residues(f5, 4, 32);
    lemma_fwd_layer_residues(f6, 2, 64);

    // peel the seven inverse layers, pushing the scalings outward
    lemma_layer_roundtrip(f6, 2, 64);
    // I2(f7) == scale(f6, 2)
    lemma_inv_layer_scale(f6, 2, 4, 32);
    lemma_layer_roundtrip(f5, 4, 32);
    lemma_scale_scale(f5, 2, 2);
    // I4(I2(f7)) == scale(f5, 4)
    lemma_inv_layer_scale(f5, 4, 8, 16);
    lemma_layer_roundtrip(f4, 8, 16);
    lemma_scale_scale(f4, 2, 4);
    // == scale(f4, 8)
    lemma_inv_layer_scale(f4, 8, 16, 8);
    lemma_layer_roundtrip(f3, 16, 8);
    lemma_scale_scale(f3, 2, 8);
    // == scale(f3, 16)
    lemma_inv_layer_scale(f3, 16, 32, 4);
    lemma_layer_roundtrip(f2, 32, 4);
    lemma_scale_scale(f2, 2, 16);
    // == scale(f2, 32)
    lemma_inv_layer_scale(f2, 32, 64, 2);
    lemma_layer_roundtrip(f1, 64, 2);
    lemma_scale_scale(f1, 2, 32);
    // == scale(f1, 64)
    lemma_inv_layer_scale(f1, 64, 128, 1);
    lemma_layer_roundtrip(a, 128, 1);
    lemma_scale_scale(a, 2, 64);
    // == scale(a, 128)
    lemma_scale_scale(a, 128, 3303);
    lemma_scale_unit(a, (3303int) * (128int));
}

} // verus!
