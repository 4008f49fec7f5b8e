//! Small modular-arithmetic lemmas shared by the ring, transform and codec
//! modules. Everything here is about residues mod the ring modulus q = 3329.

use vstd::prelude::*;
use vstd::arithmetic::div_mod::{
    lemma_add_mod_noop, lemma_fundamental_div_mod, lemma_fundamental_div_mod_converse_mod,
    lemma_mod_add_multiples_vanish, lemma_mod_bound, lemma_mod_sub_multiples_vanish,
    lemma_mul_mod_noop_left, lemma_mul_mod_noop_right, lemma_small_mod,
    lemma_sub_mod_noop,
};
use vstd::arithmetic::mul::{
    lemma_mul_is_associative, lemma_mul_is_commutative, lemma_mul_is_distributive_add,
    lemma_mul_is_distributive_sub,
};

verus! {

/// A value within (-q, q) reduces mod q by at most one correction.
pub proof fn lemma_mod_small_signed(d: int)
    requires
        -3329 < d < 3329,
    ensures
        d % 3329 == if d < 0 { d + 3329 } else { d },
{
    if d < 0 {
        lemma_fundamental_div_mod_converse_mod(d, 3329, -1, d + 3329);
    } else {
        lemma_small_mod(d as nat, 3329);
    }
}

/// Shifting by a multiple of q does not change the residue.
pub proof fn lemma_shift_mod(c: int, s: int)
    requires
        c == s || c == s + 3329 || c == s - 3329,
    ensures
        c % 3329 == s % 3329,
{
    if c == s + 3329 {
        lemma_mod_add_multiples_vanish(s, 3329);
    } else if c == s - 3329 {
        lemma_mod_sub_multiples_vanish(s, 3329);
    }
}

/// Euclidean residue of a negative value, phrased over nonnegative operands.
pub proof fn lemma_neg_mod(v: int)
    requires
        -0x8000_0000 <= v < 0,
    ensures
        v % 3329 == 3328 - ((-v - 1) % 3329),
{
    let u = -v - 1;
    lemma_fundamental_div_mod(u, 3329);
    lemma_mod_bound(u, 3329);
    lemma_fundamental_div_mod_converse_mod(v, 3329, -(u / 3329) - 1, 3328 - (u % 3329));
}

/// Adding residues then reducing equals reducing the exact sum.
pub proof fn lemma_add_residues(x: int, y: int)
    ensures
        ((x % 3329) + (y % 3329)) % 3329 == (x + y) % 3329,
{
    lemma_add_mod_noop(x, y, 3329);
}

/// Subtracting residues then reducing equals reducing the exact difference.
pub proof fn lemma_sub_residues(x: int, y: int)
    ensures
        ((x % 3329) - (y % 3329)) % 3329 == (x - y) % 3329,
{
    lemma_sub_mod_noop(x, y, 3329);
}

/// The right summand may be reduced mod q before a sum is reduced mod q.
pub proof fn lemma_add_mod_right(x: int, y: int)
    ensures
        (x + (y % 3329)) % 3329 == (x + y) % 3329,
{
    vstd::arithmetic::div_mod::lemma_add_mod_noop_right(x, y, 3329);
}

/// The subtrahend may be reduced mod q before a difference is reduced mod q.
pub proof fn lemma_sub_mod_right(x: int, y: int)
    ensures
        (x - (y % 3329)) % 3329 == (x - y) % 3329,
{
    vstd::arithmetic::div_mod::lemma_sub_mod_noop_right(x, y, 3329);
}

/// A factor may be reduced mod q before a product is reduced mod q.
pub proof fn lemma_mul_mod_right(z: int, x: int)
    ensures
        (z * (x % 3329)) % 3329 == (z * x) % 3329,
{
    lemma_mul_mod_noop_right(z, x, 3329);
}

/// A left factor may be reduced mod q before a product is reduced mod q.
pub proof fn lemma_mul_mod_left(z: int, x: int)
    ensures
        ((z % 3329) * x) % 3329 == (z * x) % 3329,
{
    lemma_mul_mod_noop_left(z, x, 3329);
}

/// The product of two residues stays below q^2.
pub proof fn lemma_mul_bound(x: int, y: int)
    requires
        0 <= x < 3329,
        0 <= y < 3329,
    ensures
        0 <= x * y < 3329 * 3329,
{
    assert(0 <= x * y < 3329 * 3329) by (nonlinear_arith)
        requires
            0 <= x < 3329,
            0 <= y < 3329,
    ;
}

/// Residues lie in [0, q).
pub proof fn lemma_mod_range(x: int)
    ensures
        0 <= x % 3329 < 3329,
{
    lemma_mod_bound(x, 3329);
}

/// Rearrangement used by the inverse butterfly: zi * (2 * (z * b)) == (zi * z) * (2 * b).
pub proof fn lemma_mul_shuffle(zi: int, z: int, b: int)
    ensures
        zi * (2 * (z * b)) == (zi * z) * (2 * b),
{
    lemma_mul_is_associative(2, z, b);
    lemma_mul_is_associative(zi, z, 2 * b);
    lemma_mul_is_associative(z, 2, b);
    lemma_mul_is_commutative(z, 2);
}

/// Factors commute past each other: p * (c * x) == c * (p * x).
pub proof fn lemma_mul_swap(p: int, c: int, x: int)
    ensures
        p * (c * x) == c * (p * x),
{
    lemma_mul_is_associative(p, c, x);
    lemma_mul_is_commutative(p, c);
    lemma_mul_is_associative(c, p, x);
}

/// Association: d * (c * x) == (d * c) * x.
pub proof fn lemma_mul_assoc(d: int, c: int, x: int)
    ensures
        d * (c * x) == (d * c) * x,
{
    lemma_mul_is_associative(d, c, x);
}

/// Multiplication distributes over addition (wrapper with fixed shape).
pub proof fn lemma_distribute_add(c: int, x: int, y: int)
    ensures
        c * (x + y) == c * x + c * y,
{
    lemma_mul_is_distributive_add(c, x, y);
}

/// Multiplication distributes over subtraction (wrapper with fixed shape).
pub proof fn lemma_distribute_sub(c: int, x: int, y: int)
    ensures
        c * (x - y) == c * x - c * y,
{
    lemma_mul_is_distributive_sub(c, x, y);
}

} // verus!
