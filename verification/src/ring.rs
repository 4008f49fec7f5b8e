//! Ring arithmetic: polynomial representation and centered modular reduction.
//!
//! A ring element is a sequence of 256 coefficients of the quotient ring
//! Z_q[X]/(X^256 + 1) with q = 3329, stored centered in [-(q-1)/2, (q-1)/2].
//! The mathematical view of an element is its sequence of residues in [0, q).

use vstd::prelude::*;
use crate::lemmas::{
    lemma_add_residues, lemma_mod_range, lemma_mod_small_signed, lemma_neg_mod, lemma_shift_mod,
    lemma_sub_residues,
};

verus! {

/// The ring modulus.
pub const Q: i32 = 3329;

/// Number of coefficients in a ring element.
pub const N: usize = 256;

/// A valid view: 256 residues, each in [0, q).
pub open spec fn is_residues(s: Seq<int>) -> bool {
    &&& s.len() == 256
    &&& forall|i: int| 0 <= i < 256 ==> 0 <= #[trigger] s[i] < 3329
}

/// Pointwise sum of two residue sequences, reduced mod q.
pub open spec fn spec_poly_add(a: Seq<int>, b: Seq<int>) -> Seq<int> {
    Seq::new(256, |i: int| (a[i] + b[i]) % 3329)
}

/// Pointwise difference of two residue sequences, reduced mod q.
pub open spec fn spec_poly_sub(a: Seq<int>, b: Seq<int>) -> Seq<int> {
    Seq::new(256, |i: int| (a[i] - b[i]) % 3329)
}

/// The all-zero residue sequence.
pub open spec fn spec_poly_zero() -> Seq<int> {
    Seq::new(256, |i: int| 0)
}

/// A ring element ("Poly"): 256 coefficients stored centered.
pub struct Poly {
    pub coeffs: Vec<i16>,
}

/// Bring a value at distance at most one q from the centered range back into it.
pub(crate) fn recenter(v: i32) -> (r: i16)
    requires
        -4993 <= v <= 4993,
    ensures
        -1664 <= r <= 1664,
        (r as int) % 3329 == (v as int) % 3329,
{
    let w: i32 = if v > 1664 {
        v - 3329
    } else if v < -1664 {
        v + 3329
    } else {
        v
    };
    proof {
        lemma_shift_mod(w as int, v as int);
    }
    w as i16
}

/// The residue in [0, q) of a centered coefficient.
pub(crate) fn residue(x: i16) -> (r: i32)
    requires
        -1664 <= x <= 1664,
    ensures
        0 <= r < 3329,
        r as int == (x as int) % 3329,
{
    proof {
        lemma_mod_small_signed(x as int);
    }
    if x < 0 {
        x as i32 + 3329
    } else {
        x as i32
    }
}

/// Map a residue in [0, q) to its centered representative.
pub(crate) fn center_of_residue(r: i32) -> (x: i16)
    requires
        0 <= r < 3329,
    ensures
        -1664 <= x <= 1664,
        (x as int) % 3329 == r as int,
    {
    proof {
        lemma_shift_mod(if r > 1664 { r - 3329 } else { r as int } as int, r as int);
        lemma_mod_small_signed(r as int);
    }
    if r > 1664 {
        (r - 3329) as i16
    } else {
        r as i16
    }
}

impl Poly {
    /// Well-formed: exactly 256 coefficients, each centered.
    pub open spec fn wf(&self) -> bool {
        &&& self.coeffs@.len() == 256
        &&& forall|i: int| 0 <= i < 256 ==> -1664 <= #[trigger] self.coeffs@[i] <= 1664
    }

    /// Mathematical view: the sequence of residues mod q.
    pub open spec fn repr(&self) -> Seq<int> {
        Seq::new(256, |i: int| (self.coeffs@[i] as int) % 3329)
    }

    /// A well-formed element has a valid residue view.
    pub proof fn lemma_wf_residues(&self)
        requires
            self.wf(),
        ensures
            is_residues(self.repr()),
    {
        assert forall|i: int| 0 <= i < 256 implies 0 <= #[trigger] self.repr()[i] < 3329 by {
            lemma_mod_range(self.coeffs@[i] as int);
        }
    }

    /// The all-zero ring element.
    pub fn zero() -> (r: Poly)
        ensures
            r.wf(),
            r.repr() == spec_poly_zero(),
    {
        let mut v: Vec<i16> = Vec::new();
        for i in 0..256usize
            invariant
                v@.len() == i,
                forall|j: int| 0 <= j < i ==> #[trigger] v@[j] == 0i16,
        {
            v.push(0i16);
        }
        let r = Poly { coeffs: v };
        proof {
            assert(r.repr() =~= spec_poly_zero());
        }
        r
    }

    /// Map every stored coefficient (any representative) into the centered
    /// range, without changing the element's view.
    pub fn reduce(&mut self)
        requires
            old(self).coeffs@.len() == 256,
        ensures
            final(self).wf(),
            final(self).repr() == old(self).repr(),
    {
        let ghost orig = self.coeffs@;
        for i in 0..256usize
            invariant
                self.coeffs@.len() == 256,
                forall|j: int| i <= j < 256 ==> #[trigger] self.coeffs@[j] == orig[j],
                forall|j: int| 0 <= j < i ==> -1664 <= #[trigger] self.coeffs@[j] <= 1664,
                forall|j: int|
                    0 <= j < i ==> (#[trigger] self.coeffs@[j] as int) % 3329 == (orig[j] as int)
                        % 3329,
        {
            let c: i16 = self.coeffs[i];
            let res: i32 = if c >= 0 {
                proof {
                    lemma_small_mod_i32(c as int);
                }
                (c as i32) % 3329
            } else {
                proof {
                    lemma_neg_mod(c as int);
                    lemma_small_mod_i32(-(c as int) - 1);
                }
                3328 - ((-(c as i32) - 1) % 3329)
            };
            let w: i16 = center_of_residue(res);
            self.coeffs[i] = w;
        }
        proof {
            assert(final(self).repr() =~= old(self).repr());
        }
    }

    /// Overwrite every coefficient with zero.
    pub fn wipe(&mut self)
        requires
            old(self).coeffs@.len() == 256,
        ensures
            final(self).wf(),
            forall|i: int| 0 <= i < 256 ==> #[trigger] final(self).coeffs@[i] == 0i16,
    {
        for i in 0..256usize
            invariant
                self.coeffs@.len() == 256,
                forall|j: int| 0 <= j < i ==> #[trigger] self.coeffs@[j] == 0i16,
        {
            self.coeffs[i] = 0i16;
        }
    }

    /// Pointwise sum mod q.
    pub fn add(&self, other: &Poly) -> (r: Poly)
        requires
            self.wf(),
            other.wf(),
        ensures
            r.wf(),
            r.repr() == spec_poly_add(self.repr(), other.repr()),
    {
        let mut v: Vec<i16> = Vec::new();
        for i in 0..256usize
            invariant
                self.wf(),
                other.wf(),
                v@.len() == i,
                forall|j: int| 0 <= j < i ==> -1664 <= #[trigger] v@[j] <= 1664,
                forall|j: int|
                    0 <= j < i ==> (#[trigger] v@[j] as int) % 3329 == (self.repr()[j]
                        + other.repr()[j]) % 3329,
        {
            let s: i32 = self.coeffs[i] as i32 + other.coeffs[i] as i32;
            let w: i16 = recenter(s);
            proof {
                lemma_add_residues(self.coeffs@[i as int] as int, other.coeffs@[i as int] as int);
            }
            v.push(w);
        }
        let r = Poly { coeffs: v };
        proof {
            assert(r.repr() =~= spec_poly_add(self.repr(), other.repr()));
        }
        r
    }

    /// Ring equality: whether two elements have the same residues. The XOR
    /// of each residue pair is accumulated and tested once at the end; there
    /// is no early exit on a mismatch.
    pub fn equals(&self, other: &Poly) -> (r: bool)
        requires
            self.wf(),
            other.wf(),
        ensures
            r == (self.repr() == other.repr()),
    {
        let mut acc: u16 = 0;
        for i in 0..256usize
            invariant
                self.wf(),
                other.wf(),
                (acc == 0) <==> (forall|j: int|
                    0 <= j < i ==> #[trigger] self.repr()[j] == other.repr()[j]),
        {
            let ra: u16 = residue(self.coeffs[i]) as u16;
            let rb: u16 = residue(other.coeffs[i]) as u16;
            let d: u16 = ra ^ rb;
            proof {
                assert(ra as int == self.repr()[i as int]);
                assert(rb as int == other.repr()[i as int]);
                lemma_xor16_zero(ra, rb);
                lemma_or16_zero(acc, d);
                assert((d == 0) <==> (self.repr()[i as int] == other.repr()[i as int]));
            }
            acc = acc | d;
        }
        if acc == 0 {
            proof {
                assert(self.repr() =~= other.repr());
            }
            true
        } else {
            false
        }
    }

    /// Pointwise difference mod q.
    pub fn sub(&self, other: &Poly) -> (r: Poly)
        requires
            self.wf(),
            other.wf(),
        ensures
            r.wf(),
            r.repr() == spec_poly_sub(self.repr(), other.repr()),
    {
        let mut v: Vec<i16> = Vec::new();
        for i in 0..256usize
            invariant
                self.wf(),
                other.wf(),
                v@.len() == i,
                forall|j: int| 0 <= j < i ==> -1664 <= #[trigger] v@[j] <= 1664,
                forall|j: int|
                    0 <= j < i ==> (#[trigger] v@[j] as int) % 3329 == (self.repr()[j]
                        - other.repr()[j]) % 3329,
        {
            let s: i32 = self.coeffs[i] as i32 - other.coeffs[i] as i32;
            let w: i16 = recenter(s);
            proof {
                lemma_sub_residues(self.coeffs@[i as int] as int, other.coeffs@[i as int] as int);
            }
            v.push(w);
        }
        let r = Poly { coeffs: v };
        proof {
            assert(r.repr() =~= spec_poly_sub(self.repr(), other.repr()));
        }
        r
    }
}

/// A XOR of two residue words is zero exactly when they are equal.
proof fn lemma_xor16_zero(x: u16, y: u16)
    ensures
        ((x ^ y) == 0) <==> (x == y),
{
    assert(((x ^ y) == 0) <==> (x == y)) by (bit_vector);
}

/// An OR of two words is zero exactly when both are zero.
proof fn lemma_or16_zero(x: u16, y: u16)
    ensures
        ((x | y) == 0) <==> (x == 0 && y == 0),
{
    assert(((x | y) == 0) <==> (x == 0 && y == 0)) by (bit_vector);
}

/// Small values reduce to themselves.
proof fn lemma_small_mod_i32(x: int)
    requires
        0 <= x < 0x8000_0000,
    ensures
        x % 3329 == x - 3329 * (x / 3329),
        0 <= x % 3329 < 3329,
        x < 3329 ==> x % 3329 == x,
{
    vstd::arithmetic::div_mod::lemma_fundamental_div_mod(x, 3329);
    lemma_mod_range(x);
    if x < 3329 {
        lemma_mod_small_signed(x);
    }
}

} // verus!
