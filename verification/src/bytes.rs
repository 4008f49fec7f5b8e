//! Small verified byte-buffer helpers, including the constant-time,
//! non-short-circuiting comparison used by decapsulation.

use vstd::prelude::*;

verus! {

/// Append a whole slice to a byte vector.
pub fn push_all(dst: &mut Vec<u8>, src: &[u8])
    ensures
        final(dst)@ == old(dst)@ + src@,
{
    let ghost orig = dst@;
    for i in 0..src.len()
        invariant
            dst@.len() == orig.len() + i,
            forall|j: int| 0 <= j < orig.len() ==> #[trigger] dst@[j] == orig[j],
            forall|j: int|
                orig.len() <= j < dst@.len() ==> #[trigger] dst@[j] == src@[j - orig.len()],
    {
        dst.push(src[i]);
    }
    proof {
        assert(dst@ =~= orig + src@);
    }
}

/// Copy a subrange of a slice into a fresh vector.
pub fn copy_range(src: &[u8], start: usize, end: usize) -> (r: Vec<u8>)
    requires
        start <= end <= src@.len(),
    ensures
        r@ == src@.subrange(start as int, end as int),
{
    let mut out: Vec<u8> = Vec::new();
    for i in start..end
        invariant
            start <= end <= src@.len(),
            out@.len() == i - start,
            forall|j: int| 0 <= j < i - start ==> #[trigger] out@[j] == src@[start + j],
    {
        out.push(src[i]);
    }
    proof {
        assert(out@ =~= src@.subrange(start as int, end as int));
    }
    out
}

/// A XOR of two bytes is zero exactly when they are equal.
proof fn lemma_xor_zero(x: u8, y: u8)
    ensures
        ((x ^ y) == 0) <==> (x == y),
{
    assert(((x ^ y) == 0) <==> (x == y)) by (bit_vector);
}

/// An OR of two bytes is zero exactly when both are zero.
proof fn lemma_or_zero(x: u8, y: u8)
    ensures
        ((x | y) == 0) <==> (x == 0 && y == 0),
{
    assert(((x | y) == 0) <==> (x == 0 && y == 0)) by (bit_vector);
}

/// Constant-time byte comparison: the XOR of every byte pair is accumulated
/// and the accumulator is tested once at the end. There is no early return on
/// a mismatch, so the time taken does not depend on where the inputs differ.
pub fn ct_eq(a: &[u8], b: &[u8]) -> (r: bool)
    ensures
        r == (a@ == b@),
{
    if a.len() != b.len() {
        proof {
            assert(a@.len() != b@.len());
        }
        return false;
    }
    let mut acc: u8 = 0;
    for i in 0..a.len()
        invariant
            a@.len() == b@.len(),
            (acc == 0) <==> (forall|j: int| 0 <= j < i ==> a@[j] == b@[j]),
    {
        let d: u8 = a[i] ^ b[i];
        proof {
            lemma_xor_zero(a@[i as int], b@[i as int]);
            lemma_or_zero(acc, d);
        }
        acc = acc | d;
    }
    if acc == 0 {
        proof {
            assert(a@ =~= b@);
        }
        true
    } else {
        proof {
            assert(a@ != b@);
        }
        false
    }
}

} // verus!
