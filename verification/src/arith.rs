//! Small arithmetic lemmas shared by the index computations.

use vstd::prelude::*;

verus! {

/// A product grows with each factor: bounding both factors bounds it.
pub proof fn lemma_mul_le_le(a: int, b: int, am: int, bm: int)
    by (nonlinear_arith)
    requires
        0 <= a <= am,
        0 <= b <= bm,
    ensures
        0 <= a * b <= am * bm,
{
}

/// Multiplication distributes over the successor of a factor.
pub proof fn lemma_mul_succ(a: int, b: int)
    by (nonlinear_arith)
    ensures
        a * (b + 1) == a * b + a,
{
}

/// A product of non-negative factors is monotone in the second factor.
pub proof fn lemma_mul_mono(a: int, b: int, c: int)
    by (nonlinear_arith)
    requires
        0 <= a,
        0 <= b <= c,
    ensures
        a * b <= a * c,
{
}

/// A two-sided product bound from two-sided factor bounds.
pub proof fn lemma_mul_abs_le(a: int, b: int, am: int, bm: int)
    by (nonlinear_arith)
    requires
        -am <= a <= am,
        -bm <= b <= bm,
        0 <= am,
        0 <= bm,
    ensures
        -(am * bm) <= a * b <= am * bm,
{
}

} // verus!
