use vstd::prelude::*;

verus! {

pub open spec fn min_int(a: int, b: int) -> int {
    if a <= b { a } else { b }
}

/// The product of two `u64` fits in a `u128`.
pub proof fn lemma_product_fits(a: u64, b: u64)
    ensures
        0 <= (a as int) * (b as int) <= u128::MAX,
{
    assert(0 <= (a as int) * (b as int) <= (u64::MAX as int) * (u64::MAX as int)) by (nonlinear_arith)
        requires
            0 <= a <= u64::MAX,
            0 <= b <= u64::MAX,
    ;
}

/// A percentage of at most a hundred of `a` is at most `a`.
pub proof fn lemma_percent_within(a: int, p: int)
    requires
        0 <= a,
        0 <= p <= 100,
    ensures
        0 <= a * p,
        a * p <= a * 100,
        0 <= a * p / 100 <= a,
{
    assert(0 <= a * p <= a * 100) by (nonlinear_arith)
        requires
            0 <= a,
            0 <= p <= 100,
    ;
    assert(a * p / 100 <= a) by (nonlinear_arith)
        requires
            0 <= a * p <= a * 100,
    ;
}

/// A fraction of at most one of `a` is at most `a`.
pub proof fn lemma_share_of_within(a: int, num: int, den: int)
    requires
        0 <= a,
        0 <= num <= den,
        0 < den,
    ensures
        0 <= a * num / den <= a,
{
    assert(0 <= a * num <= a * den) by (nonlinear_arith)
        requires
            0 <= a,
            0 <= num <= den,
    ;
    assert(a * num / den <= a) by (nonlinear_arith)
        requires
            0 <= a * num <= a * den,
            0 < den,
    ;
}

} // verus!
