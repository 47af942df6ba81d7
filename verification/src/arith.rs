//! Facts about products and quotients that the address arithmetic rests on.
use vstd::prelude::*;

verus! {

/// One more factor adds one more summand.
pub(crate) proof fn lemma_mul_step(i: int, w: int)
    ensures
        (i + 1) * w == i * w + w,
        (i - 1) * w == i * w - w,
{
    assert((i + 1) * w == i * w + w) by (nonlinear_arith);
    assert((i - 1) * w == i * w - w) by (nonlinear_arith);
}

/// A product of non-negative numbers grows with its first factor.
pub(crate) proof fn lemma_mul_le(i: int, n: int, w: int)
    requires
        0 <= i <= n,
        0 <= w,
    ensures
        0 <= i * w <= n * w,
{
    assert(0 <= i * w <= n * w) by (nonlinear_arith)
        requires
            0 <= i <= n,
            0 <= w,
    ;
}

/// With a positive second factor, a strictly larger first factor gives a
/// product that is larger by at least that factor.
pub(crate) proof fn lemma_mul_lt(i: int, n: int, w: int)
    requires
        0 <= i < n,
        0 < w,
    ensures
        i * w + w <= n * w,
{
    assert(i * w + w <= n * w) by (nonlinear_arith)
        requires
            0 <= i < n,
            0 < w,
    ;
}

/// A multiple of `w` divides by `w` without remainder.
pub(crate) proof fn lemma_multiple(i: int, w: int)
    requires
        0 <= i,
        0 < w,
    ensures
        (i * w) / w == i,
        (i * w) % w == 0,
{
    vstd::arithmetic::div_mod::lemma_div_by_multiple(i, w);
    vstd::arithmetic::div_mod::lemma_fundamental_div_mod(i * w, w);
    assert(w * i == i * w) by (nonlinear_arith);
}

/// What divides by `w` without remainder is its quotient times `w`.
pub(crate) proof fn lemma_exact(x: int, w: int)
    requires
        0 <= x,
        0 < w,
        x % w == 0,
    ensures
        x == (x / w) * w,
        0 <= x / w,
{
    vstd::arithmetic::div_mod::lemma_fundamental_div_mod(x, w);
    assert(w * (x / w) == (x / w) * w) by (nonlinear_arith);
    assert(0 <= x / w) by (nonlinear_arith)
        requires
            0 <= x,
            0 < w,
    ;
}

/// Adding a multiple of `m` to a multiple of `m` gives a multiple of `m`.
pub(crate) proof fn lemma_aligned_slot(base: int, i: int, w: int, m: int)
    requires
        0 < m,
        0 <= i,
        0 <= w,
        0 <= base,
        base % m == 0,
        w % m == 0,
    ensures
        (base + i * w) % m == 0,
{
    lemma_exact(base, m);
    lemma_exact(w, m);
    let b = base / m;
    let q = w / m;
    assert(base + i * w == (b + i * q) * m) by (nonlinear_arith)
        requires
            base == b * m,
            w == q * m,
    ;
    assert(0 <= b + i * q) by (nonlinear_arith)
        requires
            0 <= b,
            0 <= i,
            0 <= q,
    ;
    lemma_multiple(b + i * q, m);
}

} // verus!
