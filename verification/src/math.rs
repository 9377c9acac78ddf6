//! Integer square roots and the small arithmetic helpers the simulation's
//! contracts are stated over.

use vstd::prelude::*;

verus! {

/// `r` is the floor of the square root of `n`.
pub open spec fn is_sqrt_floor(n: int, r: int) -> bool {
    0 <= r && r * r <= n && n < (r + 1) * (r + 1)
}

/// The floor of the square root of a nonnegative integer.
pub open spec fn sqrt_floor(n: int) -> int {
    choose|r: int| is_sqrt_floor(n, r)
}

/// The magnitude of an integer.
pub open spec fn mag(v: int) -> int {
    if v < 0 {
        -v
    } else {
        v
    }
}

/// Division truncating toward zero (for a positive divisor), as Rust's
/// integer `/` behaves on signed operands.
pub open spec fn div_trunc(a: int, b: int) -> int {
    if a >= 0 {
        a / b
    } else {
        -((-a) / b)
    }
}

/// The nearest value to `x` that an `i64` can hold.
pub open spec fn clamp_i64(x: int) -> int {
    if x < i64::MIN as int {
        i64::MIN as int
    } else if x > i64::MAX as int {
        i64::MAX as int
    } else {
        x
    }
}

/// At most one integer is the floor of the square root of `n`.
pub proof fn lemma_sqrt_floor_unique(n: int, r1: int, r2: int)
    requires
        is_sqrt_floor(n, r1),
        is_sqrt_floor(n, r2),
    ensures
        r1 == r2,
{
    if r1 < r2 {
        assert((r1 + 1) * (r1 + 1) <= r2 * r2) by (nonlinear_arith)
            requires
                0 <= r1,
                r1 < r2,
        ;
    }
    if r2 < r1 {
        assert((r2 + 1) * (r2 + 1) <= r1 * r1) by (nonlinear_arith)
            requires
                0 <= r2,
                r2 < r1,
        ;
    }
}

/// Every nonnegative integer has a square-root floor.
pub proof fn lemma_sqrt_floor_exists(n: int)
    requires
        n >= 0,
    ensures
        is_sqrt_floor(n, sqrt_floor(n)),
    decreases n,
{
    if n == 0 {
        assert(is_sqrt_floor(0, 0));
    } else {
        lemma_sqrt_floor_exists(n - 1);
        let r = sqrt_floor(n - 1);
        if (r + 1) * (r + 1) <= n {
            assert((r + 1) + 1 >= 1);
            assert((r + 2) * (r + 2) > (r + 1) * (r + 1)) by (nonlinear_arith)
                requires
                    r >= 0,
            ;
            assert(is_sqrt_floor(n, r + 1));
        } else {
            assert(is_sqrt_floor(n, r));
        }
    }
    let w = choose|r: int| is_sqrt_floor(n, r);
    assert(is_sqrt_floor(n, w));
}

/// Whatever satisfies `is_sqrt_floor` is `sqrt_floor` itself.
pub proof fn lemma_sqrt_floor_is(n: int, r: int)
    requires
        is_sqrt_floor(n, r),
    ensures
        sqrt_floor(n) == r,
{
    assert(n >= 0) by (nonlinear_arith)
        requires
            0 <= r,
            r * r <= n,
    ;
    lemma_sqrt_floor_exists(n);
    lemma_sqrt_floor_unique(n, sqrt_floor(n), r);
}

/// The square-root floor never decreases when its argument grows.
pub proof fn lemma_sqrt_floor_monotone(m: int, n: int)
    requires
        0 <= m <= n,
    ensures
        sqrt_floor(m) <= sqrt_floor(n),
{
    lemma_sqrt_floor_exists(m);
    lemma_sqrt_floor_exists(n);
    let a = sqrt_floor(m);
    let b = sqrt_floor(n);
    if a > b {
        assert((b + 1) * (b + 1) <= a * a) by (nonlinear_arith)
            requires
                0 <= b,
                b < a,
        ;
    }
}

/// Scaling a nonnegative integer by a fraction of at most one never
/// increases it: `a * b / d <= a` when `0 <= b <= d`.
pub proof fn lemma_scaled_div_le(a: int, b: int, d: int)
    requires
        a >= 0,
        0 <= b <= d,
        1 <= d,
    ensures
        a * b / d <= a,
{
    assert(a * b <= d * a) by (nonlinear_arith)
        requires
            a >= 0,
            0 <= b <= d,
    ;
    vstd::arithmetic::div_mod::lemma_div_is_ordered(a * b, d * a, d);
    vstd::arithmetic::div_mod::lemma_div_multiples_vanish(a, d);
}

/// The magnitude of an `i64`, as the `u64` it always fits in.
pub fn mag64(v: i64) -> (m: u64)
    ensures
        m as int == mag(v as int),
{
    if v < 0 {
        (-(v as i128)) as u64
    } else {
        v as u64
    }
}

/// The floor of the square root of `n`, by binary search.
pub fn isqrt(n: u128) -> (r: u64)
    ensures
        is_sqrt_floor(n as int, r as int),
        r as int == sqrt_floor(n as int),
{
    let mut lo: u128 = 0;
    let mut hi: u128 = 0x1_0000_0000_0000_0000u128;
    while lo + 1 < hi
        invariant
            0 <= lo < hi,
            hi <= 0x1_0000_0000_0000_0000u128,
            (lo as int) * (lo as int) <= n as int,
            (n as int) < (hi as int) * (hi as int),
        decreases hi - lo,
    {
        let mid: u128 = lo + (hi - lo) / 2;
        assert(lo < mid < hi);
        assert((mid as int) * (mid as int) < (0x1_0000_0000_0000_0000 as int)
            * (0x1_0000_0000_0000_0000 as int)) by (nonlinear_arith)
            requires
                0 <= mid < 0x1_0000_0000_0000_0000 as int,
        ;
        if mid * mid <= n {
            lo = mid;
        } else {
            hi = mid;
        }
    }
    assert(hi == lo + 1);
    assert(is_sqrt_floor(n as int, lo as int));
    proof {
        lemma_sqrt_floor_is(n as int, lo as int);
    }
    lo as u64
}

} // verus!
