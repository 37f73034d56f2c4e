//! The fixed-point scalar that every coordinate and color channel uses.
//!
//! A scalar is an `i64` counting units of `1 / FP_ONE`; `FP_ONE` itself is
//! the number one. All geometry keeps its scalars inside
//! `[-MAX_COORD, MAX_COORD]`, which leaves enough headroom in `i64` (and,
//! for the few places that square distances, in `i128`) for every product
//! the library forms.

use vstd::prelude::*;

verus! {

/// One whole unit: scalars count in units of `1 / FP_ONE`.
pub const FP_ONE: i64 = 4096;

/// The largest magnitude a geometric scalar may have: `4096` whole units.
pub const MAX_COORD: i64 = 16777216;

/// A scalar within the range the geometry works in.
pub open spec fn fp_in_range(x: int) -> bool {
    -MAX_COORD <= x <= MAX_COORD
}

/// Whether a scalar is inside the geometric range, as executable code.
pub fn in_range_i64(x: i64) -> (b: bool)
    ensures
        b == fp_in_range(x as int),
{
    -MAX_COORD <= x && x <= MAX_COORD
}

/// Magnitude of a mathematical integer.
pub open spec fn spec_abs(x: int) -> int {
    if x >= 0 {
        x
    } else {
        -x
    }
}

/// Division truncated toward zero (the division executable code performs),
/// written over the nonnegative Euclidean quotient.
pub open spec fn div_trunc(a: int, b: int) -> int
    recommends
        b > 0,
{
    if a >= 0 {
        a / b
    } else {
        -((-a) / b)
    }
}

/// The fixed-point product of two scalars: `a * b / FP_ONE`, truncated
/// toward zero.
pub open spec fn spec_fp_mul(a: int, b: int) -> int {
    div_trunc(a * b, FP_ONE as int)
}

/// The fixed-point quotient of two scalars: `a * FP_ONE / b`, truncated
/// toward zero.
pub open spec fn spec_fp_div(a: int, b: int) -> int
    recommends
        b != 0,
{
    if b > 0 {
        div_trunc(a * FP_ONE, b as int)
    } else {
        div_trunc(-(a * FP_ONE), -b)
    }
}

/// Fixed-point multiplication.
pub fn fp_mul(a: i64, b: i64) -> (r: i64)
    requires
        spec_abs(a as int) <= 2147483648,
        spec_abs(b as int) <= 2147483648,
    ensures
        r == spec_fp_mul(a as int, b as int),
        spec_abs(r as int) <= spec_abs(a as int) * spec_abs(b as int) / (FP_ONE as int),
{
    let neg: bool = (a < 0) != (b < 0);
    let ma: u64 = if a >= 0 { a as u64 } else { (-a) as u64 };
    let mb: u64 = if b >= 0 { b as u64 } else { (-b) as u64 };
    proof {
        assert(ma * mb <= 2147483648 * 2147483648) by (nonlinear_arith)
            requires
                ma <= 2147483648,
                mb <= 2147483648,
            ;
    }
    let m: u64 = (ma * mb) / 4096;
    proof {
        lemma_mul_abs(a as int, b as int, ma as int, mb as int);
    }
    if neg {
        -(m as i64)
    } else {
        m as i64
    }
}

/// Fixed-point division; the numerator may exceed the geometric range
/// by a factor of the scale.
pub fn fp_div(a: i64, b: i64) -> (r: i64)
    requires
        spec_abs(a as int) <= 1099511627776,
        spec_abs(b as int) <= 1099511627776,
        b != 0,
    ensures
        r == spec_fp_div(a as int, b as int),
{
    let neg: bool = (a < 0) != (b < 0);
    let ma: u64 = if a >= 0 { a as u64 } else { (-a) as u64 };
    let mb: u64 = if b >= 0 { b as u64 } else { (-b) as u64 };
    let m: u64 = (ma * 4096) / mb;
    proof {
        lemma_div_abs(a as int, b as int, ma as int, mb as int);
        assert(m <= 1099511627776 * 4096) by (nonlinear_arith)
            requires
                ma <= 1099511627776,
                mb >= 1,
                m == (ma as int * 4096) / (mb as int),
            ;
    }
    if neg {
        -(m as i64)
    } else {
        m as i64
    }
}

proof fn lemma_mul_abs(a: int, b: int, ma: int, mb: int)
    requires
        ma == spec_abs(a),
        mb == spec_abs(b),
    ensures
        (a < 0) != (b < 0) ==> spec_fp_mul(a, b) == -((ma * mb) / (FP_ONE as int)),
        !((a < 0) != (b < 0)) ==> spec_fp_mul(a, b) == (ma * mb) / (FP_ONE as int),
        (ma * mb) / (FP_ONE as int) <= ma * mb / (FP_ONE as int),
{
    assert(a * b == if (a < 0) != (b < 0) { -(ma * mb) } else { ma * mb }) by (nonlinear_arith)
        requires
            ma == spec_abs(a),
            mb == spec_abs(b),
        ;
}

proof fn lemma_div_abs(a: int, b: int, ma: int, mb: int)
    requires
        ma == spec_abs(a),
        mb == spec_abs(b),
        b != 0,
    ensures
        (a < 0) != (b < 0) ==> spec_fp_div(a, b) == -((ma * (FP_ONE as int)) / mb),
        !((a < 0) != (b < 0)) ==> spec_fp_div(a, b) == (ma * (FP_ONE as int)) / mb,
{
    assert(a * FP_ONE == if a < 0 { -(ma * FP_ONE) } else { ma * FP_ONE }) by (nonlinear_arith)
        requires
            ma == spec_abs(a),
        ;
}

/// Halve a scalar, truncating toward zero.
pub fn half(x: i64) -> (r: i64)
    requires
        x > i64::MIN,
    ensures
        r == div_trunc(x as int, 2),
        spec_abs(r as int) <= spec_abs(x as int),
{
    if x >= 0 {
        x / 2
    } else {
        -((-x) / 2)
    }
}

/// A fixed-point product, rescaled, sits within one scale step of the
/// exact product.
pub proof fn lemma_fp_mul_bounds(a: int, b: int)
    ensures
        -FP_ONE < FP_ONE * spec_fp_mul(a, b) - a * b < FP_ONE,
{
    let p = a * b;
    if p >= 0 {
        vstd::arithmetic::div_mod::lemma_fundamental_div_mod(p, FP_ONE as int);
        vstd::arithmetic::div_mod::lemma_mod_bound(p, FP_ONE as int);
    } else {
        vstd::arithmetic::div_mod::lemma_fundamental_div_mod(-p, FP_ONE as int);
        vstd::arithmetic::div_mod::lemma_mod_bound(-p, FP_ONE as int);
    }
}

/// A fixed-point product with a factor of at most one is no bigger than
/// the other factor.
pub proof fn lemma_fp_mul_le(a: int, b: int)
    requires
        spec_abs(b) <= FP_ONE,
    ensures
        spec_abs(spec_fp_mul(a, b)) <= spec_abs(a),
{
    assert(spec_abs(spec_fp_mul(a, b)) <= spec_abs(a)) by (nonlinear_arith)
        requires
            spec_abs(b) <= FP_ONE,
        ;
}



/// Floor square root of a 128-bit number bounded by the squares the
/// line-circle discriminant can reach.
pub fn isqrt_u128(n: u128) -> (r: u128)
    requires
        n < 324518553658426726783156020576256,
    ensures
        is_sqrt(n as int, r as int),
{
    if n == 0 {
        return 0;
    }
    let mut lo: u128 = 0;
    let mut hi: u128 = 18014398509481984;
    proof {
        assert((hi as int) * (hi as int) > n as int) by (nonlinear_arith)
            requires
                hi == 18014398509481984u128,
                n < 324518553658426726783156020576256,
            ;
    }
    while lo + 1 < hi
        invariant
            lo < hi <= 18014398509481984,
            (lo as int) * (lo as int) <= n as int,
            (hi as int) * (hi as int) > n as int,
        decreases hi - lo,
    {
        let mid: u128 = lo + (hi - lo) / 2;
        proof {
            assert((mid as int) * (mid as int) <= 18014398509481984int * 18014398509481984int)
                by (nonlinear_arith)
                requires
                    0 <= mid <= 18014398509481984u128,
                ;
        }
        if mid * mid <= n {
            lo = mid;
        } else {
            hi = mid;
        }
    }
    lo
}

/// Truncating division of a wide signed value by a positive one.
pub fn div_trunc_i128(a: i128, b: i128) -> (r: i128)
    requires
        spec_abs(a as int) <= 170141183460469231731687303715884105727,
        0 < b <= 170141183460469231731687303715884105727,
    ensures
        r == div_trunc(a as int, b as int),
        spec_abs(r as int) <= spec_abs(a as int),
{
    proof {
        if a >= 0 {
            vstd::arithmetic::div_mod::lemma_div_is_ordered_by_denominator(a as int, 1, b as int);
            vstd::arithmetic::div_mod::lemma_div_basics(a as int);
        } else {
            vstd::arithmetic::div_mod::lemma_div_is_ordered_by_denominator(
                -(a as int),
                1,
                b as int,
            );
            vstd::arithmetic::div_mod::lemma_div_basics(-(a as int));
        }
    }
    if a >= 0 {
        a / b
    } else {
        -((-a) / b)
    }
}

/// The floor square root, as a deterministic spec-level function.
pub open spec fn spec_sqrt(n: int) -> int {
    choose|r: int| is_sqrt(n, r)
}

/// Floor square roots are unique, so the executable search pins
/// `spec_sqrt` down.
pub proof fn lemma_sqrt_is(n: int, r: int)
    requires
        is_sqrt(n, r),
    ensures
        spec_sqrt(n) == r,
{
    assert(is_sqrt(n, r));
    let w = spec_sqrt(n);
    assert(is_sqrt(n, w));
    assert(w == r) by (nonlinear_arith)
        requires
            0 <= w && w * w <= n < (w + 1) * (w + 1),
            0 <= r && r * r <= n < (r + 1) * (r + 1),
        ;
}

/// A square root is bounded by any number whose square bounds the
/// radicand.
pub proof fn lemma_sqrt_bounds(n: int, r: int, b: int)
    requires
        is_sqrt(n, r),
        b >= 0,
    ensures
        n >= b * b ==> r >= b,
        n < b * b ==> r < b,
{
    assert((n >= b * b ==> r >= b) && (n < b * b ==> r < b)) by (nonlinear_arith)
        requires
            0 <= r && r * r <= n < (r + 1) * (r + 1),
            b >= 0,
        ;
}

/// The mathematical floor square root of a natural number.
pub open spec fn is_sqrt(n: int, r: int) -> bool {
    0 <= r && r * r <= n < (r + 1) * (r + 1)
}

/// Floor square root by binary search.
pub fn isqrt_u64(n: u64) -> (r: u64)
    ensures
        is_sqrt(n as int, r as int),
{
    if n == 0 {
        return 0;
    }
    let mut lo: u64 = 0;
    let mut hi: u64 = 4294967296;
    proof {
        assert((hi as int) * (hi as int) > n as int) by (nonlinear_arith)
            requires
                hi == 4294967296u64,
                n <= u64::MAX,
            ;
    }
    while lo + 1 < hi
        invariant
            lo < hi <= 4294967296,
            (lo as int) * (lo as int) <= n as int,
            (hi as int) * (hi as int) > n as int,
        decreases hi - lo,
    {
        let mid: u64 = lo + (hi - lo) / 2;
        proof {
            assert((mid as int) * (mid as int) <= 4294967296int * 4294967296int)
                by (nonlinear_arith)
                requires
                    0 <= mid <= 4294967296u64,
                ;
        }
        if (mid as u128) * (mid as u128) <= n as u128 {
            lo = mid;
        } else {
            hi = mid;
        }
    }
    lo
}

} // verus!
