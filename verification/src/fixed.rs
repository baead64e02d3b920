//! Scalars: signed 16.16 fixed-point numbers held in an `i32`.
//!
//! A raw value `r` stands for the number `r / SCALE`. Every operation computes
//! its exact result in wider integers, rounds once toward zero, and saturates
//! at the ends of the `i32` range.

use vstd::prelude::*;

verus! {

/// The raw value of the number one.
pub const SCALE: i32 = 65536;

/// The raw value of one half.
pub const HALF: i32 = 32768;

/// The raw value of minus one half.
pub const MINUS_HALF: i32 = -32768;

/// The raw value of minus one.
pub const MINUS_ONE: i32 = -65536;

/// The nearest value to `v` that an `i32` can hold.
pub open spec fn sat(v: int) -> i32 {
    if v < i32::MIN as int {
        i32::MIN
    } else if v > i32::MAX as int {
        i32::MAX
    } else {
        v as i32
    }
}

/// Whether `v` is held by an `i32` without saturating.
pub open spec fn fits(v: int) -> bool {
    i32::MIN as int <= v <= i32::MAX as int
}

/// The quotient of `a` by `b`, rounded toward zero. Meaningful for `b != 0`.
pub open spec fn trunc_div(a: int, b: int) -> int {
    if a >= 0 {
        a / b
    } else {
        -((-a) / b)
    }
}

/// The absolute value of `v`.
pub open spec fn magnitude(v: int) -> int {
    if v < 0 {
        -v
    } else {
        v
    }
}

/// The product of two scalars.
pub open spec fn mul_spec(a: int, b: int) -> i32 {
    sat(trunc_div(a * b, SCALE as int))
}

/// The quotient of two scalars. Meaningful for `b != 0`.
pub open spec fn div_spec(a: int, b: int) -> i32 {
    sat(trunc_div(a * SCALE, b))
}

/// Whether `r` is the integer square root of `n`: the largest `r` with
/// `r * r <= n`.
pub open spec fn is_sqrt(n: int, r: int) -> bool {
    &&& 0 <= r
    &&& r * r <= n
    &&& n < (r + 1) * (r + 1)
}

/// The integer square root of `n`. Meaningful for `n >= 0`.
pub open spec fn sqrt_floor(n: int) -> int {
    choose|r: int| is_sqrt(n, r)
}

/// A number has at most one integer square root.
pub proof fn lemma_sqrt_unique(n: int, r1: int, r2: int)
    requires
        is_sqrt(n, r1),
        is_sqrt(n, r2),
    ensures
        r1 == r2,
{
    if r1 < r2 {
        assert((r1 + 1) * (r1 + 1) <= r2 * r2) by (nonlinear_arith)
            requires
                0 <= r1,
                r1 + 1 <= r2,
        ;
    } else if r2 < r1 {
        assert((r2 + 1) * (r2 + 1) <= r1 * r1) by (nonlinear_arith)
            requires
                0 <= r2,
                r2 + 1 <= r1,
        ;
    }
}

/// Any witness of `is_sqrt` is the integer square root.
pub proof fn lemma_sqrt_floor(n: int, r: int)
    requires
        is_sqrt(n, r),
    ensures
        sqrt_floor(n) == r,
{
    lemma_sqrt_unique(n, r, sqrt_floor(n));
}

/// Every number from zero on has an integer square root.
pub proof fn lemma_sqrt_exists(n: int)
    requires
        n >= 0,
    ensures
        is_sqrt(n, sqrt_floor(n)),
    decreases n,
{
    if n == 0 {
        assert(is_sqrt(0, 0)) by (nonlinear_arith);
    } else {
        lemma_sqrt_exists(n - 1);
        let r = sqrt_floor(n - 1);
        if n < (r + 1) * (r + 1) {
            assert(is_sqrt(n, r));
        } else {
            assert((r + 2) * (r + 2) > (r + 1) * (r + 1)) by (nonlinear_arith)
                requires
                    r >= 0,
            ;
            assert(is_sqrt(n, r + 1));
        }
    }
}

/// The integer square root grows with the number: a number that is at least
/// the square of `r` has a root of at least `r`, and one that is less than
/// the square of `r + 1` a root of at most `r`.
pub proof fn lemma_sqrt_between(n: int, r: int)
    requires
        n >= 0,
        r >= 0,
    ensures
        r * r <= n ==> sqrt_floor(n) >= r,
        n < (r + 1) * (r + 1) ==> sqrt_floor(n) <= r,
{
    lemma_sqrt_exists(n);
    let s = sqrt_floor(n);
    if r * r <= n && s < r {
        assert((s + 1) * (s + 1) <= r * r) by (nonlinear_arith)
            requires
                0 <= s,
                s + 1 <= r,
        ;
    }
    if n < (r + 1) * (r + 1) && s > r {
        assert((r + 1) * (r + 1) <= s * s) by (nonlinear_arith)
            requires
                0 <= r,
                r + 1 <= s,
        ;
    }
}

/// A quotient rounded toward zero is no larger in magnitude than the dividend
/// and never has the opposite sign of the exact quotient.
pub proof fn lemma_trunc_div_bounds(a: int, b: int)
    requires
        b != 0,
    ensures
        magnitude(trunc_div(a, b)) <= magnitude(a),
        (a >= 0 && b > 0) || (a <= 0 && b < 0) ==> trunc_div(a, b) >= 0,
        (a >= 0 && b < 0) || (a <= 0 && b > 0) ==> trunc_div(a, b) <= 0,
        a == 0 ==> trunc_div(a, b) == 0,
{
    let m: int = magnitude(a);
    assert(magnitude(m / b) <= m && (b > 0 ==> m / b >= 0) && (b < 0 ==> m / b <= 0)
        && (m == 0 ==> m / b == 0)) by (nonlinear_arith)
        requires
            m >= 0,
            b != 0,
    ;
}

/// What rounding toward zero leaves out is smaller in magnitude than the
/// divisor.
pub proof fn lemma_trunc_div_remainder(a: int, d: int)
    requires
        d != 0,
    ensures
        magnitude(a - d * trunc_div(a, d)) < magnitude(d),
{
    let m: int = magnitude(a);
    let q: int = m / d;
    assert(0 <= m - d * q < magnitude(d)) by (nonlinear_arith)
        requires
            d != 0,
            q == m / d,
    ;
    if a < 0 {
        assert(d * (-q) == -(d * q)) by (nonlinear_arith);
    }
}

/// Dividing a multiple of `d` by `d` gives the other factor back exactly.
pub proof fn lemma_trunc_div_exact(n: int, d: int)
    requires
        d != 0,
    ensures
        trunc_div(n * d, d) == n,
        trunc_div(d * n, d) == n,
{
    assert(n * d == d * n) by (nonlinear_arith);
    if n * d >= 0 {
        assert((n * d) / d == n) by (nonlinear_arith)
            requires
                d != 0,
        ;
    } else {
        assert(-(n * d) == (-n) * d) by (nonlinear_arith);
        assert(((-n) * d) / d == -n) by (nonlinear_arith)
            requires
                d != 0,
        ;
    }
}

/// Scaling `k` by a fraction `n / d` that lies between zero and one gives a
/// value between zero and `k`.
pub proof fn lemma_trunc_div_fraction(k: int, n: int, d: int)
    requires
        d != 0,
        (0 <= n <= d) || (d <= n <= 0),
    ensures
        k >= 0 ==> 0 <= trunc_div(k * n, d) <= k,
        k <= 0 ==> k <= trunc_div(k * n, d) <= 0,
{
    let an: int = magnitude(n);
    let ad: int = magnitude(d);
    let ak: int = magnitude(k);
    assert(0 <= (ak * an) / ad <= ak) by (nonlinear_arith)
        requires
            0 <= an <= ad,
            ad > 0,
            ak >= 0,
    ;
    // the dividend has the sign of k * (n / d), and magnitude ak * an
    assert(magnitude(k * n) == ak * an) by (nonlinear_arith)
        requires
            an == magnitude(n),
            ak == magnitude(k),
    ;
    let p: int = k * n;
    assert((k >= 0 && n >= 0) || (k <= 0 && n <= 0) ==> p >= 0) by (nonlinear_arith)
        requires
            p == k * n,
    ;
    assert((k >= 0 && n <= 0) || (k <= 0 && n >= 0) ==> p <= 0) by (nonlinear_arith)
        requires
            p == k * n,
    ;
    let m: int = ak * an;
    if d > 0 {
        assert(trunc_div(p, d) == if p >= 0 { m / ad } else { -(m / ad) });
    } else {
        assert(m / d == -(m / ad)) by (nonlinear_arith)
            requires
                m >= 0,
                d < 0,
                ad == -d,
        ;
        assert(trunc_div(p, d) == if p >= 0 { -(m / ad) } else { m / ad });
    }
}

/// The magnitude of a product is bounded by the product of bounds on its factors.
pub proof fn lemma_mul_bounds(a: int, b: int, bound_a: int, bound_b: int)
    by (nonlinear_arith)
    requires
        -bound_a <= a <= bound_a,
        -bound_b <= b <= bound_b,
    ensures
        -(bound_a * bound_b) <= a * b <= bound_a * bound_b,
{
}

/// Multiplies two values of up to 34 bits each into a wide product.
pub fn wide_mul(a: i64, b: i64) -> (p: i128)
    requires
        -0x2_0000_0000 <= a <= 0x2_0000_0000,
        -0x2_0000_0000 <= b <= 0x2_0000_0000,
    ensures
        p as int == a as int * b as int,
        -0x4_0000_0000_0000_0000 <= p <= 0x4_0000_0000_0000_0000,
{
    proof {
        lemma_mul_bounds(a as int, b as int, 0x2_0000_0000, 0x2_0000_0000);
    }
    (a as i128) * (b as i128)
}

/// Narrows `v` to an `i32`, saturating at the ends of the range.
pub fn saturate(v: i128) -> (r: i32)
    ensures
        r == sat(v as int),
{
    if v < -2147483648 {
        -2147483648
    } else if v > 2147483647 {
        2147483647
    } else {
        v as i32
    }
}

/// Divides `a` by `b`, rounding toward zero.
pub fn quotient(a: i128, b: i128) -> (q: i128)
    requires
        b != 0,
        a > i128::MIN,
    ensures
        q as int == trunc_div(a as int, b as int),
{
    proof {
        lemma_trunc_div_bounds(a as int, b as int);
    }
    a / b
}

/// Multiplies two scalars.
pub fn fixed_mul(a: i32, b: i32) -> (r: i32)
    ensures
        r == mul_spec(a as int, b as int),
{
    saturate(quotient(wide_mul(a as i64, b as i64), SCALE as i128))
}

/// Divides the scalar `a` by the scalar `b`.
pub fn fixed_div(a: i32, b: i32) -> (r: i32)
    requires
        b != 0,
    ensures
        r == div_spec(a as int, b as int),
{
    saturate(quotient(wide_mul(a as i64, SCALE as i64), b as i128))
}

/// Computes the integer square root of `n`.
pub fn isqrt(n: u128) -> (r: u64)
    ensures
        r as int == sqrt_floor(n as int),
        is_sqrt(n as int, r as int),
{
    let mut lo: u128 = 0;
    let mut hi: u128 = 0x1_0000_0000_0000_0000;
    assert(0x1_0000_0000_0000_0000int * 0x1_0000_0000_0000_0000int
        == 0x1_0000_0000_0000_0000_0000_0000_0000_0000int) by (nonlinear_arith);
    while hi - lo > 1
        invariant
            lo < hi <= 0x1_0000_0000_0000_0000,
            lo * lo <= n,
            n < hi * hi,
        decreases hi - lo,
    {
        let mid: u128 = lo + (hi - lo) / 2;
        assert(mid * mid <= 0xffff_ffff_ffff_ffff * 0xffff_ffff_ffff_ffff) by (nonlinear_arith)
            requires
                0 <= mid <= 0xffff_ffff_ffff_ffff,
        ;
        assert(0xffff_ffff_ffff_ffffint * 0xffff_ffff_ffff_ffffint
            < 0x1_0000_0000_0000_0000_0000_0000_0000_0000int) by (nonlinear_arith);
        if mid * mid <= n {
            lo = mid;
        } else {
            hi = mid;
        }
    }
    proof {
        lemma_sqrt_floor(n as int, lo as int);
    }
    lo as u64
}

} // verus!
