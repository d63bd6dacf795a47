//! Fixed-point arithmetic.
//!
//! Intensities, gains and wavelengths are stored as `i64` counts of
//! millionths: the stored number `n` stands for the quantity `n / ONE`.
//! Products and quotients round toward zero and saturate at the ends of the
//! `i64` range instead of wrapping. The low-pass filter keeps its coefficients
//! and its memory in millionths of a millionth, as a filter with a low cutoff
//! lives on differences that millionths cannot hold.

use vstd::prelude::*;

verus! {

/// The stored number that stands for the quantity one.
pub const ONE: i64 = 1_000_000;

/// The stored number that stands for the quantity one where a finer grain is
/// kept: in the coefficients of the low-pass filter and in what the filter
/// remembers between samples.
pub const FINE: i64 = 1_000_000_000_000;

/// `x` brought into the `i64` range: values beyond an end become that end.
pub open spec fn saturate(x: int) -> int {
    if x < i64::MIN as int {
        i64::MIN as int
    } else if x > i64::MAX as int {
        i64::MAX as int
    } else {
        x
    }
}

/// The quotient of `a` by a non-zero `b`, rounded toward zero.
pub open spec fn trunc_div(a: int, b: int) -> int {
    if a >= 0 && b > 0 {
        a / b
    } else if a < 0 && b > 0 {
        -((-a) / b)
    } else if a >= 0 {
        -(a / (-b))
    } else {
        (-a) / (-b)
    }
}

/// The fixed-point product of two stored numbers.
pub open spec fn product(a: int, b: int) -> int {
    saturate(trunc_div(a * b, 1_000_000))
}

/// The fixed-point quotient of two stored numbers. Dividing by zero gives the
/// end of the range on the side of the dividend's sign, and zero for zero.
pub open spec fn quotient(a: int, b: int) -> int {
    if b == 0 {
        if a > 0 {
            i64::MAX as int
        } else if a < 0 {
            i64::MIN as int
        } else {
            0
        }
    } else {
        saturate(trunc_div(a * 1_000_000, b))
    }
}

/// Rounding toward zero never moves a quotient away from zero, and keeps it
/// within one of the exact value: `b * q` lies between `a - |b|` and `a + |b|`.
pub proof fn lemma_trunc_div_bounds(a: int, b: int)
    requires
        b > 0,
    ensures
        a >= 0 ==> 0 <= trunc_div(a, b) * b <= a < trunc_div(a, b) * b + b,
        a <= 0 ==> a <= trunc_div(a, b) * b <= 0 && trunc_div(a, b) * b - b < a,
{
    if a >= 0 {
        assert(0 <= (a / b) * b <= a < (a / b) * b + b) by (nonlinear_arith)
            requires
                a >= 0,
                b > 0,
        ;
    } else {
        let m = -a;
        assert(0 <= (m / b) * b <= m < (m / b) * b + b) by (nonlinear_arith)
            requires
                m >= 0,
                b > 0,
        ;
        assert((-(m / b)) * b == -((m / b) * b)) by (nonlinear_arith);
    }
}

/// A quotient is never larger in magnitude than its dividend.
pub proof fn lemma_trunc_div_magnitude(a: int, b: int)
    requires
        b > 0,
    ensures
        a >= 0 ==> 0 <= trunc_div(a, b) <= a,
        a <= 0 ==> a <= trunc_div(a, b) <= 0,
{
    if a >= 0 {
        assert(0 <= a / b <= a) by (nonlinear_arith)
            requires
                a >= 0,
                b > 0,
        ;
    } else {
        let m = -a;
        assert(0 <= m / b <= m) by (nonlinear_arith)
            requires
                m >= 0,
                b > 0,
        ;
    }
}

/// Where the divisor divides the dividend, nothing is rounded away.
pub proof fn lemma_trunc_div_exact(a: int, b: int)
    requires
        b > 0,
        a % b == 0,
    ensures
        trunc_div(a, b) * b == a,
{
    if a >= 0 {
        assert((a / b) * b == a) by (nonlinear_arith)
            requires
                b > 0,
                a % b == 0,
        ;
    } else {
        let m = -a;
        let q = a / b;
        vstd::arithmetic::div_mod::lemma_fundamental_div_mod(a, b);
        assert(m == (-q) * b) by (nonlinear_arith)
            requires
                a == b * q,
                m == -a,
        ;
        vstd::arithmetic::div_mod::lemma_mod_multiples_basic(-q, b);
        assert((m / b) * b == m) by (nonlinear_arith)
            requires
                b > 0,
                m % b == 0,
        ;
        assert((-(m / b)) * b == -((m / b) * b)) by (nonlinear_arith);
    }
}

/// Brings a wide value into the `i64` range.
pub fn saturate_i128(x: i128) -> (r: i64)
    ensures
        r == saturate(x as int),
{
    if x < i64::MIN as i128 {
        i64::MIN
    } else if x > i64::MAX as i128 {
        i64::MAX
    } else {
        x as i64
    }
}

/// Divides rounding toward zero.
pub fn div_toward_zero(a: i128, b: i128) -> (q: i128)
    requires
        b != 0,
        a > i128::MIN,
        b > i128::MIN,
    ensures
        q == trunc_div(a as int, b as int),
{
    if a >= 0 && b > 0 {
        a / b
    } else if a < 0 && b > 0 {
        -((-a) / b)
    } else if a >= 0 {
        -(a / (-b))
    } else {
        (-a) / (-b)
    }
}

/// The fixed-point product `a * b / ONE`.
pub fn mul_fixed(a: i64, b: i64) -> (r: i64)
    ensures
        r == product(a as int, b as int),
{
    assert(-0x4000_0000_0000_0000_0000_0000_0000_0000 <= (a as int) * (b as int)
        <= 0x4000_0000_0000_0000_0000_0000_0000_0000) by (nonlinear_arith)
        requires
            -0x8000_0000_0000_0000 <= a as int <= 0x7fff_ffff_ffff_ffff,
            -0x8000_0000_0000_0000 <= b as int <= 0x7fff_ffff_ffff_ffff,
    ;
    let wide: i128 = (a as i128) * (b as i128);
    saturate_i128(div_toward_zero(wide, ONE as i128))
}

/// The fixed-point quotient `a * 1_000_000 / b`.
pub fn div_fixed(a: i64, b: i64) -> (r: i64)
    ensures
        r == quotient(a as int, b as int),
{
    if b == 0 {
        if a > 0 {
            i64::MAX
        } else if a < 0 {
            i64::MIN
        } else {
            0
        }
    } else {
        let wide: i128 = (a as i128) * 1_000_000;
        saturate_i128(div_toward_zero(wide, b as i128))
    }
}

} // verus!
