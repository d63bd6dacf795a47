//! The companding curves that are undone on raw samples, in fixed point.
//!
//! Each curve is a straight line near zero and a power with a fractional
//! exponent above it: twelve fifths for sRGB, twenty ninths for Rec. 601 and
//! Rec. 709. The powers are taken with whole-number roots, each rounded down.

use crate::config::Linearize;
use crate::fixed::ONE;
use vstd::prelude::*;

verus! {

/// The third power.
pub open spec fn cube(r: int) -> int {
    r * r * r
}

/// The fifth power.
pub open spec fn fifth(r: int) -> int {
    r * r * r * r * r
}

/// `r` is the cube root of `x`, rounded down.
pub open spec fn is_cube_root(r: int, x: int) -> bool {
    0 <= r && cube(r) <= x < cube(r + 1)
}

/// `r` is the fifth root of `x`, rounded down.
pub open spec fn is_fifth_root(r: int, x: int) -> bool {
    0 <= r && fifth(r) <= x < fifth(r + 1)
}

/// The cube root of `x`, rounded down.
pub open spec fn cube_root(x: int) -> int {
    choose|r: int| is_cube_root(r, x)
}

/// The fifth root of `x`, rounded down.
pub open spec fn fifth_root(x: int) -> int {
    choose|r: int| is_fifth_root(r, x)
}

/// A product of two factors grows with each of them.
pub proof fn lemma_mul_ordered(a: int, b: int, c: int, d: int)
    requires
        0 <= a <= b,
        0 <= c <= d,
    ensures
        0 <= a * c <= b * d,
{
    assert(0 <= a * c <= b * d) by (nonlinear_arith)
        requires
            0 <= a <= b,
            0 <= c <= d,
    ;
}

/// Third powers grow with their base.
pub proof fn lemma_cube_ordered(a: int, b: int)
    requires
        0 <= a <= b,
    ensures
        0 <= cube(a) <= cube(b),
{
    lemma_mul_ordered(a, b, a, b);
    lemma_mul_ordered(a * a, b * b, a, b);
}

/// Fifth powers grow with their base.
pub proof fn lemma_fifth_ordered(a: int, b: int)
    requires
        0 <= a <= b,
    ensures
        0 <= fifth(a) <= fifth(b),
{
    lemma_mul_ordered(a, b, a, b);
    lemma_mul_ordered(a * a, b * b, a, b);
    lemma_mul_ordered(a * a * a, b * b * b, a, b);
    lemma_mul_ordered(a * a * a * a, b * b * b * b, a, b);
}

/// A number has one cube root rounded down.
pub proof fn lemma_cube_root_unique(r: int, x: int)
    requires
        is_cube_root(r, x),
    ensures
        cube_root(x) == r,
{
    let s = cube_root(x);
    assert(is_cube_root(s, x));
    if s < r {
        lemma_cube_ordered(s + 1, r);
    } else if r < s {
        lemma_cube_ordered(r + 1, s);
    }
}

/// A number has one fifth root rounded down.
pub proof fn lemma_fifth_root_unique(r: int, x: int)
    requires
        is_fifth_root(r, x),
    ensures
        fifth_root(x) == r,
{
    let s = fifth_root(x);
    assert(is_fifth_root(s, x));
    if s < r {
        lemma_fifth_ordered(s + 1, r);
    } else if r < s {
        lemma_fifth_ordered(r + 1, s);
    }
}

/// The third power of a number up to a million and one.
fn cube_of(r: u128) -> (p: u128)
    requires
        r <= 1_000_001,
    ensures
        p == cube(r as int),
{
    proof {
        lemma_mul_ordered(r as int, 1_000_001, r as int, 1_000_001);
        lemma_mul_ordered(r * r, 1_000_001int * 1_000_001, r as int, 1_000_001);
    }
    r * r * r
}

/// The fifth power of a number up to a million and one.
fn fifth_of(r: u128) -> (p: u128)
    requires
        r <= 1_000_001,
    ensures
        p == fifth(r as int),
{
    proof {
        lemma_mul_ordered(r as int, 1_000_001, r as int, 1_000_001);
        lemma_mul_ordered(r * r, 1_000_001int * 1_000_001, r as int, 1_000_001);
        lemma_mul_ordered(
            r * r * r,
            1_000_001int * 1_000_001 * 1_000_001,
            r as int,
            1_000_001,
        );
        lemma_mul_ordered(
            r * r * r * r,
            1_000_001int * 1_000_001 * 1_000_001 * 1_000_001,
            r as int,
            1_000_001,
        );
    }
    r * r * r * r * r
}

/// The cube root, rounded down, of a number up to the third power of a
/// million.
pub fn cube_root_floor(x: u128) -> (r: u64)
    requires
        x <= 1_000_000_000_000_000_000,
    ensures
        r == cube_root(x as int),
        r <= 1_000_000,
{
    let mut low: u128 = 0;
    let mut high: u128 = 1_000_001;
    assert(cube(0) == 0 && cube(1_000_001) > 1_000_000_000_000_000_000);
    while high - low > 1
        invariant
            low < high <= 1_000_001,
            cube(low as int) <= x < cube(high as int),
        decreases high - low,
    {
        let mid = low + (high - low) / 2;
        if cube_of(mid) <= x {
            low = mid;
        } else {
            high = mid;
        }
    }
    proof {
        lemma_cube_root_unique(low as int, x as int);
    }
    low as u64
}

/// The fifth root, rounded down, of a number up to the fifth power of a
/// million.
pub fn fifth_root_floor(x: u128) -> (r: u64)
    requires
        x <= 1_000_000_000_000_000_000_000_000_000_000,
    ensures
        r == fifth_root(x as int),
        r <= 1_000_000,
{
    let mut low: u128 = 0;
    let mut high: u128 = 1_000_001;
    assert(fifth(0) == 0 && fifth(1_000_001) > 1_000_000_000_000_000_000_000_000_000_000);
    while high - low > 1
        invariant
            low < high <= 1_000_001,
            fifth(low as int) <= x < fifth(high as int),
        decreases high - low,
    {
        let mid = low + (high - low) / 2;
        if fifth_of(mid) <= x {
            low = mid;
        } else {
            high = mid;
        }
    }
    proof {
        lemma_fifth_root_unique(low as int, x as int);
    }
    low as u64
}

/// The sRGB curve undone at `v`, for `v` from zero to one: `v / 12.92` below
/// 0.04045, and above it `((v + 0.055) / 1.055)` to the power of 2.4, taken
/// as the square times the fifth root of the square.
pub open spec fn srgb_decoded(v: int) -> int {
    if v < 40_450 {
        (v * 100) / 1292
    } else {
        let u = ((v + 55_000) * 1_000_000) / 1_055_000;
        let square = (u * u) / 1_000_000;
        (square * fifth_root(square * 1_000_000 * 1_000_000 * 1_000_000 * 1_000_000)) / 1_000_000
    }
}

/// The Rec. 601 and Rec. 709 curve undone at `v`, for `v` from zero to one:
/// `v / 4.5` below 0.081, and above it `((v + 0.099) / 1.099)` to the power
/// of one over 0.45, taken as the square times the ninth root of the square,
/// the ninth root as the cube root of the cube root.
pub open spec fn rec_decoded(v: int) -> int {
    if v < 81_000 {
        (v * 10) / 45
    } else {
        let u = ((v + 99_000) * 1_000_000) / 1_099_000;
        let square = (u * u) / 1_000_000;
        let inner = cube_root(square * 1_000_000 * 1_000_000);
        (square * cube_root(inner * 1_000_000 * 1_000_000)) / 1_000_000
    }
}

/// A sample with the companding of `mode` undone.
pub open spec fn linearized(mode: Linearize, v: int) -> int {
    match mode {
        Linearize::Off => v,
        Linearize::Rec601 | Linearize::Rec709 => rec_decoded(v),
        Linearize::SRgb => srgb_decoded(v),
    }
}

/// The square, in fixed point, of a share of one, and its bounds.
proof fn lemma_square_bounds(u: int)
    requires
        0 <= u <= ONE,
    ensures
        0 <= (u * u) / 1_000_000 <= u,
        0 <= (u * u) / 1_000_000 <= ONE,
{
    assert(0 <= (u * u) / 1_000_000 <= u) by (nonlinear_arith)
        requires
            0 <= u <= 1_000_000,
    ;
}

/// A share of one times a share of one is no more than the first.
proof fn lemma_share_of(a: int, r: int)
    requires
        0 <= a,
        0 <= r <= ONE,
    ensures
        0 <= (a * r) / 1_000_000 <= a,
{
    assert(0 <= (a * r) / 1_000_000 <= a) by (nonlinear_arith)
        requires
            0 <= a,
            0 <= r <= 1_000_000,
    ;
}

impl Linearize {
    /// Undoes the companding of this curve on a sample between zero and one.
    /// Without a curve the sample is handed back as it is, whatever it is.
    pub fn linearize(&self, value: i64) -> (out: i64)
        requires
            *self != Linearize::Off ==> 0 <= value <= ONE,
        ensures
            out == linearized(*self, value as int),
            *self != Linearize::Off ==> 0 <= out <= value,
    {
        match self {
            Linearize::Off => value,
            Linearize::Rec709 | Linearize::Rec601 => {
                if value < 81_000 {
                    (value * 10) / 45
                } else {
                    let u: u128 = ((value as u128 + 99_000) * 1_000_000) / 1_099_000;
                    proof {
                        lemma_rec_base(value as int);
                        lemma_square_bounds(u as int);
                    }
                    let square: u128 = (u * u) / 1_000_000;
                    let inner = cube_root_floor(square * 1_000_000 * 1_000_000);
                    let ninth = cube_root_floor(inner as u128 * 1_000_000 * 1_000_000);
                    proof {
                        lemma_share_of(square as int, ninth as int);
                    }
                    ((square * ninth as u128) / 1_000_000) as i64
                }
            },
            Linearize::SRgb => {
                if value < 40_450 {
                    (value * 100) / 1292
                } else {
                    let u: u128 = ((value as u128 + 55_000) * 1_000_000) / 1_055_000;
                    proof {
                        lemma_srgb_base(value as int);
                        lemma_square_bounds(u as int);
                    }
                    let square: u128 = (u * u) / 1_000_000;
                    let root = fifth_root_floor(
                        square * 1_000_000 * 1_000_000 * 1_000_000 * 1_000_000,
                    );
                    proof {
                        lemma_share_of(square as int, root as int);
                    }
                    ((square * root as u128) / 1_000_000) as i64
                }
            },
        }
    }
}

/// Above the straight part of the sRGB curve, the base of the power is a
/// share of one whose square is no more than the sample.
pub proof fn lemma_srgb_base(v: int)
    requires
        40_450 <= v <= ONE,
    ensures
        ({
            let u = ((v + 55_000) * 1_000_000) / 1_055_000;
            0 <= u <= ONE && (u * u) / 1_000_000 <= v
        }),
{
    let u = ((v + 55_000) * 1_000_000) / 1_055_000;
    assert(0 <= u <= 1_000_000 && u * 1_055_000 <= (v + 55_000) * 1_000_000) by (nonlinear_arith)
        requires
            u == ((v + 55_000) * 1_000_000) / 1_055_000,
            40_450 <= v <= 1_000_000,
    ;
    // With x = u * 1.055: x * x <= (v + 0.055)^2 <= 1.113025 * v for v in range.
    assert((v + 55_000) * (v + 55_000) <= 1_113_025 * v) by (nonlinear_arith)
        requires
            40_450 <= v <= 1_000_000,
    ;
    assert((u * 1_055) * (u * 1_055) <= ((v + 55_000) * 1_000) * ((v + 55_000) * 1_000))
        by (nonlinear_arith)
        requires
            0 <= u,
            u * 1_055 <= (v + 55_000) * 1_000,
            v >= 0,
    ;
    assert(u * u <= v * 1_000_000) by (nonlinear_arith)
        requires
            (u * 1_055) * (u * 1_055) <= ((v + 55_000) * 1_000) * ((v + 55_000) * 1_000),
            (v + 55_000) * (v + 55_000) <= 1_113_025 * v,
    ;
    assert((u * u) / 1_000_000 <= v) by (nonlinear_arith)
        requires
            u * u <= v * 1_000_000,
            v >= 0,
    ;
}

/// Above the straight part of the Rec. curve, the base of the power is a
/// share of one whose square is no more than the sample.
pub proof fn lemma_rec_base(v: int)
    requires
        81_000 <= v <= ONE,
    ensures
        ({
            let u = ((v + 99_000) * 1_000_000) / 1_099_000;
            0 <= u <= ONE && (u * u) / 1_000_000 <= v
        }),
{
    let u = ((v + 99_000) * 1_000_000) / 1_099_000;
    assert(0 <= u <= 1_000_000 && u * 1_099_000 <= (v + 99_000) * 1_000_000) by (nonlinear_arith)
        requires
            u == ((v + 99_000) * 1_000_000) / 1_099_000,
            81_000 <= v <= 1_000_000,
    ;
    assert((v + 99_000) * (v + 99_000) <= 1_207_801 * v) by (nonlinear_arith)
        requires
            81_000 <= v <= 1_000_000,
    ;
    assert((u * 1_099) * (u * 1_099) <= ((v + 99_000) * 1_000) * ((v + 99_000) * 1_000))
        by (nonlinear_arith)
        requires
            0 <= u,
            u * 1_099 <= (v + 99_000) * 1_000,
            v >= 0,
    ;
    assert(u * u <= v * 1_000_000) by (nonlinear_arith)
        requires
            (u * 1_099) * (u * 1_099) <= ((v + 99_000) * 1_000) * ((v + 99_000) * 1_000),
            (v + 99_000) * (v + 99_000) <= 1_207_801 * v,
    ;
    assert((u * u) / 1_000_000 <= v) by (nonlinear_arith)
        requires
            u * u <= v * 1_000_000,
            v >= 0,
    ;
}

/// Every curve maps zero to zero and one to one; without a curve every
/// sample stays what it is; and each curve takes the sample one half below
/// one half.
pub proof fn lemma_linearization_endpoints(mode: Linearize, x: int)
    ensures
        linearized(mode, 0) == 0,
        linearized(mode, ONE as int) == ONE,
        linearized(Linearize::Off, x) == x,
        mode != Linearize::Off ==> linearized(mode, 500_000) < 500_000,
        linearized(Linearize::SRgb, 500_000) == 214_040,
        linearized(Linearize::Rec709, 500_000) == 259_587,
        linearized(Linearize::Rec601, 500_000) == 259_587,
{
    // At one, every root is the root of a power of one million.
    assert(is_cube_root(1_000_000, 1_000_000_000_000_000_000));
    lemma_cube_root_unique(1_000_000, 1_000_000_000_000_000_000);
    assert(is_fifth_root(1_000_000, 1_000_000_000_000_000_000_000_000_000_000));
    lemma_fifth_root_unique(1_000_000, 1_000_000_000_000_000_000_000_000_000_000);
    assert(srgb_decoded(1_000_000) == 1_000_000);
    assert(rec_decoded(1_000_000) == 1_000_000);
    // At one half.
    assert(is_fifth_root(773_420, 276_745_000_000_000_000_000_000_000_000));
    lemma_fifth_root_unique(773_420, 276_745_000_000_000_000_000_000_000_000);
    assert((555_000int * 1_000_000) / 1_055_000 == 526_066);
    assert((526_066int * 526_066) / 1_000_000 == 276_745);
    assert(276_745int * 1_000_000 * 1_000_000 * 1_000_000 * 1_000_000 == 276_745_000_000_000_000_000_000_000_000);
    assert((276_745int * 773_420) / 1_000_000 == 214_040);
    assert(srgb_decoded(500_000) == 214_040);
    assert(is_cube_root(667_244, 297_068_000_000_000_000));
    lemma_cube_root_unique(667_244, 297_068_000_000_000_000);
    assert(is_cube_root(873_832, 667_244_000_000_000_000));
    lemma_cube_root_unique(873_832, 667_244_000_000_000_000);
    assert((599_000int * 1_000_000) / 1_099_000 == 545_040);
    assert((545_040int * 545_040) / 1_000_000 == 297_068);
    assert(297_068int * 1_000_000 * 1_000_000 == 297_068_000_000_000_000);
    assert(667_244int * 1_000_000 * 1_000_000 == 667_244_000_000_000_000);
    assert((297_068int * 873_832) / 1_000_000 == 259_587);
    assert(rec_decoded(500_000) == 259_587);
}

} // verus!
