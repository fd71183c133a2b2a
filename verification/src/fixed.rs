use vstd::prelude::*;
use vstd::arithmetic::div_mod::{lemma_div_is_ordered, lemma_div_multiples_vanish, lemma_div_pos_is_pos};

verus! {

// Positions, velocities, brightness and angles are all fixed-point values
// in thousandths (one "mil" = 1/1000 of a character cell, of a cell per
// tick, of full brightness, or of a radian).

/// Pi in milliradians, as the simulation rounds it.
pub const PI_MIL: i64 = 3141;

/// A full turn in milliradians; twice `PI_MIL`, kept exact so that the
/// half-wave folding in `sin_mil` lines up.
pub const TWO_PI_MIL: i64 = 6282;

/// A quarter turn in milliradians.
pub const HALF_PI_MIL: i64 = 1571;

/// Magnitude of a fixed-point value.
pub open spec fn abs_i(v: int) -> int {
    if v >= 0 {
        v
    } else {
        -v
    }
}

/// `v * m / d` with the quotient rounded toward zero, the rounding the
/// simulation uses for every scaling of a signed fixed-point value.
pub open spec fn scaled(v: int, m: int, d: int) -> int {
    if v >= 0 {
        (v * m) / d
    } else {
        -(((-v) * m) / d)
    }
}

pub fn scale_toward_zero(v: i64, m: i64, d: i64) -> (r: i64)
    requires
        -1_000_000_000 <= v <= 1_000_000_000,
        0 <= m <= 1_000_000,
        1 <= d <= 1_000_000,
    ensures
        r == scaled(v as int, m as int, d as int),
        m <= d ==> abs_i(r as int) <= abs_i(v as int),
        abs_i(r as int) * d <= abs_i(v as int) * m,
        abs_i(v as int) <= d ==> abs_i(r as int) <= m,
{
    proof {
        lemma_scaled_shrinks(v as int, m as int, d as int);
        assert(-1_000_000_000_000_000 <= v * m <= 1_000_000_000_000_000) by (nonlinear_arith)
            requires -1_000_000_000 <= v <= 1_000_000_000 && 0 <= m <= 1_000_000,
        ;
        assert(-1_000_000_000_000_000 <= (-v) * m <= 1_000_000_000_000_000) by (nonlinear_arith)
            requires -1_000_000_000 <= v <= 1_000_000_000 && 0 <= m <= 1_000_000,
        ;
        if v < 0 {
            assert((-v) * m >= 0) by (nonlinear_arith)
                requires v < 0 && m >= 0,
            ;
            lemma_div_pos_is_pos((-v) * m, d as int);
        }
    }
    if v >= 0 {
        (v * m) / d
    } else {
        -(((-v) * m) / d)
    }
}

/// Scaling by a factor of at most one never grows the magnitude.
proof fn lemma_scaled_shrinks(v: int, m: int, d: int)
    requires
        -1_000_000_000 <= v <= 1_000_000_000,
        0 <= m <= 1_000_000,
        1 <= d <= 1_000_000,
    ensures
        m <= d ==> abs_i(scaled(v, m, d)) <= abs_i(v),
        abs_i(scaled(v, m, d)) == (abs_i(v) * m) / d,
        (abs_i(v) * m) / d >= 0,
        abs_i(scaled(v, m, d)) * d <= abs_i(v) * m,
        abs_i(v) <= d ==> abs_i(scaled(v, m, d)) <= m,
{
    let a = abs_i(v);
    assert(a * m >= 0) by (nonlinear_arith)
        requires a >= 0 && m >= 0,
    ;
    lemma_div_pos_is_pos(a * m, d);
    if m <= d {
        assert(a * m <= a * d) by (nonlinear_arith)
            requires a >= 0 && m <= d,
        ;
        lemma_div_is_ordered(a * m, a * d, d);
        lemma_div_multiples_vanish(a, d);
        assert(a * d == d * a) by (nonlinear_arith);
        assert((a * d) / d == a);
    }
    let q = (a * m) / d;
    vstd::arithmetic::div_mod::lemma_fundamental_div_mod(a * m, d);
    vstd::arithmetic::div_mod::lemma_mod_division_less_than_divisor(a * m, d);
    assert(q * d == d * q) by (nonlinear_arith);
    if a <= d {
        assert(a * m <= d * m) by (nonlinear_arith)
            requires 0 <= a <= d && m >= 0,
        ;
        lemma_div_is_ordered(a * m, d * m, d);
        lemma_div_multiples_vanish(m, d);
    }
}

/// The rational half-wave approximation of `1000 * sin(x / 1000)` on
/// `[0, PI_MIL]`: `16000 u / (5 PI_MIL^2 - 4 u)` with `u = x (PI_MIL - x)`.
pub open spec fn sin_half_wave_spec(x: int) -> int
    recommends
        0 <= x <= 3141,
{
    let u = x * (3141 - x);
    16000 * u / (5 * (3141 * 3141) - 4 * u)
}

/// The sine of an angle in milliradians, in thousandths: the angle is
/// folded into one turn and the half-wave approximation applied, negated
/// on the second half-wave.
pub open spec fn sin_mil_spec(a: int) -> int {
    let b = a % 6282;
    if b <= 3141 {
        sin_half_wave_spec(b)
    } else {
        -sin_half_wave_spec(b - 3141)
    }
}

/// Rational half-wave approximation of `1000 * sin(x / 1000)` on
/// `[0, PI_MIL]`.
fn sin_half_wave(x: i64) -> (r: i64)
    requires
        0 <= x <= PI_MIL,
    ensures
        0 <= r <= 1000,
        r == sin_half_wave_spec(x as int),
{
    proof {
        assert(0 <= x * (3141 - x) && 4 * (x * (3141 - x)) <= 3141 * 3141) by (nonlinear_arith)
            requires 0 <= x <= 3141,
        ;
    }
    let u: i64 = x * (PI_MIL - x);
    let num: i64 = 16000 * u;
    let den: i64 = 5 * (PI_MIL * PI_MIL) - 4 * u;
    proof {
        lemma_div_pos_is_pos(num as int, den as int);
        lemma_div_is_ordered(num as int, 1000 * den, den as int);
        lemma_div_multiples_vanish(1000, den as int);
    }
    num / den
}

/// `1000 * sin(a / 1000)` for an angle in milliradians, by half-wave
/// folding of the approximation above.
pub fn sin_mil(a: i64) -> (r: i64)
    requires
        -18_000 <= a <= 18_000,
    ensures
        -1000 <= r <= 1000,
        r == sin_mil_spec(a as int),
{
    let ghost mut turns: int = 0;
    let mut b: i64 = a;
    if b < 0 {
        b = b + TWO_PI_MIL;
        proof {
            turns = turns + 1;
        }
    }
    if b < 0 {
        b = b + TWO_PI_MIL;
        proof {
            turns = turns + 1;
        }
    }
    if b < 0 {
        b = b + TWO_PI_MIL;
        proof {
            turns = turns + 1;
        }
    }
    if b >= TWO_PI_MIL {
        b = b - TWO_PI_MIL;
        proof {
            turns = turns - 1;
        }
    }
    if b >= TWO_PI_MIL {
        b = b - TWO_PI_MIL;
        proof {
            turns = turns - 1;
        }
    }
    if b >= TWO_PI_MIL {
        b = b - TWO_PI_MIL;
        proof {
            turns = turns - 1;
        }
    }
    proof {
        assert(a == 6282 * (-turns) + b);
        vstd::arithmetic::div_mod::lemma_mod_multiples_vanish(-turns, b as int, 6282);
        vstd::arithmetic::div_mod::lemma_small_mod(b as nat, 6282);
        assert(a as int % 6282 == b as int);
    }
    if b <= PI_MIL {
        sin_half_wave(b)
    } else {
        -sin_half_wave(b - PI_MIL)
    }
}

/// x to the seventh power, as a plain product.
pub open spec fn pow7(x: int) -> int {
    x * x * x * x * x * x * x
}

/// x to the tenth power, as a plain product.
pub open spec fn pow10(x: int) -> int {
    x * x * x * x * x * x * x * x * x * x
}

/// What it means for `f` to be the distance factor of the ratio
/// `r_mil`: the greatest value in `[0, 1000]` whose tenth power stays
/// under `r_mil^7 * 1000^3`, i.e. `1000 * (r_mil/1000)^0.7` rounded
/// down.
pub open spec fn is_distance_factor(f: int, r_mil: int) -> bool {
    &&& 0 <= f <= 1000
    &&& pow10(f) <= pow7(r_mil) * 1_000_000_000
    &&& f < 1000 ==> pow10(f + 1) > pow7(r_mil) * 1_000_000_000
    &&& r_mil < 1000 ==> f < 1000
}

/// The comparison target of the distance-factor search:
/// `f = pow07_mil(r)` approximates `1000 * (r/1000)^0.7`, which holds
/// exactly of real numbers when `f^10 == r^7 * 1000^3`.
fn pow7_target(r: u64) -> (t: u128)
    requires
        r <= 1000,
    ensures
        t == pow7(r as int) * 1_000_000_000,
{
    let x: u128 = r as u128;
    proof {
        assert((r as int) * (r as int) <= 1_000_000) by (nonlinear_arith)
            requires r <= 1000,
        ;
    }
    let x2: u128 = x * x;
    proof {
        assert((x2 as int) * (x2 as int) <= 1_000_000_000_000) by (nonlinear_arith)
            requires x2 <= 1_000_000,
        ;
    }
    let x4: u128 = x2 * x2;
    proof {
        assert((x4 as int) * (x2 as int) <= 1_000_000_000_000_000_000) by (nonlinear_arith)
            requires x4 <= 1_000_000_000_000 && x2 <= 1_000_000,
        ;
    }
    let x6: u128 = x4 * x2;
    proof {
        assert((x6 as int) * (x as int) <= 1_000_000_000_000_000_000_000) by (nonlinear_arith)
            requires x6 <= 1_000_000_000_000_000_000 && x <= 1000,
        ;
    }
    let x7: u128 = x6 * x;
    proof {
        assert(x7 as int == pow7(x as int)) by (nonlinear_arith)
            requires
                x2 == (x as int) * (x as int)
                    && x4 == (x2 as int) * (x2 as int)
                    && x6 == (x4 as int) * (x2 as int)
                    && x7 == (x6 as int) * (x as int),
        ;
    }
    x7 * 1_000_000_000
}

/// x^10 for a candidate distance factor.
fn pow10_of(f: u64) -> (r: u128)
    requires
        f <= 1001,
    ensures
        r == pow10(f as int),
{
    let x: u128 = f as u128;
    proof {
        assert((f as int) * (f as int) <= 1_002_001) by (nonlinear_arith)
            requires f <= 1001,
        ;
    }
    let x2: u128 = x * x;
    proof {
        assert((x2 as int) * (x2 as int) <= 1_004_007_000_000) by (nonlinear_arith)
            requires x2 <= 1_002_001,
        ;
    }
    let x4: u128 = x2 * x2;
    proof {
        assert((x4 as int) * (x4 as int) <= 2_000_000_000_000_000_000_000_000) by (nonlinear_arith)
            requires x4 <= 1_004_007_000_000,
        ;
    }
    let x8: u128 = x4 * x4;
    proof {
        assert((x8 as int) * (x2 as int) <= 3_000_000_000_000_000_000_000_000_000_000) by (nonlinear_arith)
            requires x8 <= 2_000_000_000_000_000_000_000_000 && x2 <= 1_002_001,
        ;
        assert((x8 as int) * (x2 as int) == pow10(x as int)) by (nonlinear_arith)
            requires
                x2 == (x as int) * (x as int)
                    && x4 == (x2 as int) * (x2 as int)
                    && x8 == (x4 as int) * (x4 as int),
        ;
    }
    x8 * x2
}

/// A seventh power of a ratio strictly below one stays strictly below the
/// tenth power of one, in the fixed-point encoding of the search.
proof fn lemma_pow7_small(r: int)
    requires
        0 <= r <= 999,
    ensures
        pow7(r) * 1_000_000_000 < pow10(1000),
{
    let r2 = r * r;
    let r4 = r2 * r2;
    let r6 = r4 * r2;
    let r7 = r6 * r;
    assert(0 <= r2 < 1_000_000) by (nonlinear_arith)
        requires 0 <= r <= 999 && r2 == r * r,
    ;
    assert(0 <= r4 < 1_000_000_000_000) by (nonlinear_arith)
        requires 0 <= r2 < 1_000_000 && r4 == r2 * r2,
    ;
    assert(0 <= r6 < 1_000_000_000_000_000_000) by (nonlinear_arith)
        requires 0 <= r4 < 1_000_000_000_000 && 0 <= r2 < 1_000_000 && r6 == r4 * r2,
    ;
    assert(0 <= r7 < 1_000_000_000_000_000_000_000) by (nonlinear_arith)
        requires 0 <= r6 < 1_000_000_000_000_000_000 && 0 <= r < 1000 && r7 == r6 * r,
    ;
    assert(r7 == pow7(r)) by (nonlinear_arith)
        requires r2 == r * r && r4 == r2 * r2 && r6 == r4 * r2 && r7 == r6 * r,
    ;
    assert(pow10(1000) == 1_000_000_000_000_000_000_000_000_000_000) by (nonlinear_arith);
}

/// The non-linear distance factor along an explosion ray:
/// `1000 * (r_mil/1000)^0.7`, rounded down, found by binary search over
/// the exact integer characterisation `f^10 <= r^7 * 1000^3 < (f+1)^10`.
pub fn pow07_mil(r_mil: i64) -> (f: i64)
    requires
        0 <= r_mil <= 1000,
    ensures
        is_distance_factor(f as int, r_mil as int),
        r_mil == 0 ==> f == 0,
{
    if r_mil == 0 {
        return 0;
    }
    let t: u128 = pow7_target(r_mil as u64);
    let mut lo: u64 = 0;
    let mut hi: u64 = 1000;
    while lo < hi
        invariant
            lo <= hi <= 1000,
            pow10(lo as int) <= t,
            hi < 1000 ==> pow10(hi as int + 1) > t,
            t == pow7(r_mil as int) * 1_000_000_000,
            0 <= r_mil <= 1000,
        decreases hi - lo,
    {
        let mid: u64 = lo + (hi - lo + 1) / 2;
        let pm: u128 = pow10_of(mid);
        if pm <= t {
            lo = mid;
        } else {
            hi = mid - 1;
        }
    }
    proof {
        if r_mil < 1000 {
            lemma_pow7_small(r_mil as int);
        }
    }
    lo as i64
}

/// `1000 * cos(a / 1000)`, as the sine of the angle a quarter turn on.
pub fn cos_mil(a: i64) -> (r: i64)
    requires
        -16_000 <= a <= 16_000,
    ensures
        -1000 <= r <= 1000,
        r == sin_mil_spec(a + HALF_PI_MIL),
{
    sin_mil(a + HALF_PI_MIL)
}

} // verus!
