//! Numbers of a clinical record and the tolerance with which they compare.
//!
//! A number is a 64-bit IEEE-754 float. The library never computes with
//! floats: it holds each number by its bit pattern and decides with integer
//! arithmetic what the float comparison would decide.
//!
//! Two numbers differ when the rounded difference of the two floats, taken
//! without its sign, is greater than the float nearest to 0.01. That float is
//! 5764607523034235 / 2^59. With rounding to nearest, ties to even, the
//! rounded difference is greater than it exactly when the true difference is
//! at least half a step above it, that is at least
//! 11529215046068471 / 2^60. [`spec_differ`] states this over the true values
//! of the two floats, counted in units of 2^-1074, the smallest positive
//! float.

use vstd::arithmetic::power2::{
    lemma2_to64,
    lemma2_to64_rest,
    lemma_pow2_adds,
    lemma_pow2_pos,
    lemma_pow2_strictly_increases,
    lemma_pow2_unfold,
    pow2,
};
use vstd::prelude::*;

verus! {

/// 2^52: the number of values of the fraction field.
pub const FRACTION_RANGE: u64 = 0x10_0000_0000_0000;

/// 2^63: the sign bit.
pub const SIGN_BIT: u64 = 0x8000_0000_0000_0000;

/// The tolerance in units of 2^-60.
pub const TOLERANCE_STEPS: u64 = 11529215046068471;

/// The exponent of the finest bit of the tolerance, counted from 2^-1074.
pub const TOLERANCE_SHIFT: u64 = 1014;

pub open spec fn is_negative(bits: u64) -> bool {
    bits >= SIGN_BIT
}

pub open spec fn exponent_field(bits: u64) -> nat {
    ((bits / FRACTION_RANGE) % 2048) as nat
}

pub open spec fn fraction_field(bits: u64) -> nat {
    (bits % FRACTION_RANGE) as nat
}

pub open spec fn is_nan(bits: u64) -> bool {
    exponent_field(bits) == 2047 && fraction_field(bits) != 0
}

pub open spec fn is_infinite(bits: u64) -> bool {
    exponent_field(bits) == 2047 && fraction_field(bits) == 0
}

/// The integer that the exponent scales: the fraction, with the hidden bit
/// in front unless the float is subnormal.
pub open spec fn significand(bits: u64) -> nat {
    if exponent_field(bits) == 0 {
        fraction_field(bits)
    } else {
        FRACTION_RANGE as nat + fraction_field(bits)
    }
}

/// The power of two by which the significand is scaled, counted from 2^-1074.
pub open spec fn shift(bits: u64) -> nat {
    if exponent_field(bits) == 0 {
        0
    } else {
        (exponent_field(bits) - 1) as nat
    }
}

/// The absolute value of a finite float, in units of 2^-1074.
pub open spec fn magnitude(bits: u64) -> nat {
    significand(bits) * pow2(shift(bits))
}

/// The value of a finite float, in units of 2^-1074.
pub open spec fn scaled(bits: u64) -> int {
    if is_negative(bits) {
        -(magnitude(bits) as int)
    } else {
        magnitude(bits) as int
    }
}

/// The least distance at which two numbers differ, in units of 2^-1074.
pub open spec fn tolerance() -> nat {
    TOLERANCE_STEPS as nat * pow2(TOLERANCE_SHIFT as nat)
}

pub open spec fn distance(a: u64, b: u64) -> int {
    if scaled(a) >= scaled(b) {
        scaled(a) - scaled(b)
    } else {
        scaled(b) - scaled(a)
    }
}

/// Whether two numbers, given by their bit patterns, differ by more than the
/// tolerance. A NaN differs from nothing; an infinity differs from all but
/// itself and NaN.
pub open spec fn spec_differ(a: u64, b: u64) -> bool {
    if is_nan(a) || is_nan(b) {
        false
    } else if is_infinite(a) || is_infinite(b) {
        !(is_infinite(a) && is_infinite(b) && is_negative(a) == is_negative(b))
    } else {
        distance(a, b) >= tolerance()
    }
}

/// The bits below the sign bit order finite floats by magnitude.
proof fn lemma_magnitude_order(lo: u64, hi: u64)
    requires
        lo % SIGN_BIT < hi % SIGN_BIT,
    ensures
        magnitude(lo) < magnitude(hi),
        shift(lo) <= shift(hi),
{
    let el = exponent_field(lo);
    let eh = exponent_field(hi);
    let sl = significand(lo) as int;
    let sh = significand(hi) as int;
    let pl = pow2(shift(lo)) as int;
    let ph = pow2(shift(hi)) as int;
    lemma_pow2_pos(shift(lo));
    lemma_pow2_pos(shift(hi));
    assert(lo % SIGN_BIT == el * FRACTION_RANGE + fraction_field(lo));
    assert(hi % SIGN_BIT == eh * FRACTION_RANGE + fraction_field(hi));
    assert(el <= eh);
    if el == eh {
        assert(sl * pl < sh * pl) by (nonlinear_arith)
            requires
                sl < sh,
                pl > 0,
        ;
    } else if el == 0 {
        lemma2_to64();
        assert(sl * pl < sh * ph) by (nonlinear_arith)
            requires
                pl == 1,
                ph >= 1,
                0 <= sl < sh,
        ;
    } else {
        lemma_pow2_unfold(shift(lo) + 1);
        if shift(lo) + 1 < shift(hi) {
            lemma_pow2_strictly_increases(shift(lo) + 1, shift(hi));
        }
        assert(sl * pl < sh * ph) by (nonlinear_arith)
            requires
                0 <= sl < 0x20_0000_0000_0000,
                sh >= 0x10_0000_0000_0000,
                pl > 0,
                ph >= 2 * pl,
        ;
    }
}

/// Below the tolerance's range the two magnitudes together stay under it.
proof fn lemma_small(m: nat, k: nat, other: nat)
    requires
        m < 0x20_0000_0000_0000,
        k < TOLERANCE_SHIFT,
        other <= m * pow2(k),
    ensures
        m * pow2(k) + other < tolerance(),
{
    let p = pow2(k) as int;
    let top = pow2(1013) as int;
    let unit = pow2(1014) as int;
    if k < 1013 {
        lemma_pow2_strictly_increases(k, 1013);
    }
    lemma_pow2_pos(k);
    lemma_pow2_unfold(1014);
    assert(m * p + m * p < 11529215046068471 * unit) by (nonlinear_arith)
        requires
            0 <= m < 0x20_0000_0000_0000,
            0 < p <= top,
            unit == 2 * top,
    ;
}

/// Far above the tolerance's range any two different magnitudes are more
/// than the tolerance apart.
proof fn lemma_huge(mx: nat, kx: nat, my: nat, ky: nat)
    requires
        0x10_0000_0000_0000 <= mx < 0x20_0000_0000_0000,
        my < 0x20_0000_0000_0000,
        kx >= 1069,
        ky <= kx,
        my * pow2(ky) < mx * pow2(kx),
    ensures
        mx * pow2(kx) - my * pow2(ky) >= tolerance(),
{
    let px = pow2(kx) as int;
    let py = pow2(ky) as int;
    let half = pow2((kx - 1) as nat) as int;
    lemma_pow2_pos(ky);
    lemma_pow2_pos((kx - 1) as nat);
    lemma_pow2_unfold(kx);
    assert(px == 2 * half);
    assert(mx * px - my * py >= half) by {
        if ky == kx {
            assert(mx * px - my * px >= px) by (nonlinear_arith)
                requires
                    my * px < mx * px,
                    px > 0,
            ;
        } else if ky == kx - 1 {
            let c = 2 * mx - my;
            assert(c * half == mx * (2 * half) - my * half) by (nonlinear_arith)
                requires
                    c == 2 * mx - my,
            ;
            assert(c * half >= half) by (nonlinear_arith)
                requires
                    c * half > 0,
                    half > 0,
            ;
        } else {
            let quarter = pow2((kx - 2) as nat) as int;
            lemma_pow2_unfold((kx - 1) as nat);
            lemma_pow2_pos((kx - 2) as nat);
            if ky < kx - 2 {
                lemma_pow2_strictly_increases(ky, (kx - 2) as nat);
            }
            assert(mx * (4 * quarter) - my * py >= 2 * quarter) by (nonlinear_arith)
                requires
                    mx >= 0x10_0000_0000_0000,
                    0 <= my < 0x20_0000_0000_0000,
                    0 < py <= quarter,
            ;
        }
    }
    let unit = pow2(1014) as int;
    lemma2_to64_rest();
    lemma_pow2_adds(54, 1014);
    lemma_pow2_pos(1014);
    if 1068 < kx - 1 {
        lemma_pow2_strictly_increases(1068, (kx - 1) as nat);
    }
    assert(11529215046068471 * unit <= 0x40_0000_0000_0000 * unit) by (nonlinear_arith)
        requires
            unit > 0,
    ;
}

/// A magnitude in or above the tolerance's range is a whole number of its
/// finest steps.
proof fn lemma_whole_steps(m: nat, k: nat)
    requires
        k >= TOLERANCE_SHIFT,
    ensures
        m * pow2(k) == (m * pow2((k - 1014) as nat)) * pow2(1014),
{
    let p = pow2((k - 1014) as nat) as int;
    let unit = pow2(1014) as int;
    lemma_pow2_adds((k - 1014) as nat, 1014);
    assert(m * (p * unit) == (m * p) * unit) by (nonlinear_arith);
}

/// A magnitude that ends below the tolerance's finest step is less than one
/// step.
proof fn lemma_under_one_step(m: nat, k: nat)
    requires
        m < 0x20_0000_0000_0000,
        k + 53 <= TOLERANCE_SHIFT,
    ensures
        m * pow2(k) < pow2(1014),
{
    let p = pow2(k) as int;
    lemma2_to64_rest();
    lemma_pow2_adds(53, k);
    lemma_pow2_pos(k);
    if k + 53 < 1014 {
        lemma_pow2_strictly_increases(k + 53, 1014);
    }
    assert(m * p < 0x20_0000_0000_0000 * p) by (nonlinear_arith)
        requires
            0 <= m < 0x20_0000_0000_0000,
            p > 0,
    ;
}

/// A magnitude that straddles the tolerance's finest step, split into whole
/// steps and a rest.
proof fn lemma_split_steps(m: nat, k: nat, d: nat)
    requires
        k < TOLERANCE_SHIFT,
        d == pow2((1014 - k) as nat),
    ensures
        d > 0,
        m * pow2(k) == (m / d) * pow2(1014) + (m % d) * pow2(k),
        (m % d) * pow2(k) < pow2(1014),
        ((m % d) * pow2(k) == 0) <==> (m % d == 0),
{
    let p = pow2(k) as int;
    let unit = pow2(1014) as int;
    let q = (m / d) as int;
    let r = (m % d) as int;
    lemma_pow2_pos((1014 - k) as nat);
    lemma_pow2_pos(k);
    lemma_pow2_adds((1014 - k) as nat, k);
    assert(d * p == unit);
    vstd::arithmetic::div_mod::lemma_fundamental_div_mod(m as int, d as int);
    assert(m == d * q + r);
    assert(0 <= r < d);
    assert(m * p == q * unit + r * p) by (nonlinear_arith)
        requires
            m == d * q + r,
            d * p == unit,
    ;
    assert(r * p < unit) by (nonlinear_arith)
        requires
            0 <= r < d,
            p > 0,
            d * p == unit,
    ;
    assert((r * p == 0) <==> (r == 0)) by (nonlinear_arith)
        requires
            0 <= r,
            p > 0,
    ;
}

/// The sum of whole steps and a magnitude with a rest reaches the tolerance
/// exactly when the whole steps do.
proof fn lemma_sum_reaches(qx: int, qy: int, ry: int, unit: int, steps: int)
    requires
        unit > 0,
        0 <= ry < unit,
    ensures
        (qx * unit + (qy * unit + ry) >= steps * unit) <==> (qx + qy >= steps),
{
    assert((qx * unit + (qy * unit + ry) >= steps * unit) <==> (qx + qy >= steps))
        by (nonlinear_arith)
        requires
            unit > 0,
            0 <= ry < unit,
    ;
}

/// The difference of whole steps and a magnitude with a rest reaches the
/// tolerance exactly when the whole steps do, one more step being owed where
/// the rest is not zero.
proof fn lemma_gap_reaches(qx: int, qy: int, ry: int, unit: int, steps: int)
    requires
        unit > 0,
        0 <= ry < unit,
    ensures
        (qx * unit - (qy * unit + ry) >= steps * unit) <==> (qx >= qy + steps + if ry != 0 {
            1int
        } else {
            0int
        }),
{
    assert((qx * unit - (qy * unit + ry) >= steps * unit) <==> (qx >= qy + steps + if ry != 0 {
        1int
    } else {
        0int
    })) by (nonlinear_arith)
        requires
            unit > 0,
            0 <= ry < unit,
    ;
}

/// 2^n for the few exponents that the comparison needs.
fn power_of_two(n: u64) -> (p: u64)
    requires
        n <= 54,
    ensures
        p == pow2(n as nat),
        0 < p <= 0x40_0000_0000_0000,
{
    let mut p: u64 = 1;
    let mut i: u64 = 0;
    proof {
        lemma2_to64();
        lemma2_to64_rest();
    }
    while i < n
        invariant
            i <= n <= 54,
            p == pow2(i as nat),
            0 < p <= 0x40_0000_0000_0000,
            pow2(54) == 0x40_0000_0000_0000,
        decreases n - i,
    {
        proof {
            lemma_pow2_unfold((i + 1) as nat);
            if i + 1 < 54 {
                lemma_pow2_strictly_increases((i + 1) as nat, 54);
            }
        }
        p = p * 2;
        i = i + 1;
    }
    p
}

/// The comparison for two finite floats of which the first is at least as
/// large in magnitude as the second.
fn differ_ordered(x: u64, y: u64) -> (r: bool)
    requires
        exponent_field(x) < 2047,
        exponent_field(y) < 2047,
        x % SIGN_BIT >= y % SIGN_BIT,
    ensures
        r == (distance(x, y) >= tolerance()),
{
    let ex: u64 = (x / FRACTION_RANGE) % 2048;
    let ey: u64 = (y / FRACTION_RANGE) % 2048;
    let fx: u64 = x % FRACTION_RANGE;
    let fy: u64 = y % FRACTION_RANGE;
    let mx: u64 = if ex == 0 {
        fx
    } else {
        FRACTION_RANGE + fx
    };
    let my: u64 = if ey == 0 {
        fy
    } else {
        FRACTION_RANGE + fy
    };
    let kx: u64 = if ex == 0 {
        0
    } else {
        ex - 1
    };
    let ky: u64 = if ey == 0 {
        0
    } else {
        ey - 1
    };
    let same_magnitude = x % SIGN_BIT == y % SIGN_BIT;
    let same_sign = (x >= SIGN_BIT) == (y >= SIGN_BIT);
    let ghost big = magnitude(x) as int;
    let ghost small = magnitude(y) as int;
    let ghost unit = pow2(1014) as int;
    let ghost gap = if same_sign {
        big - small
    } else {
        big + small
    };
    proof {
        assert(x % SIGN_BIT == ex * FRACTION_RANGE + fx);
        assert(y % SIGN_BIT == ey * FRACTION_RANGE + fy);
        if same_magnitude {
            assert(ex == ey && fx == fy);
        } else {
            lemma_magnitude_order(y, x);
        }
        assert(small <= big);
        assert(ky <= kx);
        assert(distance(x, y) == gap);
        lemma_pow2_pos(1014);
    }
    if kx < TOLERANCE_SHIFT {
        proof {
            lemma_small(mx as nat, kx as nat, small as nat);
        }
        return false;
    }
    if kx >= 1069 {
        proof {
            if !same_magnitude {
                lemma_huge(mx as nat, kx as nat, my as nat, ky as nat);
            } else if !same_sign {
                lemma_pow2_pos(ky as nat);
                assert(1 <= my * pow2(ky as nat)) by (nonlinear_arith)
                    requires
                        my >= 1,
                        pow2(ky as nat) >= 1,
                ;
                lemma_huge(mx as nat, kx as nat, 0, ky as nat);
                assert(0 * pow2(ky as nat) == 0) by (nonlinear_arith);
            }
        }
        return !(same_magnitude && same_sign);
    }
    let px = power_of_two(kx - TOLERANCE_SHIFT);
    proof {
        assert(mx * px <= 0x20_0000_0000_0000 * 0x40_0000_0000_0000) by (nonlinear_arith)
            requires
                0 <= mx < 0x20_0000_0000_0000,
                0 < px <= 0x40_0000_0000_0000,
        ;
        lemma_whole_steps(mx as nat, kx as nat);
    }
    let qx: u128 = (mx as u128) * (px as u128);
    let ghost mut rest: int = 0;
    let whole: u128;
    let owed: u128;
    if ky >= TOLERANCE_SHIFT {
        let py = power_of_two(ky - TOLERANCE_SHIFT);
        proof {
            assert(my * py <= 0x20_0000_0000_0000 * 0x40_0000_0000_0000) by (nonlinear_arith)
                requires
                    0 <= my < 0x20_0000_0000_0000,
                    0 < py <= 0x40_0000_0000_0000,
            ;
            lemma_whole_steps(my as nat, ky as nat);
        }
        whole = (my as u128) * (py as u128);
        owed = 0;
    } else if TOLERANCE_SHIFT - ky >= 53 {
        proof {
            lemma_under_one_step(my as nat, ky as nat);
            rest = small;
            lemma_pow2_pos(ky as nat);
            assert((my * pow2(ky as nat) == 0) <==> (my == 0)) by (nonlinear_arith)
                requires
                    0 <= my,
                    pow2(ky as nat) > 0,
            ;
        }
        whole = 0;
        owed = if my != 0 {
            1
        } else {
            0
        };
    } else {
        let d = power_of_two(TOLERANCE_SHIFT - ky);
        proof {
            lemma_split_steps(my as nat, ky as nat, d as nat);
            rest = (my % d) * pow2(ky as nat);
        }
        whole = (my / d) as u128;
        owed = if my % d != 0 {
            1
        } else {
            0
        };
    }
    proof {
        assert(big == qx * unit);
        assert(small == whole * unit + rest);
        assert(0 <= rest < unit);
        assert(owed == if rest != 0 {
            1int
        } else {
            0int
        });
        lemma_sum_reaches(qx as int, whole as int, rest, unit, TOLERANCE_STEPS as int);
        lemma_gap_reaches(qx as int, whole as int, rest, unit, TOLERANCE_STEPS as int);
    }
    if same_sign {
        qx >= whole + (TOLERANCE_STEPS as u128) + owed
    } else {
        qx + whole >= TOLERANCE_STEPS as u128
    }
}

/// Whether two numbers, given by their bit patterns, differ by more than the
/// tolerance.
pub fn differ(a: u64, b: u64) -> (r: bool)
    ensures
        r == spec_differ(a, b),
{
    let ea: u64 = (a / FRACTION_RANGE) % 2048;
    let eb: u64 = (b / FRACTION_RANGE) % 2048;
    let fa: u64 = a % FRACTION_RANGE;
    let fb: u64 = b % FRACTION_RANGE;
    if (ea == 2047 && fa != 0) || (eb == 2047 && fb != 0) {
        return false;
    }
    if ea == 2047 || eb == 2047 {
        return !(ea == 2047 && eb == 2047 && (a >= SIGN_BIT) == (b >= SIGN_BIT));
    }
    if a % SIGN_BIT >= b % SIGN_BIT {
        differ_ordered(a, b)
    } else {
        differ_ordered(b, a)
    }
}

} // verus!
