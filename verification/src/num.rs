//! Fixed-point scalar arithmetic for the interpreter: every speed,
//! direction and expression value is an `i64` holding thousandths, and
//! each operation here carries an exact specification, including its
//! saturation and truncation behaviour.

use vstd::prelude::*;

verus! {

/// Scalar values (speeds, directions, expression results) are fixed-point
/// numbers held in an `i64`: `SCALE` raw units stand for 1.0.
pub const SCALE: i64 = 1000;

/// One full circle of direction, in raw units (360 degrees).
pub const FULL_CIRCLE: i64 = 360 * SCALE;

/// Clamps a mathematical integer into the `i64` range.
pub open spec fn clamp_i64(v: int) -> int {
    if v > i64::MAX as int {
        i64::MAX as int
    } else if v < i64::MIN as int {
        i64::MIN as int
    } else {
        v
    }
}

/// Absolute value of a mathematical integer.
pub open spec fn abs_of(v: int) -> int {
    if v < 0 {
        -v
    } else {
        v
    }
}

/// Division truncating toward zero (the spec-level `/` rounds toward
/// negative infinity for a negative dividend, which is not what the
/// executable magnitude-based arithmetic produces).
pub open spec fn trunc_div(a: int, b: int) -> int
    recommends
        b != 0,
{
    if (a < 0) == (b < 0) {
        abs_of(a) / abs_of(b)
    } else {
        -(abs_of(a) / abs_of(b))
    }
}

/// Saturating sum of two scalars.
pub open spec fn spec_sat_add(a: int, b: int) -> int {
    clamp_i64(a + b)
}

/// Saturating difference of two scalars.
pub open spec fn spec_sat_sub(a: int, b: int) -> int {
    clamp_i64(a - b)
}

/// Product of two fixed-point scalars: the exact product rescaled by
/// `SCALE`, truncated toward zero, then saturated.
pub open spec fn spec_scaled_mul(a: int, b: int) -> int {
    clamp_i64(trunc_div(a * b, SCALE as int))
}

/// Quotient of two fixed-point scalars, truncated toward zero and
/// saturated.  Division by zero saturates to the extreme of the
/// dividend's sign (and yields zero for a zero dividend).
pub open spec fn spec_scaled_div(a: int, b: int) -> int {
    if b == 0 {
        if a > 0 {
            i64::MAX as int
        } else if a < 0 {
            i64::MIN as int
        } else {
            0
        }
    } else {
        clamp_i64(trunc_div(a * (SCALE as int), b))
    }
}

/// A direction normalized into `[0, FULL_CIRCLE)`; `%` on `int` is
/// Euclidean, so the result is non-negative for every input.
pub open spec fn spec_norm(v: int) -> int {
    v % (FULL_CIRCLE as int)
}

/// A non-negative whole tick count read from a scalar: the integer part,
/// clamped into the `u32` range (negative scalars give zero ticks).
pub open spec fn spec_turns(v: int) -> int {
    if v <= 0 {
        0
    } else if v / (SCALE as int) > u32::MAX as int {
        u32::MAX as int
    } else {
        v / (SCALE as int)
    }
}

/// A non-negative whole repetition count read from a scalar, clamped into
/// the `usize` range.
pub open spec fn spec_count(v: int) -> int {
    if v <= 0 {
        0
    } else if v / (SCALE as int) > usize::MAX as int {
        usize::MAX as int
    } else {
        v / (SCALE as int)
    }
}

/// Magnitude of a scalar as a `u64` (total: the magnitude of `i64::MIN`
/// still fits).
pub fn mag_of(a: i64) -> (r: u64)
    ensures
        r == abs_of(a as int),
{
    if a >= 0 {
        a as u64
    } else {
        (-(a as i128)) as u64
    }
}

/// Rebuilds a scalar from a sign and a wide magnitude, saturating.
pub fn from_mag(neg: bool, m: u128) -> (r: i64)
    ensures
        r as int == clamp_i64(if neg {
            -(m as int)
        } else {
            m as int
        }),
{
    if neg {
        if m >= 9223372036854775808u128 {
            i64::MIN
        } else {
            -((m as i64))
        }
    } else {
        if m > i64::MAX as u128 {
            i64::MAX
        } else {
            m as i64
        }
    }
}

/// Saturating addition on scalars.
pub fn sat_add(a: i64, b: i64) -> (r: i64)
    ensures
        r as int == spec_sat_add(a as int, b as int),
{
    let s: i128 = a as i128 + b as i128;
    if s > i64::MAX as i128 {
        i64::MAX
    } else if s < i64::MIN as i128 {
        i64::MIN
    } else {
        s as i64
    }
}

/// Saturating subtraction on scalars.
pub fn sat_sub(a: i64, b: i64) -> (r: i64)
    ensures
        r as int == spec_sat_sub(a as int, b as int),
{
    let s: i128 = a as i128 - b as i128;
    if s > i64::MAX as i128 {
        i64::MAX
    } else if s < i64::MIN as i128 {
        i64::MIN
    } else {
        s as i64
    }
}

/// Fixed-point multiplication, truncating toward zero and saturating.
pub fn scaled_mul(a: i64, b: i64) -> (r: i64)
    ensures
        r as int == spec_scaled_mul(a as int, b as int),
{
    let neg = (a < 0) != (b < 0);
    let ma = mag_of(a);
    let mb = mag_of(b);
    proof {
        assert((ma as int) * (mb as int) <= (u64::MAX as int) * (u64::MAX as int))
            by (nonlinear_arith)
            requires ma <= u64::MAX, mb <= u64::MAX;
    }
    let p: u128 = (ma as u128) * (mb as u128);
    let q: u128 = p / (SCALE as u128);
    proof {
        lemma_mag_product(a as int, b as int);
        assert(p == abs_of((a as int) * (b as int)));
        assert(q == abs_of((a as int) * (b as int)) / (SCALE as int));
        lemma_sign_product(a as int, b as int);
    }
    from_mag(neg, q)
}

/// Fixed-point division, truncating toward zero and saturating; division
/// by zero saturates by the dividend's sign.
pub fn scaled_div(a: i64, b: i64) -> (r: i64)
    ensures
        r as int == spec_scaled_div(a as int, b as int),
{
    if b == 0 {
        if a > 0 {
            i64::MAX
        } else if a < 0 {
            i64::MIN
        } else {
            0
        }
    } else {
        let neg = (a < 0) != (b < 0);
        let ma = mag_of(a);
        let mb = mag_of(b);
        proof {
            assert((ma as int) * (SCALE as int) <= (u64::MAX as int) * (u64::MAX as int))
                by (nonlinear_arith)
                requires ma <= u64::MAX, SCALE <= u64::MAX;
        }
        let p: u128 = (ma as u128) * (SCALE as u128);
        let q: u128 = p / (mb as u128);
        proof {
            lemma_mag_product(a as int, SCALE as int);
            assert(abs_of(SCALE as int) == SCALE as int);
            assert(p == abs_of((a as int) * (SCALE as int)));
            assert(q == abs_of((a as int) * (SCALE as int)) / abs_of(b as int));
            lemma_sign_product(a as int, SCALE as int);
        }
        from_mag(neg, q)
    }
}

/// The whole-tick count a scalar stands for, clamped into `u32`.
pub fn turns_of(v: i64) -> (r: u32)
    ensures
        r as int == spec_turns(v as int),
{
    if v <= 0 {
        0
    } else {
        let q: u64 = (v as u64) / (SCALE as u64);
        if q > u32::MAX as u64 {
            u32::MAX
        } else {
            q as u32
        }
    }
}

/// The whole repetition count a scalar stands for, clamped into `usize`.
pub fn count_of(v: i64) -> (r: usize)
    ensures
        r as int == spec_count(v as int),
{
    if v <= 0 {
        0
    } else {
        let q: u64 = (v as u64) / (SCALE as u64);
        if q > usize::MAX as u64 {
            usize::MAX
        } else {
            q as usize
        }
    }
}

/// Saturating addition of mathematical turn counters.
pub open spec fn spec_sat_add_u32(a: int, b: int) -> int {
    if a + b <= u32::MAX {
        a + b
    } else {
        u32::MAX as int
    }
}

/// Saturating addition of turn counters.
pub fn sat_add_u32(a: u32, b: u32) -> (r: u32)
    ensures
        r as int == spec_sat_add_u32(a as int, b as int),
{
    let s: u64 = a as u64 + b as u64;
    if s > u32::MAX as u64 {
        u32::MAX
    } else {
        s as u32
    }
}

/// Normalizes a direction into `[0, FULL_CIRCLE)`.
pub fn norm_deg(v: i64) -> (r: i64)
    ensures
        r as int == spec_norm(v as int),
        0 <= r < FULL_CIRCLE,
{
    if v >= 0 {
        ((v as u64) % (FULL_CIRCLE as u64)) as i64
    } else {
        let m: u64 = ((-(v as i128)) as u128 % (FULL_CIRCLE as u128)) as u64;
        if m == 0 {
            proof {
                lemma_neg_mod(v as int, FULL_CIRCLE as int);
            }
            0
        } else {
            proof {
                lemma_neg_mod(v as int, FULL_CIRCLE as int);
            }
            FULL_CIRCLE - (m as i64)
        }
    }
}

/// Every normalized direction lies inside `[0, FULL_CIRCLE)`.
pub proof fn lemma_norm_range(v: int)
    ensures
        0 <= spec_norm(v) < FULL_CIRCLE as int,
{
}

/// Euclidean remainder of a negative value, over the remainder of its
/// magnitude.
proof fn lemma_neg_mod(v: int, n: int)
    requires
        v < 0,
        n > 0,
    ensures
        v % n == if (-v) % n == 0 {
            0
        } else {
            n - ((-v) % n)
        },
{
    let a = -v;
    let q = a / n;
    let m = a % n;
    vstd::arithmetic::div_mod::lemma_fundamental_div_mod(a, n);
    assert(a == n * q + m);
    if m == 0 {
        assert(v == n * (-q)) by (nonlinear_arith)
            requires
                a == n * q + m,
                v == -a,
                m == 0,
        ;
        vstd::arithmetic::div_mod::lemma_mod_multiples_basic(-q, n);
    } else {
        assert(v == n * (-q - 1) + (n - m)) by (nonlinear_arith)
            requires
                a == n * q + m,
                v == -a,
        ;
        vstd::arithmetic::div_mod::lemma_mod_multiples_vanish(-q - 1, n - m, n);
        assert((n - m) % n == n - m) by {
            vstd::arithmetic::div_mod::lemma_small_mod((n - m) as nat, n as nat);
        }
    }
}

/// The magnitude of a product is the product of the magnitudes.
pub proof fn lemma_mag_product(a: int, b: int)
    ensures
        abs_of(a * b) == abs_of(a) * abs_of(b),
{
    assert(abs_of(a * b) == abs_of(a) * abs_of(b)) by (nonlinear_arith);
}

/// A product is negative exactly when the factors disagree in sign and
/// neither is zero.
pub proof fn lemma_sign_product(a: int, b: int)
    ensures
        (a * b < 0) <==> ((a < 0) != (b < 0)) && a != 0 && b != 0,
{
    assert((a * b < 0) <==> ((a < 0) != (b < 0)) && a != 0 && b != 0) by (nonlinear_arith);
}

} // verus!
