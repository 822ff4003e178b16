//! Fixed-point trigonometry over angles measured in milli-turns (a full
//! turn is `TURN` = 1000). Sine and cosine are computed with the rational
//! Bhaskara approximation, which is exact at every quarter turn and stays
//! within `[-FP, FP]`, so a steering angle always yields a unit-length-ish
//! direction in plain integers.

use vstd::prelude::*;
use crate::fixed::FP;

verus! {

/// Milli-turns in a full turn.
pub const TURN: i64 = 1000;

/// Milli-turns in a half turn.
pub const HALF_TURN: i64 = 500;

/// Milli-turns in a quarter turn.
pub const QUARTER_TURN: i64 = 250;

/// Largest angle magnitude the executable trig accepts.
pub const ANGLE_LIMIT: i64 = 1_000_000_000_000;

/// Bhaskara's rational sine on the first half turn, scaled by `FP`:
/// exact at 0, `QUARTER_TURN` and `HALF_TURN`.
pub open spec fn spec_sin_half(x: int) -> int {
    16000 * (x * (500 - x)) / (1250000 - 4 * (x * (500 - x)))
}

/// Sine of an angle in milli-turns, scaled by `FP`.
pub open spec fn spec_sin(a: int) -> int {
    let m = a % 1000;
    if m < 500 {
        spec_sin_half(m)
    } else {
        -spec_sin_half(m - 500)
    }
}

/// Cosine of an angle in milli-turns, scaled by `FP`.
pub open spec fn spec_cos(a: int) -> int {
    spec_sin(a + QUARTER_TURN as int)
}

/// Sine on `[0, HALF_TURN]`, nonnegative and bounded by `FP`.
fn sin_half(x: u64) -> (r: i64)
    requires
        x <= 500,
    ensures
        r == spec_sin_half(x as int),
        0 <= r <= FP,
{
    proof {
        assert(x as int * (500 - x as int) <= 62500) by (nonlinear_arith)
            requires
                0 <= x as int <= 500,
        ;
    }
    let p: u64 = x * (500 - x);
    let num: u64 = 16000 * p;
    let den: u64 = 1250000 - 4 * p;
    let q: u64 = num / den;
    proof {
        assert(num as int / den as int <= 1000) by (nonlinear_arith)
            requires
                num as int <= 1000 * den as int,
                den as int >= 1000000,
        ;
    }
    q as i64
}

/// Sine of an angle in milli-turns. The result is `FP`-scaled and lies in
/// `[-FP, FP]`; it is exact at every multiple of a quarter turn.
pub fn sin_fp(a: i64) -> (r: i64)
    requires
        -ANGLE_LIMIT - 250 <= a <= ANGLE_LIMIT + 250,
    ensures
        r == spec_sin(a as int),
        -FP <= r <= FP,
{
    let shifted: u64 = (a + 2_000_000_000_000) as u64;
    let m: u64 = shifted % 1000;
    proof {
        vstd::arithmetic::div_mod::lemma_mod_multiples_vanish(2_000_000_000, a as int, 1000);
        assert(m == a as int % 1000);
    }
    if m < 500 {
        sin_half(m)
    } else {
        let s = sin_half(m - 500);
        -s
    }
}

/// Cosine of an angle in milli-turns: the sine shifted by a quarter turn.
pub fn cos_fp(a: i64) -> (r: i64)
    requires
        -ANGLE_LIMIT <= a <= ANGLE_LIMIT,
    ensures
        r == spec_cos(a as int),
        -FP <= r <= FP,
{
    sin_fp(a + QUARTER_TURN)
}

} // verus!
