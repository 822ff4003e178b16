//! Saturating fixed-point arithmetic on `i64`. One unit is `FP` (1/1000),
//! and every coordinate-producing operation clamps its result into
//! `[-COORD_LIMIT, COORD_LIMIT]`, so no update rule can overflow and no
//! degenerate quantity can propagate through the simulation state.

use vstd::prelude::*;

verus! {

/// Fixed-point one: values represent thousandths.
pub const FP: i64 = 1000;

/// Every coordinate-like quantity is kept inside this bound.
pub const COORD_LIMIT: i64 = 1_000_000_000_000_000;

pub open spec fn spec_abs(a: int) -> int {
    if a >= 0 {
        a
    } else {
        -a
    }
}

/// Saturate a value into the coordinate range.
pub open spec fn spec_clamp(v: int) -> int {
    if v > COORD_LIMIT as int {
        COORD_LIMIT as int
    } else if v < -(COORD_LIMIT as int) {
        -(COORD_LIMIT as int)
    } else {
        v
    }
}

/// Division truncating toward zero (the quotient of magnitudes, with the
/// usual sign rule). Unspecified for `d == 0`, as spec division is.
pub open spec fn spec_tdiv(a: int, d: int) -> int {
    if (a >= 0) <==> (d >= 0) {
        spec_abs(a) / spec_abs(d)
    } else {
        -(spec_abs(a) / spec_abs(d))
    }
}

/// `a * m / d`, truncated toward zero and saturated.
pub open spec fn spec_muldiv(a: int, m: int, d: int) -> int {
    spec_clamp(spec_tdiv(a * m, d))
}

/// `a + b`, saturated.
pub open spec fn spec_add_c(a: int, b: int) -> int {
    spec_clamp(a + b)
}

/// `a - b`, saturated.
pub open spec fn spec_sub_c(a: int, b: int) -> int {
    spec_clamp(a - b)
}

pub fn abs_u128(a: i64) -> (r: u128)
    ensures
        r == spec_abs(a as int),
{
    if a < 0 {
        (-(a as i128)) as u128
    } else {
        a as u128
    }
}

pub fn clamp128(v: i128) -> (r: i64)
    ensures
        r == spec_clamp(v as int),
{
    if v > COORD_LIMIT as i128 {
        COORD_LIMIT
    } else if v < -(COORD_LIMIT as i128) {
        -COORD_LIMIT
    } else {
        v as i64
    }
}

/// Saturating addition of two in-range values.
pub fn add_c(a: i64, b: i64) -> (r: i64)
    requires
        -COORD_LIMIT <= a <= COORD_LIMIT,
        -COORD_LIMIT <= b <= COORD_LIMIT,
    ensures
        r == spec_add_c(a as int, b as int),
        -COORD_LIMIT <= r <= COORD_LIMIT,
{
    clamp128(a as i128 + b as i128)
}

/// Saturating subtraction of two in-range values.
pub fn sub_c(a: i64, b: i64) -> (r: i64)
    requires
        -COORD_LIMIT <= a <= COORD_LIMIT,
        -COORD_LIMIT <= b <= COORD_LIMIT,
    ensures
        r == spec_sub_c(a as int, b as int),
        -COORD_LIMIT <= r <= COORD_LIMIT,
{
    clamp128(a as i128 - b as i128)
}

/// `a * m / d` with truncation toward zero, saturated into the coordinate
/// range. This is the one multiplication primitive of the library: a
/// fixed-point product is `muldiv(a, b, FP)` and a fixed-point quotient is
/// `muldiv(a, FP, b)`.
pub fn muldiv(a: i64, m: i64, d: i64) -> (r: i64)
    requires
        d != 0,
        -COORD_LIMIT <= a <= COORD_LIMIT,
        -COORD_LIMIT <= m <= COORD_LIMIT,
    ensures
        r == spec_muldiv(a as int, m as int, d as int),
        -COORD_LIMIT <= r <= COORD_LIMIT,
{
    let neg: bool = ((a < 0) != (m < 0)) != (d < 0);
    let aa: u128 = abs_u128(a);
    let mm: u128 = abs_u128(m);
    proof {
        assert(aa * mm <= (COORD_LIMIT as u128) * (COORD_LIMIT as u128)) by (nonlinear_arith)
            requires
                aa <= COORD_LIMIT as u128,
                mm <= COORD_LIMIT as u128,
        ;
    }
    let am: u128 = aa * mm;
    let dm: u128 = abs_u128(d);
    let q: u128 = am / dm;
    proof {
        assert(am == spec_abs(a as int * m as int)) by (nonlinear_arith)
            requires
                am == spec_abs(a as int) * spec_abs(m as int),
        ;
        assert(q == spec_abs(a as int * m as int) / spec_abs(d as int));
        assert(spec_abs(spec_tdiv(a as int * m as int, d as int)) == q);
        assert(spec_tdiv(a as int * m as int, d as int) >= 0 <==> (q == 0 || !neg))
            by (nonlinear_arith)
            requires
                neg == (((a < 0) != (m < 0)) != (d < 0)),
                q == spec_abs(a as int * m as int) / spec_abs(d as int),
                d != 0,
        ;
    }
    let ql: u128 = if q > COORD_LIMIT as u128 {
        COORD_LIMIT as u128
    } else {
        q
    };
    let qi: i64 = ql as i64;
    if neg {
        -qi
    } else {
        qi
    }
}

/// Largest accumulator `tdiv128` accepts.
pub const SUM_LIMIT: i128 = 1_000_000_000_000_000_000_000_000_000_000_000_000;

/// Truncating division of a wide accumulator by a positive divisor,
/// saturated into the coordinate range.
pub fn tdiv128(a: i128, d: i64) -> (r: i64)
    requires
        d >= 1,
        -SUM_LIMIT <= a <= SUM_LIMIT,
    ensures
        r == spec_clamp(spec_tdiv(a as int, d as int)),
        -COORD_LIMIT <= r <= COORD_LIMIT,
{
    let neg: bool = a < 0;
    let am: u128 = if a < 0 {
        (-a) as u128
    } else {
        a as u128
    };
    let q: u128 = am / (d as u128);
    let ql: u128 = if q > COORD_LIMIT as u128 {
        COORD_LIMIT as u128
    } else {
        q
    };
    let qi: i64 = ql as i64;
    if neg {
        -qi
    } else {
        qi
    }
}

/// One inverse-square repulsion contribution: the component `comp` of the
/// offset toward a point source, scaled by `scalar / |offset|^2` in fixed
/// point.
pub open spec fn spec_repel_term(dx: int, dy: int, comp: int, scalar: int) -> int {
    spec_clamp(spec_tdiv(comp * scalar * (FP as int), dx * dx + dy * dy))
}

/// Compute one repulsion contribution. The caller skips exact self-matches,
/// so the squared distance is never zero and the division is safe.
pub fn repel_term(dx: i64, dy: i64, comp: i64, scalar: i64) -> (r: i64)
    requires
        !(dx == 0 && dy == 0),
        -COORD_LIMIT <= dx <= COORD_LIMIT,
        -COORD_LIMIT <= dy <= COORD_LIMIT,
        -COORD_LIMIT <= comp <= COORD_LIMIT,
        -COORD_LIMIT <= scalar <= COORD_LIMIT,
    ensures
        r == spec_repel_term(dx as int, dy as int, comp as int, scalar as int),
        -COORD_LIMIT <= r <= COORD_LIMIT,
{
    let neg: bool = (comp < 0) != (scalar < 0);
    let cm: u128 = abs_u128(comp);
    let sm: u128 = abs_u128(scalar);
    let xm: u128 = abs_u128(dx);
    let ym: u128 = abs_u128(dy);
    proof {
        assert(cm * sm <= (COORD_LIMIT as u128) * (COORD_LIMIT as u128) && xm * xm + ym * ym <= 2
            * (COORD_LIMIT as int) * (COORD_LIMIT as int)) by (nonlinear_arith)
            requires
                cm <= COORD_LIMIT as u128,
                sm <= COORD_LIMIT as u128,
                xm <= COORD_LIMIT as u128,
                ym <= COORD_LIMIT as u128,
        ;
        assert((COORD_LIMIT as int) * (COORD_LIMIT as int) * (FP as int)
            <= 0x7fff_ffff_ffff_ffff_ffff_ffff_ffff_ffffint) by (nonlinear_arith)
            requires
                COORD_LIMIT == 1_000_000_000_000_000i64,
                FP == 1000,
        ;
        assert(xm * xm == dx * dx && ym * ym == dy * dy && cm * sm == spec_abs(
            comp as int * scalar as int,
        )) by (nonlinear_arith)
            requires
                xm == spec_abs(dx as int),
                ym == spec_abs(dy as int),
                cm == spec_abs(comp as int),
                sm == spec_abs(scalar as int),
        ;
        assert(dx * dx + dy * dy > 0) by (nonlinear_arith)
            requires
                !(dx == 0 && dy == 0),
        ;
    }
    let num: u128 = cm * sm * (FP as u128);
    let den: u128 = xm * xm + ym * ym;
    let q: u128 = num / den;
    proof {
        assert(num == spec_abs(comp as int * scalar as int * (FP as int))) by (nonlinear_arith)
            requires
                num == spec_abs(comp as int * scalar as int) * (FP as int),
        ;
        assert(q == spec_abs(spec_tdiv(comp as int * scalar as int * (FP as int),
            dx as int * dx as int + dy as int * dy as int)));
        assert(spec_tdiv(comp as int * scalar as int * (FP as int),
            dx as int * dx as int + dy as int * dy as int) >= 0 <==> (q == 0 || !neg))
            by (nonlinear_arith)
            requires
                neg == ((comp < 0) != (scalar < 0)),
                dx * dx + dy * dy > 0,
                q == spec_abs(comp as int * scalar as int * (FP as int)) / spec_abs(
                    dx as int * dx as int + dy as int * dy as int,
                ),
        ;
    }
    let ql: u128 = if q > COORD_LIMIT as u128 {
        COORD_LIMIT as u128
    } else {
        q
    };
    let qi: i64 = ql as i64;
    if neg {
        -qi
    } else {
        qi
    }
}

/// Largest argument `isqrt` accepts: the square of `SQRT_LIMIT`.
pub const SQUARE_LIMIT: u128 = 4_000_000_000_000_000_000_000_000_000_000;

/// Upper bound on every square root the library computes.
pub const SQRT_LIMIT: u64 = 2_000_000_000_000_000;

/// The integer square root, defined by counting up.
pub open spec fn spec_isqrt(n: nat) -> nat
    decreases n,
{
    if n == 0 {
        0
    } else {
        let p = spec_isqrt((n - 1) as nat);
        if (p + 1) * (p + 1) <= n {
            p + 1
        } else {
            p
        }
    }
}

/// The integer square root brackets its argument between consecutive squares.
pub proof fn lemma_isqrt_bracket(n: nat)
    ensures
        spec_isqrt(n) * spec_isqrt(n) <= n,
        n < (spec_isqrt(n) + 1) * (spec_isqrt(n) + 1),
    decreases n,
{
    if n == 0 {
        assert(spec_isqrt(0) == 0);
        assert(0nat * 0nat == 0) by (nonlinear_arith);
        assert((0nat + 1) * (0nat + 1) == 1) by (nonlinear_arith);
    } else {
        lemma_isqrt_bracket((n - 1) as nat);
        let p = spec_isqrt((n - 1) as nat);
        assert(p * p <= n - 1);
        assert(n - 1 < (p + 1) * (p + 1));
        if (p + 1) * (p + 1) <= n {
            assert(spec_isqrt(n) == p + 1);
            assert(n == (p + 1) * (p + 1));
            assert((p + 1) * (p + 1) < (p + 2) * (p + 2)) by (nonlinear_arith);
        } else {
            assert(spec_isqrt(n) == p);
            assert(p * p <= n);
            assert(n < (p + 1) * (p + 1));
        }
    }
}

/// Two values bracketed by the same consecutive squares are equal.
pub proof fn lemma_isqrt_unique(n: nat, a: nat, b: nat)
    requires
        a * a <= n < (a + 1) * (a + 1),
        b * b <= n < (b + 1) * (b + 1),
    ensures
        a == b,
{
    if a < b {
        assert((a + 1) * (a + 1) <= b * b) by (nonlinear_arith)
            requires
                a + 1 <= b,
        ;
    }
    if b < a {
        assert((b + 1) * (b + 1) <= a * a) by (nonlinear_arith)
            requires
                b + 1 <= a,
        ;
    }
}

/// Integer square root by binary search.
pub fn isqrt(n: u128) -> (r: u64)
    requires
        n <= SQUARE_LIMIT,
    ensures
        r == spec_isqrt(n as nat),
        r <= SQRT_LIMIT,
{
    let mut lo: u64 = 0;
    let mut hi: u64 = SQRT_LIMIT;
    proof {
        assert((SQRT_LIMIT + 1) as nat * (SQRT_LIMIT + 1) as nat > SQUARE_LIMIT as nat)
            by (nonlinear_arith);
    }
    while lo < hi
        invariant
            lo <= hi <= SQRT_LIMIT,
            (lo as nat) * (lo as nat) <= n as nat,
            (n as nat) < ((hi + 1) as nat) * ((hi + 1) as nat),
        decreases hi - lo,
    {
        let mid: u64 = lo + (hi - lo + 1) / 2;
        proof {
            assert((mid as int) * (mid as int) <= 4_000_000_000_000_000_000_000_000_000_000int)
                by (nonlinear_arith)
                requires
                    0 <= mid as int <= 2_000_000_000_000_000int,
            ;
        }
        let sq: u128 = (mid as u128) * (mid as u128);
        if sq <= n {
            lo = mid;
        } else {
            hi = mid - 1;
        }
    }
    proof {
        lemma_isqrt_bracket(n as nat);
        lemma_isqrt_unique(n as nat, lo as nat, spec_isqrt(n as nat));
    }
    lo
}

/// The fixed-point square root of a nonnegative fixed-point value.
pub open spec fn spec_fsqrt(v: int) -> int {
    spec_isqrt((v * FP) as nat) as int
}

/// Fixed-point square root: `fsqrt(v) / FP` approximates the real square
/// root of `v / FP` from below.
pub fn fsqrt(v: i64) -> (r: i64)
    requires
        0 <= v <= COORD_LIMIT,
    ensures
        r == spec_fsqrt(v as int),
        0 <= r <= COORD_LIMIT,
{
    proof {
        assert((v as int) * (FP as int) <= SQUARE_LIMIT as int) by (nonlinear_arith)
            requires
                0 <= v as int <= 1_000_000_000_000_000int,
                FP == 1000,
                SQUARE_LIMIT == 4_000_000_000_000_000_000_000_000_000_000u128,
        ;
    }
    let s: u64 = isqrt((v as u128) * (FP as u128));
    proof {
        lemma_isqrt_bracket((v * FP) as nat);
        let sq = spec_isqrt((v * FP) as nat);
        assert(sq <= COORD_LIMIT) by (nonlinear_arith)
            requires
                sq * sq <= v * 1000,
                0 <= v <= 1_000_000_000_000_000int,
        ;
    }
    s as i64
}

} // verus!
