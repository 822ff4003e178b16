//! 2D positions over fixed-point coordinates: vector addition,
//! subtraction, scalar multiplication and division, magnitude, and the
//! element-wise signed power `sign(v) * |v|^p` used to damp a drifting
//! target back toward the origin. Every operation saturates into the
//! coordinate range, so no sequence of updates can overflow.

use vstd::prelude::*;
use crate::fixed::{
    FP, COORD_LIMIT, SQUARE_LIMIT, spec_add_c, spec_sub_c, spec_muldiv, spec_clamp, spec_tdiv,
    spec_isqrt, spec_fsqrt, add_c, sub_c, muldiv, abs_u128, isqrt, fsqrt, lemma_isqrt_bracket,
};

verus! {

/// A point or vector of the plane, in fixed-point thousandths.
#[derive(Clone, Copy, PartialEq, Eq, Structural, Debug)]
pub struct Pos {
    pub x: i64,
    pub y: i64,
}

/// Both coordinates within the saturation range.
pub open spec fn spec_in_range(p: Pos) -> bool {
    &&& -COORD_LIMIT <= p.x <= COORD_LIMIT
    &&& -COORD_LIMIT <= p.y <= COORD_LIMIT
}

/// The vector sum, saturated coordinate-wise.
pub open spec fn spec_pos_add(a: Pos, b: Pos) -> Pos {
    Pos { x: spec_add_c(a.x as int, b.x as int) as i64, y: spec_add_c(a.y as int, b.y as int) as i64 }
}

/// The vector difference, saturated coordinate-wise.
pub open spec fn spec_pos_sub(a: Pos, b: Pos) -> Pos {
    Pos { x: spec_sub_c(a.x as int, b.x as int) as i64, y: spec_sub_c(a.y as int, b.y as int) as i64 }
}

/// Scaling by a fixed-point factor.
pub open spec fn spec_pos_mul(a: Pos, k: int) -> Pos {
    Pos {
        x: spec_muldiv(a.x as int, k, FP as int) as i64,
        y: spec_muldiv(a.y as int, k, FP as int) as i64,
    }
}

/// Division by a fixed-point factor.
pub open spec fn spec_pos_div(a: Pos, k: int) -> Pos {
    Pos {
        x: spec_muldiv(a.x as int, FP as int, k) as i64,
        y: spec_muldiv(a.y as int, FP as int, k) as i64,
    }
}

/// The element-wise signed power.
pub open spec fn spec_pos_pow(a: Pos, p: int) -> Pos {
    Pos {
        x: spec_pow_signed(a.x as int, p) as i64,
        y: spec_pow_signed(a.y as int, p) as i64,
    }
}

/// The magnitude of a position, in fixed point: the integer square root
/// of the sum of coordinate squares.
pub open spec fn spec_radius(p: Pos) -> int {
    spec_isqrt((p.x * p.x + p.y * p.y) as nat) as int
}

/// One fractional-power step: square-root chain over the binary digits of
/// the exponent. `d` walks down 512, 256, ..., 1; at each step `cur`
/// becomes its fixed-point square root and is multiplied into `acc` when
/// the matching exponent bit is set.
pub open spec fn spec_pow_step(acc: int, cur: int, e: int, d: int) -> int
    decreases d,
{
    if d <= 0 {
        acc
    } else {
        let c = spec_fsqrt(cur);
        let acc2 = if (e / d) % 2 == 1 {
            spec_clamp(spec_tdiv(acc * c, FP as int))
        } else {
            acc
        };
        spec_pow_step(acc2, c, e, d / 2)
    }
}

/// `v^(p/FP)` for a nonnegative fixed-point `v` and an exponent in
/// `[0, FP]`, computed to ten fractional bits; exact at `p == FP`.
pub open spec fn spec_pow_mag(v: int, p: int) -> int {
    let e = p * 1024 / 1000;
    if e >= 1024 {
        v
    } else {
        spec_pow_step(FP as int, v, e, 512)
    }
}

/// The signed power `sign(v) * |v|^(p/FP)`.
pub open spec fn spec_pow_signed(v: int, p: int) -> int {
    if v >= 0 {
        spec_pow_mag(v, p)
    } else {
        -spec_pow_mag(-v, p)
    }
}

/// `|v|^(p/FP)` for nonnegative `v`.
fn pow_mag(v: i64, p: i64) -> (r: i64)
    requires
        0 <= v <= COORD_LIMIT,
        0 <= p <= FP,
    ensures
        r == spec_pow_mag(v as int, p as int),
        0 <= r <= COORD_LIMIT,
{
    let e: i64 = p * 1024 / 1000;
    if e >= 1024 {
        return v;
    }
    let mut acc: i64 = FP;
    let mut cur: i64 = v;
    let mut d: i64 = 512;
    while d > 0
        invariant
            0 <= acc <= COORD_LIMIT,
            0 <= cur <= COORD_LIMIT,
            0 <= d <= 512,
            0 <= e < 1024,
            spec_pow_step(acc as int, cur as int, e as int, d as int) == spec_pow_step(
                FP as int,
                v as int,
                e as int,
                512,
            ),
        decreases d,
    {
        cur = fsqrt(cur);
        if (e / d) % 2 == 1 {
            acc = muldiv(acc, cur, FP);
        }
        d = d / 2;
    }
    acc
}

impl Pos {
    pub fn new(x: i64, y: i64) -> (r: Pos)
        ensures
            r.x == x,
            r.y == y,
    {
        Pos { x, y }
    }

    /// Vector sum, saturated coordinate-wise.
    pub fn add(self, rhs: Pos) -> (r: Pos)
        requires
            spec_in_range(self),
            spec_in_range(rhs),
        ensures
            r == spec_pos_add(self, rhs),
            r.x == spec_add_c(self.x as int, rhs.x as int),
            r.y == spec_add_c(self.y as int, rhs.y as int),
            spec_in_range(r),
    {
        Pos { x: add_c(self.x, rhs.x), y: add_c(self.y, rhs.y) }
    }

    /// Vector difference, saturated coordinate-wise.
    pub fn sub(self, rhs: Pos) -> (r: Pos)
        requires
            spec_in_range(self),
            spec_in_range(rhs),
        ensures
            r == spec_pos_sub(self, rhs),
            r.x == spec_sub_c(self.x as int, rhs.x as int),
            r.y == spec_sub_c(self.y as int, rhs.y as int),
            spec_in_range(r),
    {
        Pos { x: sub_c(self.x, rhs.x), y: sub_c(self.y, rhs.y) }
    }

    /// Scaling by a fixed-point factor, truncating toward zero.
    pub fn mul(self, rhs: i64) -> (r: Pos)
        requires
            spec_in_range(self),
            -COORD_LIMIT <= rhs <= COORD_LIMIT,
        ensures
            r == spec_pos_mul(self, rhs as int),
            r.x == spec_muldiv(self.x as int, rhs as int, FP as int),
            r.y == spec_muldiv(self.y as int, rhs as int, FP as int),
            spec_in_range(r),
    {
        Pos { x: muldiv(self.x, rhs, FP), y: muldiv(self.y, rhs, FP) }
    }

    /// Division by a nonzero fixed-point factor, truncating toward zero.
    pub fn div(self, rhs: i64) -> (r: Pos)
        requires
            spec_in_range(self),
            rhs != 0,
        ensures
            r == spec_pos_div(self, rhs as int),
            r.x == spec_muldiv(self.x as int, FP as int, rhs as int),
            r.y == spec_muldiv(self.y as int, FP as int, rhs as int),
            spec_in_range(r),
    {
        Pos { x: muldiv(self.x, FP, rhs), y: muldiv(self.y, FP, rhs) }
    }

    /// The magnitude of the vector, in fixed point.
    pub fn radius(&self) -> (r: i64)
        requires
            spec_in_range(*self),
        ensures
            r == spec_radius(*self),
            0 <= r <= crate::fixed::SQRT_LIMIT,
    {
        let xm = abs_u128(self.x);
        let ym = abs_u128(self.y);
        proof {
            assert(xm * xm + ym * ym <= SQUARE_LIMIT as int && xm * xm == self.x * self.x && ym
                * ym == self.y * self.y) by (nonlinear_arith)
                requires
                    xm == crate::fixed::spec_abs(self.x as int),
                    ym == crate::fixed::spec_abs(self.y as int),
                    xm <= COORD_LIMIT as int,
                    ym <= COORD_LIMIT as int,
                    COORD_LIMIT == 1_000_000_000_000_000i64,
                    SQUARE_LIMIT == 4_000_000_000_000_000_000_000_000_000_000u128,
            ;
        }
        let sq: u128 = xm * xm + ym * ym;
        let r = isqrt(sq);
        proof {
            lemma_isqrt_bracket(sq as nat);
            assert(spec_isqrt(sq as nat) <= 2_000_000_000_000_000int) by (nonlinear_arith)
                requires
                    spec_isqrt(sq as nat) * spec_isqrt(sq as nat) <= sq as int,
                    sq as int <= 4_000_000_000_000_000_000_000_000_000_000int,
            ;
        }
        r as i64
    }

    /// The element-wise signed power `sign(v) * |v|^(rhs/FP)`, the damping
    /// map that pulls a value gently toward zero for exponents below one.
    pub fn pow(&self, rhs: i64) -> (r: Pos)
        requires
            spec_in_range(*self),
            0 <= rhs <= FP,
        ensures
            r == spec_pos_pow(*self, rhs as int),
            r.x == spec_pow_signed(self.x as int, rhs as int),
            r.y == spec_pow_signed(self.y as int, rhs as int),
            spec_in_range(r),
    {
        let x = if self.x >= 0 {
            pow_mag(self.x, rhs)
        } else {
            -pow_mag(-self.x, rhs)
        };
        let y = if self.y >= 0 {
            pow_mag(self.y, rhs)
        } else {
            -pow_mag(-self.y, rhs)
        };
        Pos { x, y }
    }
}

} // verus!
