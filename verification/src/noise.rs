//! A seeded coherent-noise field over three fixed-point coordinates:
//! pseudo-random values on an integer lattice, blended by smoothstep
//! interpolation. Sampling is a pure function of `(seed, scale, x, y, z)`,
//! the result always lies in `[-FP, FP]`, and reseeding decorrelates the
//! lattice without touching anything else.

use vstd::prelude::*;
use crate::fixed::{FP, COORD_LIMIT, spec_muldiv, muldiv};
use crate::rng::spec_mix;

verus! {

/// Shift that makes a scaled coordinate nonnegative; a multiple of `FP`,
/// so it does not move the position within a lattice cell.
pub const LATTICE_OFFSET: i64 = 1_000_000_000_000_000;

/// The lattice value at one corner, in `[-FP, FP]`.
pub open spec fn spec_corner(seed: u32, a: u64, b: u64, c: u64) -> int {
    let m = spec_mix(spec_mix(spec_mix((seed as u64) ^ a) ^ b) ^ c);
    (m as int) % 2001 - 1000
}

/// Smoothstep on a cell fraction, `FP`-scaled.
pub open spec fn spec_smooth(t: int) -> int {
    t * t * (3000 - 2 * t) / 1000000
}

/// Linear interpolation from `a` to `b` by the `FP`-scaled weight `t`,
/// truncating toward zero.
pub open spec fn spec_lerp(a: int, b: int, t: int) -> int {
    a + crate::fixed::spec_tdiv((b - a) * t, 1000)
}

/// Cell index and smoothed fraction of one scaled coordinate.
pub open spec fn spec_cell(u: int) -> int {
    (u + LATTICE_OFFSET) / 1000
}

pub open spec fn spec_frac(u: int) -> int {
    spec_smooth((u + LATTICE_OFFSET) % 1000)
}

/// The whole sample: trilinear blend of the eight surrounding corners.
pub open spec fn spec_sample_at(seed: u32, u: int, v: int, w: int) -> int {
    let cu = spec_cell(u) as u64;
    let cv = spec_cell(v) as u64;
    let cw = spec_cell(w) as u64;
    let su = spec_frac(u);
    let sv = spec_frac(v);
    let sw = spec_frac(w);
    let x00 = spec_lerp(
        spec_corner(seed, cu, cv, cw),
        spec_corner(seed, (cu + 1) as u64, cv, cw),
        su,
    );
    let x10 = spec_lerp(
        spec_corner(seed, cu, (cv + 1) as u64, cw),
        spec_corner(seed, (cu + 1) as u64, (cv + 1) as u64, cw),
        su,
    );
    let x01 = spec_lerp(
        spec_corner(seed, cu, cv, (cw + 1) as u64),
        spec_corner(seed, (cu + 1) as u64, cv, (cw + 1) as u64),
        su,
    );
    let x11 = spec_lerp(
        spec_corner(seed, cu, (cv + 1) as u64, (cw + 1) as u64),
        spec_corner(seed, (cu + 1) as u64, (cv + 1) as u64, (cw + 1) as u64),
        su,
    );
    let y0 = spec_lerp(x00, x10, sv);
    let y1 = spec_lerp(x01, x11, sv);
    spec_lerp(y0, y1, sw)
}

/// The sample for raw coordinates: x and y are divided by the field's
/// scale before lattice lookup, the phase coordinate is used as given.
pub open spec fn spec_sample(seed: u32, scale: int, x: int, y: int, z: int) -> int {
    spec_sample_at(seed, spec_muldiv(x, FP as int, scale), spec_muldiv(y, FP as int, scale), z)
}

/// The seeded coherent-noise field. `scale` divides the spatial
/// coordinates before sampling: a larger scale gives a smoother field.
#[derive(Clone, Copy, PartialEq, Eq, Structural, Debug)]
pub struct NoiseField {
    pub seed: u32,
    pub scale: i64,
}

impl NoiseField {
    /// The field is usable when its scale is a positive in-range value.
    pub open spec fn wf(&self) -> bool {
        1 <= self.scale <= COORD_LIMIT
    }

    pub fn new(seed: u32, scale: i64) -> (r: NoiseField)
        requires
            1 <= scale <= COORD_LIMIT,
        ensures
            r.seed == seed,
            r.scale == scale,
            r.wf(),
    {
        NoiseField { seed, scale }
    }

    /// Replace the seed: every subsequent sample comes from a fresh
    /// lattice, and no other state is kept.
    pub fn reseed(&mut self, seed: u32)
        ensures
            final(self).seed == seed,
            final(self).scale == old(self).scale,
    {
        self.seed = seed;
    }

    /// Sample the field. Deterministic in the seed and the coordinates,
    /// and always within `[-FP, FP]`.
    pub fn sample(&self, x: i64, y: i64, z: i64) -> (r: i64)
        requires
            self.wf(),
            -COORD_LIMIT <= x <= COORD_LIMIT,
            -COORD_LIMIT <= y <= COORD_LIMIT,
            -COORD_LIMIT <= z <= COORD_LIMIT,
        ensures
            r == spec_sample(self.seed, self.scale as int, x as int, y as int, z as int),
            -FP <= r <= FP,
    {
        let u = muldiv(x, FP, self.scale);
        let v = muldiv(y, FP, self.scale);
        let (cu, su) = split_coord(u);
        let (cv, sv) = split_coord(v);
        let (cw, sw) = split_coord(z);
        let x00 = lerp(corner(self.seed, cu, cv, cw), corner(self.seed, cu + 1, cv, cw), su);
        let x10 = lerp(
            corner(self.seed, cu, cv + 1, cw),
            corner(self.seed, cu + 1, cv + 1, cw),
            su,
        );
        let x01 = lerp(
            corner(self.seed, cu, cv, cw + 1),
            corner(self.seed, cu + 1, cv, cw + 1),
            su,
        );
        let x11 = lerp(
            corner(self.seed, cu, cv + 1, cw + 1),
            corner(self.seed, cu + 1, cv + 1, cw + 1),
            su,
        );
        let y0 = lerp(x00, x10, sv);
        let y1 = lerp(x01, x11, sv);
        lerp(y0, y1, sw)
    }
}

/// Split a scaled coordinate into its lattice cell and the smoothed
/// fraction within the cell.
fn split_coord(u: i64) -> (r: (u64, i64))
    requires
        -COORD_LIMIT <= u <= COORD_LIMIT,
    ensures
        r.0 == spec_cell(u as int),
        r.0 + 1 <= u64::MAX,
        r.1 == spec_frac(u as int),
        0 <= r.1 <= FP,
{
    let shifted: u64 = (u + LATTICE_OFFSET) as u64;
    let cell: u64 = shifted / 1000;
    let t: u64 = shifted % 1000;
    proof {
        let ti = t as int;
        assert(1_000_000_000 - (3000 * ti * ti - 2 * ti * ti * ti) == (1000 - ti) * (1000 - ti)
            * (2 * ti + 1000)) by (nonlinear_arith);
        assert((1000 - ti) * (1000 - ti) * (2 * ti + 1000) >= 0) by (nonlinear_arith)
            requires
                0 <= ti < 1000,
        ;
        assert(ti * ti * (3000 - 2 * ti) >= 0) by (nonlinear_arith)
            requires
                0 <= ti < 1000,
        ;
        assert(ti * ti * (3000 - 2 * ti) == 3000 * ti * ti - 2 * ti * ti * ti)
            by (nonlinear_arith);
        assert(ti * ti <= 1000000) by (nonlinear_arith)
            requires
                0 <= ti < 1000,
        ;
        assert(ti * ti * (3000 - 2 * ti) <= 1000000 * 3000) by (nonlinear_arith)
            requires
                0 <= ti * ti <= 1000000,
                0 <= ti < 1000,
        ;
    }
    let cube: u64 = t * t * (3000 - 2 * t);
    let s: u64 = cube / 1000000;
    (cell, s as i64)
}

/// The pseudo-random lattice value at one corner.
fn corner(seed: u32, a: u64, b: u64, c: u64) -> (r: i64)
    ensures
        r == spec_corner(seed, a, b, c),
        -1000 <= r <= 1000,
{
    let s0 = (seed as u64) ^ a;
    let m0 = mix_step(s0);
    let m1 = mix_step(m0 ^ b);
    let m2 = mix_step(m1 ^ c);
    (m2 % 2001) as i64 - 1000
}

/// One xorshift mixing step, matching `spec_mix`.
fn mix_step(s: u64) -> (r: u64)
    ensures
        r == spec_mix(s),
{
    let a = s ^ (s << 13u64);
    let b = a ^ (a >> 7u64);
    b ^ (b << 17u64)
}

/// Interpolate between two bounded values by an `FP`-scaled weight.
fn lerp(a: i64, b: i64, t: i64) -> (r: i64)
    requires
        -1000 <= a <= 1000,
        -1000 <= b <= 1000,
        0 <= t <= 1000,
    ensures
        r == spec_lerp(a as int, b as int, t as int),
        -1000 <= r <= 1000,
{
    if b >= a {
        proof {
            assert(0 <= (b - a) * t <= (b - a) * 1000 && (b - a) * 1000 <= 2000 * 1000)
                by (nonlinear_arith)
                requires
                    0 <= b - a <= 2000,
                    0 <= t <= 1000,
            ;
            assert((b - a) * t / 1000 <= (b - a) * 1000 / 1000) by (nonlinear_arith)
                requires
                    (b - a) * t <= (b - a) * 1000,
                    0 <= (b - a) * t,
            ;
            assert((b - a) * 1000 / 1000 == b - a) by (nonlinear_arith);
        }
        let d: u64 = ((b - a) as u64) * (t as u64);
        let q: u64 = d / 1000;
        a + (q as i64)
    } else {
        proof {
            assert(0 <= (a - b) * t <= (a - b) * 1000 && (a - b) * 1000 <= 2000 * 1000
                && (b - a) * t == -((a - b) * t)) by (nonlinear_arith)
                requires
                    0 <= a - b <= 2000,
                    0 <= t <= 1000,
            ;
            assert((a - b) * t / 1000 <= (a - b) * 1000 / 1000) by (nonlinear_arith)
                requires
                    (a - b) * t <= (a - b) * 1000,
                    0 <= (a - b) * t,
            ;
            assert((a - b) * 1000 / 1000 == a - b) by (nonlinear_arith);
        }
        let d: u64 = ((a - b) as u64) * (t as u64);
        let q: u64 = d / 1000;
        a - (q as i64)
    }
}

} // verus!
