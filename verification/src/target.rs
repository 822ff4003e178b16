//! The attraction-target strategies: an orbiting circle, a figure eight,
//! a noise-driven drift, the mean of the freshest population snapshot, and
//! a pointer pass-through. Each strategy is a pure read of elapsed time,
//! the previous target, the history window and the pointer into a single
//! point; none of them touches agent state.

use vstd::prelude::*;
use crate::fixed::{
    FP, COORD_LIMIT, SUM_LIMIT, spec_muldiv, spec_clamp, spec_tdiv, muldiv, tdiv128,
};
use crate::noise::{NoiseField, spec_sample};
use crate::pos::{Pos, spec_in_range, spec_pos_add, spec_pos_pow};
use crate::trig::{spec_sin, spec_cos, sin_fp, cos_fp};

verus! {

/// Largest angular speed accepted, in milli-turns per second, fixed point.
pub const OMEGA_LIMIT: i64 = 100_000;

/// Largest elapsed time the strategies accept, in fixed-point seconds.
pub const TIME_LIMIT: i64 = 1_000_000_000;

/// Largest snapshot the averaging strategy accepts.
pub const SNAP_LIMIT: usize = 1_000_000;

/// The selectable target strategies.
#[derive(Clone, Copy, PartialEq, Eq, Structural, Debug)]
pub enum TargetMode {
    /// An orbit around the canvas center.
    Circle,
    /// A vertical figure eight, twice as tall as wide.
    FigureEight,
    /// The previous target nudged along the noise field and damped back
    /// toward the center.
    NoiseDrift,
    /// The damped mean of the freshest population snapshot.
    Average,
    /// The externally supplied pointer, unchanged.
    Pointer,
}

/// The configuration constants the strategies read.
#[derive(Clone, Copy, PartialEq, Eq, Structural, Debug)]
pub struct TargetParams {
    /// Orbit radius, fixed point.
    pub radius: i64,
    /// Angular speed in milli-turns per second, fixed point; negative for
    /// clockwise motion.
    pub omega: i64,
    /// Step of the drifting target, fixed point.
    pub drift_step: i64,
    /// Damping exponent of the drifting target, in `[0, FP]`.
    pub drift_damp: i64,
    /// Damping exponent of the averaged target, in `[0, FP]`.
    pub avg_damp: i64,
}

pub open spec fn spec_params_wf(p: TargetParams) -> bool {
    &&& -COORD_LIMIT <= p.radius <= COORD_LIMIT
    &&& -OMEGA_LIMIT <= p.omega <= OMEGA_LIMIT
    &&& -COORD_LIMIT <= p.drift_step <= COORD_LIMIT
    &&& 0 <= p.drift_damp <= FP
    &&& 0 <= p.avg_damp <= FP
}

/// The orbit angle after `elapsed` seconds, in milli-turns.
pub open spec fn spec_theta(elapsed: int, omega: int) -> int {
    spec_muldiv(elapsed, omega, FP as int)
}

/// The circling target: `radius * (cos theta, sin theta)`.
pub open spec fn spec_circle(radius: int, omega: int, elapsed: int) -> Pos {
    let theta = spec_theta(elapsed, omega);
    Pos {
        x: spec_muldiv(radius, spec_cos(theta), FP as int) as i64,
        y: spec_muldiv(radius, spec_sin(theta), FP as int) as i64,
    }
}

/// The figure-eight target: `(-(radius/2) sin 2theta, radius sin theta)`.
pub open spec fn spec_eight(radius: int, omega: int, elapsed: int) -> Pos {
    let theta = spec_theta(elapsed, omega);
    Pos {
        x: (-spec_muldiv(radius, spec_sin(2 * theta), 2 * FP as int)) as i64,
        y: spec_muldiv(radius, spec_sin(theta), FP as int) as i64,
    }
}

/// The drifting target: nudge the previous target one `drift_step` along
/// the noise angle sampled at it, then damp by the signed power.
pub open spec fn spec_drift(
    seed: u32,
    scale: int,
    prev: Pos,
    elapsed: int,
    drift_step: int,
    drift_damp: int,
) -> Pos {
    let raw = spec_sample(seed, scale, prev.x as int, prev.y as int, elapsed);
    let step = Pos {
        x: spec_muldiv(spec_cos(raw), drift_step, FP as int) as i64,
        y: spec_muldiv(spec_sin(raw), drift_step, FP as int) as i64,
    };
    spec_pos_pow(spec_pos_add(prev, step), drift_damp)
}

/// Coordinate sums of a snapshot.
pub open spec fn spec_sum_x(s: Seq<Pos>) -> int
    decreases s.len(),
{
    if s.len() == 0 {
        0
    } else {
        spec_sum_x(s.drop_last()) + s.last().x
    }
}

pub open spec fn spec_sum_y(s: Seq<Pos>) -> int
    decreases s.len(),
{
    if s.len() == 0 {
        0
    } else {
        spec_sum_y(s.drop_last()) + s.last().y
    }
}

/// The mean position of a snapshot; the origin for an empty one, so no
/// division by zero can arise.
pub open spec fn spec_mean(s: Seq<Pos>) -> Pos {
    if s.len() == 0 {
        Pos { x: 0, y: 0 }
    } else {
        Pos {
            x: spec_clamp(spec_tdiv(spec_sum_x(s), s.len() as int)) as i64,
            y: spec_clamp(spec_tdiv(spec_sum_y(s), s.len() as int)) as i64,
        }
    }
}

/// The averaging target: the damped mean of the freshest snapshot, and
/// exactly the zero vector while there is nothing to average.
pub open spec fn spec_average(newest: Option<Seq<Pos>>, avg_damp: int) -> Pos {
    match newest {
        Some(s) => if s.len() == 0 {
            Pos { x: 0, y: 0 }
        } else {
            spec_pos_pow(spec_mean(s), avg_damp)
        },
        None => Pos { x: 0, y: 0 },
    }
}

/// What each strategy returns, as a single function of its inputs.
pub open spec fn spec_target(
    mode: TargetMode,
    p: TargetParams,
    seed: u32,
    scale: int,
    elapsed: int,
    prev: Pos,
    newest: Option<Seq<Pos>>,
    pointer: Pos,
) -> Pos {
    match mode {
        TargetMode::Circle => spec_circle(p.radius as int, p.omega as int, elapsed),
        TargetMode::FigureEight => spec_eight(p.radius as int, p.omega as int, elapsed),
        TargetMode::NoiseDrift => spec_drift(seed, scale, prev, elapsed, p.drift_step as int,
            p.drift_damp as int),
        TargetMode::Average => spec_average(newest, p.avg_damp as int),
        TargetMode::Pointer => pointer,
    }
}

/// The orbit angle, with the bound the trig functions need.
fn theta_of(elapsed: i64, omega: i64) -> (r: i64)
    requires
        0 <= elapsed <= TIME_LIMIT,
        -OMEGA_LIMIT <= omega <= OMEGA_LIMIT,
    ensures
        r == spec_theta(elapsed as int, omega as int),
        -100_000_000_000 <= r <= 100_000_000_000,
{
    proof {
        assert(crate::fixed::spec_abs(elapsed as int * omega as int) <= 100_000_000_000_000int)
            by (nonlinear_arith)
            requires
                0 <= elapsed as int <= 1_000_000_000int,
                -100_000int <= omega as int <= 100_000int,
        ;
        assert(crate::fixed::spec_abs(elapsed as int * omega as int) / 1000
            <= 100_000_000_000int);
    }
    muldiv(elapsed, omega, FP)
}

/// The mean position of a snapshot.
pub fn mean_of(snap: &Vec<Pos>) -> (r: Pos)
    requires
        snap@.len() <= SNAP_LIMIT,
        forall|i: int| 0 <= i < snap@.len() ==> spec_in_range(#[trigger] snap@[i]),
    ensures
        r == spec_mean(snap@),
        spec_in_range(r),
{
    let n = snap.len();
    if n == 0 {
        return Pos { x: 0, y: 0 };
    }
    let mut sx: i128 = 0;
    let mut sy: i128 = 0;
    let mut i: usize = 0;
    proof {
        assert(snap@.take(0) =~= Seq::<Pos>::empty());
    }
    while i < n
        invariant
            0 <= i <= n,
            n == snap@.len(),
            n <= SNAP_LIMIT,
            forall|j: int| 0 <= j < snap@.len() ==> spec_in_range(#[trigger] snap@[j]),
            sx == spec_sum_x(snap@.take(i as int)),
            sy == spec_sum_y(snap@.take(i as int)),
            -(i as int) * (COORD_LIMIT as int) <= sx <= (i as int) * (COORD_LIMIT as int),
            -(i as int) * (COORD_LIMIT as int) <= sy <= (i as int) * (COORD_LIMIT as int),
        decreases n - i,
    {
        let p = snap[i];
        proof {
            assert(snap@.take(i as int + 1).drop_last() =~= snap@.take(i as int));
            assert(snap@.take(i as int + 1).last() == snap@[i as int]);
            assert((i as int + 1) * (COORD_LIMIT as int) == (i as int) * (COORD_LIMIT as int)
                + COORD_LIMIT) by (nonlinear_arith);
        }
        sx = sx + (p.x as i128);
        sy = sy + (p.y as i128);
        i = i + 1;
    }
    proof {
        assert(snap@.take(n as int) =~= snap@);
        assert((n as int) * (COORD_LIMIT as int) <= SUM_LIMIT) by (nonlinear_arith)
            requires
                0 <= n as int <= 1_000_000int,
        ;
    }
    Pos { x: tdiv128(sx, n as i64), y: tdiv128(sy, n as i64) }
}

/// Compute the target for the selected strategy. A pure function of the
/// arguments: nothing here reads or writes agent state.
pub fn compute_target(
    mode: TargetMode,
    p: &TargetParams,
    noise: &NoiseField,
    elapsed: i64,
    prev: Pos,
    newest: Option<&Vec<Pos>>,
    pointer: Pos,
) -> (r: Pos)
    requires
        spec_params_wf(*p),
        noise.wf(),
        0 <= elapsed <= TIME_LIMIT,
        spec_in_range(prev),
        spec_in_range(pointer),
        newest matches Some(v) ==> v@.len() <= SNAP_LIMIT && forall|i: int|
            0 <= i < v@.len() ==> spec_in_range(#[trigger] v@[i]),
    ensures
        r == spec_target(mode, *p, noise.seed, noise.scale as int, elapsed as int, prev,
            match newest {
                Some(v) => Some(v@),
                None => None,
            }, pointer),
        spec_in_range(r),
{
    match mode {
        TargetMode::Circle => {
            let theta = theta_of(elapsed, p.omega);
            Pos { x: muldiv(p.radius, cos_fp(theta), FP), y: muldiv(p.radius, sin_fp(theta), FP) }
        },
        TargetMode::FigureEight => {
            let theta = theta_of(elapsed, p.omega);
            let x = muldiv(p.radius, sin_fp(2 * theta), 2 * FP);
            Pos { x: -x, y: muldiv(p.radius, sin_fp(theta), FP) }
        },
        TargetMode::NoiseDrift => {
            let raw = noise.sample(prev.x, prev.y, elapsed);
            let step = Pos {
                x: muldiv(cos_fp(raw), p.drift_step, FP),
                y: muldiv(sin_fp(raw), p.drift_step, FP),
            };
            prev.add(step).pow(p.drift_damp)
        },
        TargetMode::Average => {
            match newest {
                Some(v) => {
                    if v.len() == 0 {
                        Pos { x: 0, y: 0 }
                    } else {
                        mean_of(v).pow(p.avg_damp)
                    }
                },
                None => Pos { x: 0, y: 0 },
            }
        },
        TargetMode::Pointer => pointer,
    }
}

} // verus!
