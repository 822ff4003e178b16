//! The agent motion model. One tick of an agent combines noise-based
//! steering, proportional target seeking, an optional time-to-live with a
//! full respawn on expiry, and (for tessellation-feeding populations)
//! inverse-square repulsion from the other sites and the box edges. Every
//! update is a pure function of the prior state, the noise seed and the
//! generator state, so whole runs are reproducible.

use vstd::prelude::*;
use crate::bbox::BoundingBox;
use crate::fixed::{
    FP, COORD_LIMIT, spec_add_c, spec_sub_c, spec_muldiv, spec_repel_term, add_c, sub_c, muldiv,
    repel_term,
};
use crate::noise::{NoiseField, spec_sample};
use crate::pos::{Pos, spec_in_range, spec_pos_add, spec_pos_sub, spec_pos_mul};
use crate::rng::{SimRng, spec_mix, spec_range};
use crate::trig::{TURN, HALF_TURN, spec_sin, spec_cos, sin_fp, cos_fp};

verus! {

/// Shortest fresh lifetime, in fixed-point seconds.
pub const TTL_MIN: i64 = 2000;

/// Longest fresh lifetime, in fixed-point seconds.
pub const TTL_MAX: i64 = 10000;

/// Largest fresh phase offset, in fixed point.
pub const PHASE_MAX: i64 = 4000;

/// Per-tick increment of the sliding phase coordinate.
pub const Z_STEP: i64 = 20;

/// Respawn positions are drawn from the box grown by this ratio
/// (numerator over `FP`).
pub const SPAWN_MARGIN: i64 = 1100;

/// Divisor turning elapsed time into the drifting phase coordinate.
pub const TIME_DAMP: i64 = 25;

/// Largest per-tick heading jitter of the walking update, in milli-turns.
pub const WALK_JITTER: i64 = 32;

/// How many steps ahead the walking update looks before turning around.
pub const WALK_LOOKAHEAD: i64 = 20;

/// A point agent: position, step size, heading (in milli-turns, used by
/// the walking update), optional remaining lifetime, a per-agent phase
/// offset into the noise field, the sliding phase coordinate, and the
/// previous position for trail rendering.
#[derive(Clone, Copy, PartialEq, Eq, Structural, Debug)]
pub struct Agent {
    pub pos: Pos,
    pub step_size: i64,
    pub angle: i64,
    pub ttl: Option<i64>,
    pub z_offset: i64,
    pub z: i64,
    pub prev_pos: Pos,
}

/// All agent fields within the ranges the update rules preserve.
pub open spec fn spec_agent_wf(a: Agent) -> bool {
    &&& spec_in_range(a.pos)
    &&& spec_in_range(a.prev_pos)
    &&& -COORD_LIMIT <= a.step_size <= COORD_LIMIT
    &&& -crate::trig::TURN <= a.angle <= crate::trig::TURN
    &&& -COORD_LIMIT <= a.z <= COORD_LIMIT
    &&& 0 <= a.z_offset <= COORD_LIMIT
    &&& (a.ttl matches Some(t) ==> -COORD_LIMIT <= t <= COORD_LIMIT)
}

/// Lower end of the spawn interval along one axis.
pub open spec fn spec_spawn_lo(edge: int) -> int {
    spec_muldiv(edge, SPAWN_MARGIN as int, FP as int)
}

/// Where a fresh agent is placed: exactly at the origin, anywhere in the
/// box grown by `SPAWN_MARGIN`, or anywhere in the box inset by a fixed
/// padding (so tessellation sites start strictly inside the bounds).
#[derive(Clone, Copy, PartialEq, Eq, Structural, Debug)]
pub enum SpawnArea {
    Origin,
    Grown,
    Inset(i64),
}

/// An inset padding must leave a nonempty rectangle.
pub open spec fn spec_spawn_fits(area: SpawnArea, win: BoundingBox) -> bool {
    area matches SpawnArea::Inset(p) ==> 0 <= p && p <= win.spec_right() && p <= win.spec_top()
}

/// The freshly constructed agent drawn from generator state `s`, and the
/// state the generator is left in. Draw order: x, y (skipped when placed
/// at the origin), lifetime, phase offset, heading.
pub open spec fn spec_new_agent(s: u64, win: BoundingBox, area: SpawnArea, step_size: i64) -> (
    Agent,
    u64,
) {
    let (p, s2) = match area {
        SpawnArea::Origin => (Pos { x: 0, y: 0 }, s),
        SpawnArea::Grown => {
            let x = spec_range(s, spec_spawn_lo(win.spec_left()),
                spec_spawn_lo(win.spec_right()));
            let s1 = spec_mix(s);
            let y = spec_range(s1, spec_spawn_lo(win.spec_bottom()),
                spec_spawn_lo(win.spec_top()));
            (Pos { x: x as i64, y: y as i64 }, spec_mix(s1))
        },
        SpawnArea::Inset(pad) => {
            let x = spec_range(s, win.spec_left() + pad, win.spec_right() - pad);
            let s1 = spec_mix(s);
            let y = spec_range(s1, win.spec_bottom() + pad, win.spec_top() - pad);
            (Pos { x: x as i64, y: y as i64 }, spec_mix(s1))
        },
    };
    let t = spec_range(s2, TTL_MIN as int, TTL_MAX as int);
    let s3 = spec_mix(s2);
    let zo = spec_range(s3, 0, PHASE_MAX as int);
    let s4 = spec_mix(s3);
    let ang = spec_range(s4, -(HALF_TURN as int), HALF_TURN as int);
    let s5 = spec_mix(s4);
    (
        Agent {
            pos: p,
            step_size,
            angle: ang as i64,
            ttl: Some(t as i64),
            z_offset: zo as i64,
            z: 0,
            prev_pos: p,
        },
        s5,
    )
}

/// One noise-steering plus target-seeking move: sample a steering angle at
/// the agent's position and the given phase coordinate, advance by the
/// step vector, then close a `accel/FP` fraction of the gap to the target.
pub open spec fn spec_steer(a: Agent, seed: u32, scale: int, phase: int, target: Pos, accel: int)
    -> Pos {
    let raw = spec_sample(seed, scale, a.pos.x as int, a.pos.y as int, phase);
    let step = Pos {
        x: spec_muldiv(spec_cos(raw), a.step_size as int, FP as int) as i64,
        y: spec_muldiv(spec_sin(raw), a.step_size as int, FP as int) as i64,
    };
    let p1 = spec_pos_add(a.pos, step);
    let dxy = spec_pos_sub(target, p1);
    spec_pos_add(p1, spec_pos_mul(dxy, accel))
}

/// The flow update: steer with the agent's own static-plus-sliding phase,
/// then push the sliding phase along.
pub open spec fn spec_update1(a: Agent, seed: u32, scale: int, target: Pos, accel: int) -> Agent {
    let phase = spec_add_c(a.z as int, a.z_offset as int);
    Agent {
        pos: spec_steer(a, seed, scale, phase, target, accel),
        step_size: a.step_size,
        angle: a.angle,
        ttl: a.ttl,
        z_offset: a.z_offset,
        z: spec_add_c(a.z as int, Z_STEP as int) as i64,
        prev_pos: a.prev_pos,
    }
}

/// The lifetime update. A zero or negative delta is a no-op tick that
/// changes nothing. Otherwise a respawn replaces the whole agent once its
/// lifetime has reached zero; else steer with the global drifting phase,
/// remember the previous position, and count the lifetime down.
pub open spec fn spec_update2(
    a: Agent,
    s: u64,
    seed: u32,
    scale: int,
    target: Pos,
    win: BoundingBox,
    elapsed: int,
    delta: int,
    accel: int,
    respawn_step: i64,
) -> (Agent, u64) {
    if delta <= 0 {
        (a, s)
    } else if a.ttl matches Some(t) && t <= 0 {
        spec_new_agent(s, win, SpawnArea::Grown, respawn_step)
    } else {
        let phase = spec_muldiv(elapsed, 1, TIME_DAMP as int);
        let ttl2 = match a.ttl {
            Some(t) => Some(spec_sub_c(t as int, delta) as i64),
            None => None,
        };
        (
            Agent {
                pos: spec_steer(a, seed, scale, phase, target, accel),
                step_size: a.step_size,
                angle: a.angle,
                ttl: ttl2,
                z_offset: a.z_offset,
                z: a.z,
                prev_pos: a.pos,
            },
            s,
        )
    }
}

/// One repulsion contribution to the accumulated next position: the
/// inverse-square push away from one point source, skipped on an exact
/// position match so the distance is never zero.
pub open spec fn spec_repel_once(pos: Pos, next: Pos, src: Pos, scalar: int) -> Pos {
    let dx = spec_sub_c(src.x as int, pos.x as int);
    let dy = spec_sub_c(src.y as int, pos.y as int);
    if dx == 0 && dy == 0 {
        next
    } else {
        Pos {
            x: spec_sub_c(next.x as int, spec_repel_term(dx, dy, dx, scalar)) as i64,
            y: spec_sub_c(next.y as int, spec_repel_term(dx, dy, dy, scalar)) as i64,
        }
    }
}

/// Repulsion accumulated over a sequence of sites, in order.
pub open spec fn spec_repel_sites(pos: Pos, next: Pos, sites: Seq<Pos>, scalar: int) -> Pos
    decreases sites.len(),
{
    if sites.len() == 0 {
        next
    } else {
        spec_repel_sites(pos, spec_repel_once(pos, next, sites[0], scalar), sites.drop_first(),
            scalar)
    }
}

/// The repulsion update: push away from every other site, then from the
/// four box edges (as virtual point sources on the nearest edge point).
pub open spec fn spec_repel(
    a: Agent,
    sites: Seq<Pos>,
    win: BoundingBox,
    site_scalar: int,
    bound_scalar: int,
) -> Agent {
    let n1 = spec_repel_sites(a.pos, a.pos, sites, site_scalar);
    let n2 = spec_repel_once(a.pos, n1, Pos { x: win.spec_left() as i64, y: a.pos.y },
        bound_scalar);
    let n3 = spec_repel_once(a.pos, n2, Pos { x: win.spec_right() as i64, y: a.pos.y },
        bound_scalar);
    let n4 = spec_repel_once(a.pos, n3, Pos { x: a.pos.x, y: win.spec_top() as i64 },
        bound_scalar);
    let n5 = spec_repel_once(a.pos, n4, Pos { x: a.pos.x, y: win.spec_bottom() as i64 },
        bound_scalar);
    Agent {
        pos: n5,
        step_size: a.step_size,
        angle: a.angle,
        ttl: a.ttl,
        z_offset: a.z_offset,
        z: a.z,
        prev_pos: a.pos,
    }
}

/// Bring a heading that one jitter or reflection pushed past a full turn
/// back into `[-TURN, TURN]`; a full turn is the trigonometric period, so
/// the direction is unchanged.
pub open spec fn spec_norm_angle(a: int) -> int {
    if a > TURN as int {
        a - TURN as int
    } else if a < -TURN as int {
        a + TURN as int
    } else {
        a
    }
}

/// One reflection test of the walking update: where the position a
/// lookahead of steps ahead leaves the box on the given axis, the heading
/// is reflected.
pub open spec fn spec_walk_bounce(pos: Pos, step: int, ang: int, lo: int, hi: int, vertical: bool)
    -> int {
    let c = if vertical {
        spec_sin(ang)
    } else {
        spec_cos(ang)
    };
    let here = if vertical {
        pos.y as int
    } else {
        pos.x as int
    };
    let ahead = spec_add_c(here, spec_muldiv(c * (WALK_LOOKAHEAD as int), step, FP as int));
    let flipped = if vertical {
        -ang
    } else {
        (HALF_TURN as int) - ang
    };
    if ahead < lo || ahead > hi {
        flipped
    } else {
        ang
    }
}

/// The walking update: jitter the heading, take one step along it, and
/// turn around (horizontally, then vertically) where a lookahead of steps
/// would leave the box.
pub open spec fn spec_walk(a: Agent, s: u64, win: BoundingBox) -> (Agent, u64) {
    let draw = spec_range(s, -(FP as int), FP as int);
    let s1 = spec_mix(s);
    let ang1 = a.angle + spec_muldiv(draw, WALK_JITTER as int, FP as int);
    let step = Pos {
        x: spec_muldiv(spec_cos(ang1), a.step_size as int, FP as int) as i64,
        y: spec_muldiv(spec_sin(ang1), a.step_size as int, FP as int) as i64,
    };
    let pos1 = spec_pos_add(a.pos, step);
    let st = a.step_size as int;
    let ang2 = spec_walk_bounce(pos1, st, ang1, win.spec_left(), win.spec_right(), false);
    let ang3 = spec_walk_bounce(pos1, st, ang2, win.spec_bottom(), win.spec_top(), true);
    (
        Agent {
            pos: pos1,
            step_size: a.step_size,
            angle: spec_norm_angle(ang3) as i64,
            ttl: a.ttl,
            z_offset: a.z_offset,
            z: a.z,
            prev_pos: a.pos,
        },
        s1,
    )
}

/// Executable counterpart of one reflection test.
fn walk_bounce(pos: Pos, step: i64, ang: i64, lo: i64, hi: i64, vertical: bool) -> (r: i64)
    requires
        spec_in_range(pos),
        -COORD_LIMIT <= step <= COORD_LIMIT,
        -1600 <= ang <= 1600,
        -COORD_LIMIT <= lo,
        hi <= COORD_LIMIT,
    ensures
        r == spec_walk_bounce(pos, step as int, ang as int, lo as int, hi as int, vertical),
        r == ang || (vertical && r == -ang) || (!vertical && r == HALF_TURN - ang),
{
    let c = if vertical {
        sin_fp(ang)
    } else {
        cos_fp(ang)
    };
    let here = if vertical {
        pos.y
    } else {
        pos.x
    };
    let ahead = add_c(here, muldiv(c * WALK_LOOKAHEAD, step, FP));
    let flipped = if vertical {
        -ang
    } else {
        HALF_TURN - ang
    };
    if ahead < lo || ahead > hi {
        flipped
    } else {
        ang
    }
}

/// Executable counterpart of `spec_repel_once`.
fn repel_once(pos: Pos, next: Pos, src: Pos, scalar: i64) -> (r: Pos)
    requires
        spec_in_range(pos),
        spec_in_range(next),
        spec_in_range(src),
        -COORD_LIMIT <= scalar <= COORD_LIMIT,
    ensures
        r == spec_repel_once(pos, next, src, scalar as int),
        spec_in_range(r),
{
    let dx = sub_c(src.x, pos.x);
    let dy = sub_c(src.y, pos.y);
    if dx == 0 && dy == 0 {
        next
    } else {
        let cx = repel_term(dx, dy, dx, scalar);
        let cy = repel_term(dx, dy, dy, scalar);
        Pos { x: sub_c(next.x, cx), y: sub_c(next.y, cy) }
    }
}

impl Agent {
    /// A fresh agent: placed per the spawn area, with a random lifetime in
    /// `[TTL_MIN, TTL_MAX]` and a random phase offset in `[0, PHASE_MAX]`.
    pub fn new(rng: &mut SimRng, win: &BoundingBox, area: SpawnArea, step_size: i64) -> (r: Agent)
        requires
            win.wf(),
            spec_spawn_fits(area, *win),
            -COORD_LIMIT <= step_size <= COORD_LIMIT,
        ensures
            r == spec_new_agent(old(rng).state, *win, area, step_size).0,
            final(rng).state == spec_new_agent(old(rng).state, *win, area, step_size).1,
            spec_agent_wf(r),
            r.ttl matches Some(t) && TTL_MIN <= t <= TTL_MAX,
    {
        let pos = match area {
            SpawnArea::Origin => Pos { x: 0, y: 0 },
            SpawnArea::Grown => {
                proof {
                    lemma_spawn_lo_sign(win.spec_left(), win.spec_right());
                    lemma_spawn_lo_sign(win.spec_bottom(), win.spec_top());
                }
                let xlo = muldiv(win.left(), SPAWN_MARGIN, FP);
                let xhi = muldiv(win.right(), SPAWN_MARGIN, FP);
                let x = rng.range_i64(xlo, xhi);
                let ylo = muldiv(win.bottom(), SPAWN_MARGIN, FP);
                let yhi = muldiv(win.top(), SPAWN_MARGIN, FP);
                let y = rng.range_i64(ylo, yhi);
                Pos { x, y }
            },
            SpawnArea::Inset(pad) => {
                let x = rng.range_i64(win.left() + pad, win.right() - pad);
                let y = rng.range_i64(win.bottom() + pad, win.top() - pad);
                Pos { x, y }
            },
        };
        let t = rng.range_i64(TTL_MIN, TTL_MAX);
        let zo = rng.range_i64(0, PHASE_MAX);
        let ang = rng.range_i64(-HALF_TURN, HALF_TURN);
        Agent { pos, step_size, angle: ang, ttl: Some(t), z_offset: zo, z: 0, prev_pos: pos }
    }

    /// The flow update: noise steering from the agent's own phase, then
    /// proportional target seeking, then a nudge of the sliding phase.
    /// With a zero step size the noise contributes nothing and the move
    /// closes exactly an `accel/FP` fraction of the gap to the target.
    pub fn update1(&mut self, noise: &NoiseField, target: Pos, accel: i64)
        requires
            noise.wf(),
            spec_agent_wf(*old(self)),
            spec_in_range(target),
            -COORD_LIMIT <= accel <= COORD_LIMIT,
        ensures
            *final(self) == spec_update1(*old(self), noise.seed, noise.scale as int, target,
                accel as int),
            spec_agent_wf(*final(self)),
    {
        let phase = add_c(self.z, self.z_offset);
        self.pos = self.steer(noise, phase, target, accel);
        self.z = add_c(self.z, Z_STEP);
    }

    /// The lifetime update. A zero or negative delta changes nothing and
    /// is never an error; a tick that finds the lifetime at or below zero
    /// respawns the whole agent, with a fresh lifetime always in
    /// `[TTL_MIN, TTL_MAX]`; any other tick steers with the global
    /// drifting phase and counts the lifetime down.
    pub fn update2(
        &mut self,
        rng: &mut SimRng,
        noise: &NoiseField,
        target: Pos,
        win: &BoundingBox,
        elapsed: i64,
        delta: i64,
        accel: i64,
        respawn_step: i64,
    )
        requires
            noise.wf(),
            win.wf(),
            spec_agent_wf(*old(self)),
            spec_in_range(target),
            0 <= elapsed <= COORD_LIMIT,
            -COORD_LIMIT <= delta <= COORD_LIMIT,
            -COORD_LIMIT <= accel <= COORD_LIMIT,
            -COORD_LIMIT <= respawn_step <= COORD_LIMIT,
    ensures
            *final(self) == spec_update2(*old(self), old(rng).state, noise.seed,
                noise.scale as int, target, *win, elapsed as int, delta as int, accel as int,
                respawn_step).0,
            final(rng).state == spec_update2(*old(self), old(rng).state, noise.seed,
                noise.scale as int, target, *win, elapsed as int, delta as int, accel as int,
                respawn_step).1,
            spec_agent_wf(*final(self)),
            delta <= 0 ==> *final(self) == *old(self),
            (delta > 0 && (old(self).ttl matches Some(t) && t <= 0)) ==> (final(self).ttl
                matches Some(t2) && TTL_MIN <= t2 <= TTL_MAX),
    {
        if delta <= 0 {
            return;
        }
        let expired = match self.ttl {
            Some(t) => t <= 0,
            None => false,
        };
        if expired {
            *self = Agent::new(rng, win, SpawnArea::Grown, respawn_step);
        } else {
            let phase = muldiv(elapsed, 1, TIME_DAMP);
            let moved = self.steer(noise, phase, target, accel);
            self.prev_pos = self.pos;
            self.pos = moved;
            self.ttl = match self.ttl {
                Some(t) => Some(sub_c(t, delta)),
                None => None,
            };
        }
    }

    /// The repulsion update: inverse-square push away from every other
    /// site and from the four box edges, computed against the positions
    /// passed in (the previous tick's snapshot), never against
    /// partially-updated state.
    pub fn repel(&mut self, sites: &Vec<Pos>, win: &BoundingBox, site_scalar: i64,
        bound_scalar: i64)
        requires
            win.wf(),
            spec_agent_wf(*old(self)),
            forall|i: int| 0 <= i < sites@.len() ==> spec_in_range(#[trigger] sites@[i]),
            -COORD_LIMIT <= site_scalar <= COORD_LIMIT,
            -COORD_LIMIT <= bound_scalar <= COORD_LIMIT,
        ensures
            *final(self) == spec_repel(*old(self), sites@, *win, site_scalar as int,
                bound_scalar as int),
            spec_agent_wf(*final(self)),
    {
        let ghost p0 = self.pos;
        let mut next = self.pos;
        let n = sites.len();
        let mut i: usize = 0;
        proof {
            assert(sites@.skip(0) =~= sites@);
        }
        while i < n
            invariant
                0 <= i <= n,
                n == sites@.len(),
                self == old(self),
                spec_in_range(next),
                spec_in_range(self.pos),
                forall|j: int| 0 <= j < sites@.len() ==> spec_in_range(#[trigger] sites@[j]),
                -COORD_LIMIT <= site_scalar <= COORD_LIMIT,
                spec_repel_sites(self.pos, next, sites@.skip(i as int), site_scalar as int)
                    == spec_repel_sites(self.pos, self.pos, sites@, site_scalar as int),
            decreases n - i,
        {
            let s = sites[i];
            proof {
                assert(sites@.skip(i as int)[0] == sites@[i as int]);
                assert(sites@.skip(i as int).drop_first() =~= sites@.skip(i as int + 1));
            }
            next = repel_once(self.pos, next, s, site_scalar);
            i = i + 1;
        }
        proof {
            assert(sites@.skip(n as int) =~= Seq::<Pos>::empty());
        }
        let left = Pos { x: win.left(), y: self.pos.y };
        next = repel_once(self.pos, next, left, bound_scalar);
        let right = Pos { x: win.right(), y: self.pos.y };
        next = repel_once(self.pos, next, right, bound_scalar);
        let top = Pos { x: self.pos.x, y: win.top() };
        next = repel_once(self.pos, next, top, bound_scalar);
        let bottom = Pos { x: self.pos.x, y: win.bottom() };
        next = repel_once(self.pos, next, bottom, bound_scalar);
        self.prev_pos = self.pos;
        self.pos = next;
    }

    /// The walking update: jitter the heading, step along it, and turn
    /// around where a lookahead of steps would leave the box.
    pub fn walk(&mut self, rng: &mut SimRng, win: &BoundingBox)
        requires
            win.wf(),
            spec_agent_wf(*old(self)),
        ensures
            *final(self) == spec_walk(*old(self), old(rng).state, *win).0,
            final(rng).state == spec_walk(*old(self), old(rng).state, *win).1,
            spec_agent_wf(*final(self)),
    {
        let draw = rng.range_i64(-FP, FP);
        proof {
            assert(crate::fixed::spec_abs(draw as int * (WALK_JITTER as int)) <= 32000)
                by (nonlinear_arith)
                requires
                    -1000 <= draw as int <= 1000,
                    WALK_JITTER == 32,
            ;
        }
        let jitter = muldiv(draw, WALK_JITTER, FP);
        proof {
            let v = draw as int * (WALK_JITTER as int);
            assert(crate::fixed::spec_abs(v) / 1000 <= 32) by (nonlinear_arith)
                requires
                    crate::fixed::spec_abs(v) <= 32000,
            ;
            assert(-32 <= crate::fixed::spec_tdiv(v, 1000) <= 32);
            assert(-32 <= jitter <= 32);
        }
        let ang1 = self.angle + jitter;
        let dirx = cos_fp(ang1);
        let diry = sin_fp(ang1);
        let step = Pos { x: muldiv(dirx, self.step_size, FP), y: muldiv(diry, self.step_size, FP) };
        let pos1 = self.pos.add(step);
        let ang2 = walk_bounce(pos1, self.step_size, ang1, win.left(), win.right(), false);
        let ang3 = walk_bounce(pos1, self.step_size, ang2, win.bottom(), win.top(), true);
        let norm = if ang3 > TURN {
            ang3 - TURN
        } else if ang3 < -TURN {
            ang3 + TURN
        } else {
            ang3
        };
        self.prev_pos = self.pos;
        self.pos = pos1;
        self.angle = norm;
    }

    /// One steering-and-seeking move; shared by the two updates.
    fn steer(&self, noise: &NoiseField, phase: i64, target: Pos, accel: i64) -> (r: Pos)
        requires
            noise.wf(),
            spec_agent_wf(*self),
            spec_in_range(target),
            -COORD_LIMIT <= phase <= COORD_LIMIT,
            -COORD_LIMIT <= accel <= COORD_LIMIT,
        ensures
            r == spec_steer(*self, noise.seed, noise.scale as int, phase as int, target,
                accel as int),
            spec_in_range(r),
    {
        let raw = noise.sample(self.pos.x, self.pos.y, phase);
        let dirx = cos_fp(raw);
        let diry = sin_fp(raw);
        let step = Pos { x: muldiv(dirx, self.step_size, FP), y: muldiv(diry, self.step_size, FP) };
        let p1 = self.pos.add(step);
        let dxy = target.sub(p1);
        p1.add(dxy.mul(accel))
    }
}

/// Scaling the spawn interval keeps its ends ordered around zero.
proof fn lemma_spawn_lo_sign(lo: int, hi: int)
    requires
        lo <= 0 <= hi,
        -COORD_LIMIT <= lo,
        hi <= COORD_LIMIT,
    ensures
        spec_spawn_lo(lo) <= 0 <= spec_spawn_lo(hi),
        -COORD_LIMIT <= spec_spawn_lo(lo),
        spec_spawn_lo(hi) <= COORD_LIMIT,
{
    assert(lo * 1100 <= 0 <= hi * 1100) by (nonlinear_arith)
        requires
            lo <= 0 <= hi,
    ;
    assert(crate::fixed::spec_abs(lo * 1100) / 1000 >= 0 && crate::fixed::spec_abs(hi * 1100)
        / 1000 >= 0);
}

} // verus!
