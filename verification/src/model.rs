//! The simulation driver: configuration, the seeded generator and noise
//! field, the agent population, the history window, and the per-tick
//! pipeline — target strategy, bulk agent update, history push. The whole
//! post-tick state is a pure function of the prior state and the tick's
//! inputs, which is what makes runs reproducible.

use vstd::prelude::*;
use crate::agent::{
    Agent, SpawnArea, spec_agent_wf, spec_new_agent, spec_spawn_fits, spec_update1, spec_update2,
    spec_repel, spec_walk,
};
use crate::bbox::{BoundingBox, MAX_DIM};
use crate::errors::ConfigurationError;
use crate::fixed::COORD_LIMIT;
use crate::history::{HistoryBuffer, spec_push};
use crate::noise::NoiseField;
use crate::pos::{Pos, spec_in_range};
use crate::rng::{SimRng, spec_seed_state};
use crate::target::{
    TargetMode, TargetParams, TIME_LIMIT, spec_params_wf, spec_target, compute_target,
};

verus! {

/// Largest population the simulation accepts.
pub const AGENT_LIMIT: usize = 1_000_000;

/// The color mapping the renderer applies; never read by the motion math.
#[derive(Clone, Copy, PartialEq, Eq, Structural, Debug)]
pub enum ColorMode {
    White,
    RedBlue,
    HueRotate,
}

/// Which per-tick update rule the population runs.
#[derive(Clone, Copy, PartialEq, Eq, Structural, Debug)]
pub enum MotionMode {
    /// Noise steering and target seeking, with a per-agent sliding phase.
    Flow,
    /// Noise steering and target seeking with finite lifetimes and
    /// respawn, phased by global time.
    Lifetime,
    /// Mutual and boundary inverse-square repulsion, for
    /// tessellation-feeding populations.
    Repulsion,
    /// A heading random walk that turns around at the box edges.
    Walk,
}

/// The construction-time configuration of the simulation.
#[derive(Clone, Copy, PartialEq, Eq, Structural, Debug)]
pub struct SimConfig {
    pub agent_count: usize,
    pub seed: u32,
    pub noise_scale: i64,
    pub step_size: i64,
    pub accel: i64,
    pub respawn_step: i64,
    pub history_capacity: usize,
    pub spawn: SpawnArea,
    pub motion: MotionMode,
    pub target: TargetParams,
    pub site_scalar: i64,
    pub bound_scalar: i64,
}

pub open spec fn spec_config_wf(c: SimConfig) -> bool {
    &&& c.agent_count <= AGENT_LIMIT
    &&& 1 <= c.noise_scale <= COORD_LIMIT
    &&& -COORD_LIMIT <= c.step_size <= COORD_LIMIT
    &&& -COORD_LIMIT <= c.accel <= COORD_LIMIT
    &&& -COORD_LIMIT <= c.respawn_step <= COORD_LIMIT
    &&& spec_params_wf(c.target)
    &&& -COORD_LIMIT <= c.site_scalar <= COORD_LIMIT
    &&& -COORD_LIMIT <= c.bound_scalar <= COORD_LIMIT
}

/// The positions of a population, in order.
pub open spec fn spec_positions(agents: Seq<Agent>) -> Seq<Pos> {
    Seq::new(agents.len(), |i: int| agents[i].pos)
}

/// A history snapshot the averaging strategy can consume.
pub open spec fn spec_snap_wf(s: Seq<Pos>) -> bool {
    &&& s.len() <= AGENT_LIMIT
    &&& forall|i: int| 0 <= i < s.len() ==> spec_in_range(#[trigger] s[i])
}

/// The population built from generator state `s`, and the state left.
pub open spec fn spec_build_agents(
    s: u64,
    win: BoundingBox,
    area: SpawnArea,
    step: i64,
    n: nat,
) -> (Seq<Agent>, u64)
    decreases n,
{
    if n == 0 {
        (Seq::<Agent>::empty(), s)
    } else {
        let (pre, s1) = spec_build_agents(s, win, area, step, (n - 1) as nat);
        let (a, s2) = spec_new_agent(s1, win, area, step);
        (pre.push(a), s2)
    }
}

/// The flow update applied to every agent independently.
pub open spec fn spec_flow_agents(
    agents: Seq<Agent>,
    seed: u32,
    scale: int,
    target: Pos,
    accel: int,
) -> Seq<Agent> {
    Seq::new(agents.len(), |i: int| spec_update1(agents[i], seed, scale, target, accel))
}

/// The lifetime update applied in order, threading the generator.
pub open spec fn spec_lifetime_agents(
    agents: Seq<Agent>,
    s: u64,
    seed: u32,
    scale: int,
    target: Pos,
    win: BoundingBox,
    elapsed: int,
    delta: int,
    accel: int,
    respawn_step: i64,
) -> (Seq<Agent>, u64)
    decreases agents.len(),
{
    if agents.len() == 0 {
        (Seq::<Agent>::empty(), s)
    } else {
        let (pre, s1) = spec_lifetime_agents(agents.drop_last(), s, seed, scale, target, win,
            elapsed, delta, accel, respawn_step);
        let (a2, s2) = spec_update2(agents.last(), s1, seed, scale, target, win, elapsed, delta,
            accel, respawn_step);
        (pre.push(a2), s2)
    }
}

/// The walking update applied in order, threading the generator.
pub open spec fn spec_walk_agents(agents: Seq<Agent>, s: u64, win: BoundingBox) -> (
    Seq<Agent>,
    u64,
)
    decreases agents.len(),
{
    if agents.len() == 0 {
        (Seq::<Agent>::empty(), s)
    } else {
        let (pre, s1) = spec_walk_agents(agents.drop_last(), s, win);
        let (a2, s2) = spec_walk(agents.last(), s1, win);
        (pre.push(a2), s2)
    }
}

/// The repulsion update applied to every agent against the shared
/// previous-tick site snapshot.
pub open spec fn spec_repel_agents(
    agents: Seq<Agent>,
    sites: Seq<Pos>,
    win: BoundingBox,
    site_scalar: int,
    bound_scalar: int,
) -> Seq<Agent> {
    Seq::new(agents.len(), |i: int| spec_repel(agents[i], sites, win, site_scalar, bound_scalar))
}

/// The whole mutable state of a simulation, as one mathematical value.
#[verifier::ext_equal]
pub struct ModelState {
    pub agents: Seq<Agent>,
    pub rng: u64,
    pub noise: NoiseField,
    pub win: BoundingBox,
    pub target: Pos,
    pub pointer: Pos,
    pub history: Seq<Seq<Pos>>,
    pub elapsed: int,
}

/// What one tick does to the state: adopt the frame's rectangle, resolve
/// the pointer, advance time, compute the target from the previous
/// history, run the population update, and push the fresh positions into
/// the window. A zero or negative delta is a no-op tick, never an error.
pub open spec fn spec_tick(
    st: ModelState,
    cfg: SimConfig,
    mode: TargetMode,
    delta: int,
    win: BoundingBox,
    pointer: Option<Pos>,
) -> ModelState {
    if delta <= 0 {
        st
    } else {
        let ptr = match pointer {
            Some(p) => p,
            None => st.pointer,
        };
        let elapsed2 = if st.elapsed + delta > TIME_LIMIT as int {
            TIME_LIMIT as int
        } else {
            st.elapsed + delta
        };
        let newest = if st.history.len() > 0 {
            Some(st.history.last())
        } else {
            None
        };
        let tgt = spec_target(mode, cfg.target, st.noise.seed, st.noise.scale as int, elapsed2,
            st.target, newest, ptr);
        let (agents2, rng2) = match cfg.motion {
            MotionMode::Flow => (
                spec_flow_agents(st.agents, st.noise.seed, st.noise.scale as int, tgt,
                    cfg.accel as int),
                st.rng,
            ),
            MotionMode::Lifetime => spec_lifetime_agents(st.agents, st.rng, st.noise.seed,
                st.noise.scale as int, tgt, win, elapsed2, delta, cfg.accel as int,
                cfg.respawn_step),
            MotionMode::Repulsion => (
                spec_repel_agents(st.agents, spec_positions(st.agents), win,
                    cfg.site_scalar as int, cfg.bound_scalar as int),
                st.rng,
            ),
            MotionMode::Walk => spec_walk_agents(st.agents, st.rng, win),
        };
        ModelState {
            agents: agents2,
            rng: rng2,
            noise: st.noise,
            win: win,
            target: tgt,
            pointer: ptr,
            history: spec_push(st.history, cfg.history_capacity as int, spec_positions(agents2)),
            elapsed: elapsed2,
        }
    }
}

/// What a tick hands to the renderer.
pub struct TickOutput {
    pub agent_positions: Vec<Pos>,
}

/// The positions of a population, in order.
pub fn positions_of(agents: &Vec<Agent>) -> (r: Vec<Pos>)
    ensures
        r@ == spec_positions(agents@),
{
    let n = agents.len();
    let mut out: Vec<Pos> = Vec::new();
    let mut i: usize = 0;
    while i < n
        invariant
            0 <= i <= n,
            n == agents@.len(),
            out@.len() == i,
            forall|j: int| 0 <= j < i ==> out@[j] == agents@[j].pos,
        decreases n - i,
    {
        let p = agents[i].pos;
        out.push(p);
        i = i + 1;
    }
    proof {
        assert(out@ =~= spec_positions(agents@));
    }
    out
}

/// Run the flow update over the whole population. The agents are
/// independent: each new agent is a function of its own prior state alone.
pub fn flow_all(agents: &mut Vec<Agent>, noise: &NoiseField, target: Pos, accel: i64)
    requires
        noise.wf(),
        spec_in_range(target),
        -COORD_LIMIT <= accel <= COORD_LIMIT,
        forall|i: int| 0 <= i < old(agents)@.len() ==> spec_agent_wf(#[trigger] old(agents)@[i]),
    ensures
        final(agents)@ == spec_flow_agents(old(agents)@, noise.seed, noise.scale as int, target,
            accel as int),
        final(agents)@.len() == old(agents)@.len(),
        forall|i: int| 0 <= i < final(agents)@.len() ==> spec_agent_wf(#[trigger] final(agents)@[i]),
{
    let n = agents.len();
    let mut i: usize = 0;
    while i < n
        invariant
            0 <= i <= n,
            n == agents@.len(),
            n == old(agents)@.len(),
            noise.wf(),
            spec_in_range(target),
            -COORD_LIMIT <= accel <= COORD_LIMIT,
            forall|j: int| i <= j < n ==> agents@[j] == old(agents)@[j],
            forall|j: int|
                0 <= j < i ==> agents@[j] == spec_update1(old(agents)@[j], noise.seed,
                    noise.scale as int, target, accel as int),
            forall|j: int| 0 <= j < old(agents)@.len() ==> spec_agent_wf(
                #[trigger] old(agents)@[j],
            ),
            forall|j: int| 0 <= j < n ==> spec_agent_wf(#[trigger] agents@[j]),
        decreases n - i,
    {
        let mut a = agents[i];
        a.update1(noise, target, accel);
        agents.set(i, a);
        i = i + 1;
    }
    proof {
        assert(agents@ =~= spec_flow_agents(old(agents)@, noise.seed, noise.scale as int, target,
            accel as int));
    }
}

/// Run the lifetime update over the whole population in order, threading
/// the generator through the respawns.
pub fn lifetime_all(
    agents: &mut Vec<Agent>,
    rng: &mut SimRng,
    noise: &NoiseField,
    target: Pos,
    win: &BoundingBox,
    elapsed: i64,
    delta: i64,
    accel: i64,
    respawn_step: i64,
)
    requires
        noise.wf(),
        win.wf(),
        spec_in_range(target),
        0 <= elapsed <= COORD_LIMIT,
        -COORD_LIMIT <= delta <= COORD_LIMIT,
        -COORD_LIMIT <= accel <= COORD_LIMIT,
        -COORD_LIMIT <= respawn_step <= COORD_LIMIT,
        forall|i: int| 0 <= i < old(agents)@.len() ==> spec_agent_wf(#[trigger] old(agents)@[i]),
    ensures
        final(agents)@ == spec_lifetime_agents(old(agents)@, old(rng).state, noise.seed,
            noise.scale as int, target, *win, elapsed as int, delta as int, accel as int,
            respawn_step).0,
        final(rng).state == spec_lifetime_agents(old(agents)@, old(rng).state, noise.seed,
            noise.scale as int, target, *win, elapsed as int, delta as int, accel as int,
            respawn_step).1,
        final(agents)@.len() == old(agents)@.len(),
        forall|i: int| 0 <= i < final(agents)@.len() ==> spec_agent_wf(#[trigger] final(agents)@[i]),
{
    let n = agents.len();
    let mut i: usize = 0;
    proof {
        assert(old(agents)@.take(0) =~= Seq::<Agent>::empty());
    }
    while i < n
        invariant
            0 <= i <= n,
            n == agents@.len(),
            n == old(agents)@.len(),
            noise.wf(),
            win.wf(),
            spec_in_range(target),
            0 <= elapsed <= COORD_LIMIT,
            -COORD_LIMIT <= delta <= COORD_LIMIT,
            -COORD_LIMIT <= accel <= COORD_LIMIT,
            -COORD_LIMIT <= respawn_step <= COORD_LIMIT,
            forall|j: int| i <= j < n ==> agents@[j] == old(agents)@[j],
            agents@.take(i as int) == spec_lifetime_agents(old(agents)@.take(i as int),
                old(rng).state, noise.seed, noise.scale as int, target, *win, elapsed as int,
                delta as int, accel as int, respawn_step).0,
            rng.state == spec_lifetime_agents(old(agents)@.take(i as int), old(rng).state,
                noise.seed, noise.scale as int, target, *win, elapsed as int, delta as int,
                accel as int, respawn_step).1,
            forall|j: int| 0 <= j < old(agents)@.len() ==> spec_agent_wf(
                #[trigger] old(agents)@[j],
            ),
            forall|j: int| 0 <= j < n ==> spec_agent_wf(#[trigger] agents@[j]),
        decreases n - i,
    {
        let ghost pre_view = agents@;
        let mut a = agents[i];
        a.update2(rng, noise, target, win, elapsed, delta, accel, respawn_step);
        agents.set(i, a);
        proof {
            assert(old(agents)@.take(i as int + 1).drop_last() =~= old(agents)@.take(i as int));
            assert(old(agents)@.take(i as int + 1).last() == old(agents)@[i as int]);
            assert(agents@.take(i as int) =~= pre_view.take(i as int));
            assert(agents@.take(i as int + 1) =~= agents@.take(i as int).push(a));
        }
        i = i + 1;
    }
    proof {
        assert(agents@.take(n as int) =~= agents@);
        assert(old(agents)@.take(n as int) =~= old(agents)@);
    }
}

/// Run the walking update over the whole population in order, threading
/// the generator through the heading jitters.
pub fn walk_all(agents: &mut Vec<Agent>, rng: &mut SimRng, win: &BoundingBox)
    requires
        win.wf(),
        forall|i: int| 0 <= i < old(agents)@.len() ==> spec_agent_wf(#[trigger] old(agents)@[i]),
    ensures
        final(agents)@ == spec_walk_agents(old(agents)@, old(rng).state, *win).0,
        final(rng).state == spec_walk_agents(old(agents)@, old(rng).state, *win).1,
        final(agents)@.len() == old(agents)@.len(),
        forall|i: int| 0 <= i < final(agents)@.len() ==> spec_agent_wf(#[trigger] final(agents)@[i]),
{
    let n = agents.len();
    let mut i: usize = 0;
    proof {
        assert(old(agents)@.take(0) =~= Seq::<Agent>::empty());
    }
    while i < n
        invariant
            0 <= i <= n,
            n == agents@.len(),
            n == old(agents)@.len(),
            win.wf(),
            forall|j: int| i <= j < n ==> agents@[j] == old(agents)@[j],
            agents@.take(i as int) == spec_walk_agents(old(agents)@.take(i as int),
                old(rng).state, *win).0,
            rng.state == spec_walk_agents(old(agents)@.take(i as int), old(rng).state, *win).1,
            forall|j: int| 0 <= j < old(agents)@.len() ==> spec_agent_wf(
                #[trigger] old(agents)@[j],
            ),
            forall|j: int| 0 <= j < n ==> spec_agent_wf(#[trigger] agents@[j]),
        decreases n - i,
    {
        let ghost pre_view = agents@;
        let mut a = agents[i];
        a.walk(rng, win);
        agents.set(i, a);
        proof {
            assert(old(agents)@.take(i as int + 1).drop_last() =~= old(agents)@.take(i as int));
            assert(old(agents)@.take(i as int + 1).last() == old(agents)@[i as int]);
            assert(agents@.take(i as int) =~= pre_view.take(i as int));
            assert(agents@.take(i as int + 1) =~= agents@.take(i as int).push(a));
        }
        i = i + 1;
    }
    proof {
        assert(agents@.take(n as int) =~= agents@);
        assert(old(agents)@.take(n as int) =~= old(agents)@);
    }
}

/// Run the repulsion update over the whole population against a shared
/// snapshot of this tick's starting positions: no agent reads another's
/// partially-updated state.
pub fn repel_all(agents: &mut Vec<Agent>, win: &BoundingBox, site_scalar: i64, bound_scalar: i64)
    requires
        win.wf(),
        -COORD_LIMIT <= site_scalar <= COORD_LIMIT,
        -COORD_LIMIT <= bound_scalar <= COORD_LIMIT,
        forall|i: int| 0 <= i < old(agents)@.len() ==> spec_agent_wf(#[trigger] old(agents)@[i]),
    ensures
        final(agents)@ == spec_repel_agents(old(agents)@, spec_positions(old(agents)@), *win,
            site_scalar as int, bound_scalar as int),
        final(agents)@.len() == old(agents)@.len(),
        forall|i: int| 0 <= i < final(agents)@.len() ==> spec_agent_wf(#[trigger] final(agents)@[i]),
{
    let sites = positions_of(agents);
    proof {
        assert(forall|i: int|
            0 <= i < sites@.len() ==> spec_in_range(#[trigger] sites@[i])) by {
            assert(forall|i: int|
                0 <= i < sites@.len() ==> #[trigger] sites@[i] == old(agents)@[i].pos);
        }
    }
    let n = agents.len();
    let mut i: usize = 0;
    while i < n
        invariant
            0 <= i <= n,
            n == agents@.len(),
            n == old(agents)@.len(),
            win.wf(),
            -COORD_LIMIT <= site_scalar <= COORD_LIMIT,
            -COORD_LIMIT <= bound_scalar <= COORD_LIMIT,
            sites@ == spec_positions(old(agents)@),
            forall|j: int| 0 <= j < sites@.len() ==> spec_in_range(#[trigger] sites@[j]),
            forall|j: int| i <= j < n ==> agents@[j] == old(agents)@[j],
            forall|j: int|
                0 <= j < i ==> agents@[j] == spec_repel(old(agents)@[j], sites@, *win,
                    site_scalar as int, bound_scalar as int),
            forall|j: int| 0 <= j < old(agents)@.len() ==> spec_agent_wf(
                #[trigger] old(agents)@[j],
            ),
            forall|j: int| 0 <= j < n ==> spec_agent_wf(#[trigger] agents@[j]),
        decreases n - i,
    {
        let mut a = agents[i];
        a.repel(&sites, win, site_scalar, bound_scalar);
        agents.set(i, a);
        i = i + 1;
    }
    proof {
        assert(agents@ =~= spec_repel_agents(old(agents)@, spec_positions(old(agents)@), *win,
            site_scalar as int, bound_scalar as int));
    }
}

/// The simulation driver.
pub struct Model {
    pub cfg: SimConfig,
    pub target_mode: TargetMode,
    pub color_mode: ColorMode,
    pub rng: SimRng,
    pub noise: NoiseField,
    pub agents: Vec<Agent>,
    pub win: BoundingBox,
    pub target: Pos,
    pub pointer: Pos,
    pub history: HistoryBuffer,
    pub elapsed: i64,
}

impl Model {
    /// The mutable state as one value.
    pub open spec fn state(&self) -> ModelState {
        ModelState {
            agents: self.agents@,
            rng: self.rng.state,
            noise: self.noise,
            win: self.win,
            target: self.target,
            pointer: self.pointer,
            history: self.history.snapshots(),
            elapsed: self.elapsed as int,
        }
    }

    /// The invariant every constructed simulation keeps.
    pub open spec fn wf(&self) -> bool {
        &&& spec_config_wf(self.cfg)
        &&& self.cfg.agent_count >= 1
        &&& self.agents@.len() == self.cfg.agent_count
        &&& forall|i: int| 0 <= i < self.agents@.len() ==> spec_agent_wf(#[trigger] self.agents@[i])
        &&& self.noise.wf()
        &&& self.win.wf()
        &&& spec_spawn_fits(self.cfg.spawn, self.win)
        &&& spec_in_range(self.target)
        &&& spec_in_range(self.pointer)
        &&& self.history.wf()
        &&& self.history.spec_cap() == self.cfg.history_capacity
        &&& forall|i: int|
            0 <= i < self.history.snapshots().len() ==> spec_snap_wf(
                #[trigger] self.history.snapshots()[i],
            )
        &&& 0 <= self.elapsed <= TIME_LIMIT
    }

    /// Build a population of `n` fresh agents, advancing the generator.
    pub fn build_agents(
        rng: &mut SimRng,
        win: &BoundingBox,
        area: SpawnArea,
        step_size: i64,
        n: usize,
    ) -> (r: Vec<Agent>)
        requires
            win.wf(),
            spec_spawn_fits(area, *win),
            -COORD_LIMIT <= step_size <= COORD_LIMIT,
            n <= AGENT_LIMIT,
        ensures
            r@ == spec_build_agents(old(rng).state, *win, area, step_size, n as nat).0,
            final(rng).state == spec_build_agents(old(rng).state, *win, area, step_size,
                n as nat).1,
            r@.len() == n,
            forall|i: int| 0 <= i < r@.len() ==> spec_agent_wf(#[trigger] r@[i]),
    {
        let mut out: Vec<Agent> = Vec::new();
        let mut i: usize = 0;
        while i < n
            invariant
                0 <= i <= n,
                win.wf(),
                spec_spawn_fits(area, *win),
                -COORD_LIMIT <= step_size <= COORD_LIMIT,
                out@.len() == i,
                out@ == spec_build_agents(old(rng).state, *win, area, step_size, i as nat).0,
                rng.state == spec_build_agents(old(rng).state, *win, area, step_size,
                    i as nat).1,
                forall|j: int| 0 <= j < out@.len() ==> spec_agent_wf(#[trigger] out@[j]),
            decreases n - i,
        {
            let a = Agent::new(rng, win, area, step_size);
            out.push(a);
            i = i + 1;
        }
        out
    }

    /// Build a simulation, rejecting exactly a bad rectangle, an empty
    /// population, or a zero history capacity — in that order.
    pub fn new(cfg: SimConfig, width: i64, height: i64) -> (r: Result<Model, ConfigurationError>)
        requires
            spec_config_wf(cfg),
            width <= MAX_DIM,
            height <= MAX_DIM,
            (width >= 1 && height >= 1) ==> spec_spawn_fits(cfg.spawn,
                BoundingBox { width, height }),
        ensures
            r is Ok <==> (width >= 1 && height >= 1 && cfg.agent_count >= 1
                && cfg.history_capacity >= 1),
            (width < 1 || height < 1) ==> r == Result::<Model, ConfigurationError>::Err(
                ConfigurationError::NonPositiveBounds,
            ),
            (width >= 1 && height >= 1 && cfg.agent_count == 0) ==> r == Result::<
                Model,
                ConfigurationError,
            >::Err(ConfigurationError::NoAgents),
            (width >= 1 && height >= 1 && cfg.agent_count >= 1 && cfg.history_capacity == 0)
                ==> r == Result::<Model, ConfigurationError>::Err(
                ConfigurationError::NonPositiveCapacity,
            ),
            r matches Ok(m) ==> m.wf() && m.cfg == cfg && m.target_mode == TargetMode::Circle
                && m.color_mode == ColorMode::White && m.win == (BoundingBox { width, height })
                && m.noise == (NoiseField { seed: cfg.seed, scale: cfg.noise_scale })
                && m.agents@ == spec_build_agents(spec_seed_state(cfg.seed),
                BoundingBox { width, height }, cfg.spawn, cfg.step_size,
                cfg.agent_count as nat).0 && m.rng.state == spec_build_agents(
                spec_seed_state(cfg.seed), BoundingBox { width, height }, cfg.spawn,
                cfg.step_size, cfg.agent_count as nat).1 && m.target == (Pos { x: 0, y: 0 })
                && m.pointer == (Pos { x: 0, y: 0 }) && m.history.snapshots() == Seq::<
                Seq<Pos>,
            >::empty() && m.elapsed == 0,
    {
        let win = match BoundingBox::new(width, height) {
            Ok(w) => w,
            Err(e) => {
                return Err(e);
            },
        };
        if cfg.agent_count == 0 {
            return Err(ConfigurationError::NoAgents);
        }
        let history = match HistoryBuffer::new(cfg.history_capacity) {
            Ok(h) => h,
            Err(e) => {
                return Err(e);
            },
        };
        let mut rng = SimRng::new(cfg.seed);
        let noise = NoiseField::new(cfg.seed, cfg.noise_scale);
        let agents = Model::build_agents(&mut rng, &win, cfg.spawn, cfg.step_size,
            cfg.agent_count);
        Ok(
            Model {
                cfg,
                target_mode: TargetMode::Circle,
                color_mode: ColorMode::White,
                rng,
                noise,
                agents,
                win,
                target: Pos { x: 0, y: 0 },
                pointer: Pos { x: 0, y: 0 },
                history,
                elapsed: 0,
            },
        )
    }

    /// The current agent positions, in population order.
    pub fn get_sites(&self) -> (r: Vec<Pos>)
        ensures
            r@ == spec_positions(self.agents@),
    {
        let n = self.agents.len();
        let mut out: Vec<Pos> = Vec::new();
        let mut i: usize = 0;
        while i < n
            invariant
                0 <= i <= n,
                n == self.agents@.len(),
                out@.len() == i,
                forall|j: int| 0 <= j < i ==> out@[j] == self.agents@[j].pos,
            decreases n - i,
        {
            let p = self.agents[i].pos;
            out.push(p);
            i = i + 1;
        }
        proof {
            assert(out@ =~= spec_positions(self.agents@));
        }
        out
    }

    /// The current agent positions; an alias kept for renderers.
    pub fn _agents_pos(&self) -> (r: Vec<Pos>)
        ensures
            r@ == spec_positions(self.agents@),
    {
        self.get_sites()
    }

    /// Replace the whole population with fresh agents; nothing else moves.
    pub fn reset_agents(&mut self)
        requires
            old(self).wf(),
        ensures
            final(self).wf(),
            final(self).agents@ == spec_build_agents(old(self).rng.state, old(self).win,
                old(self).cfg.spawn, old(self).cfg.step_size,
                old(self).cfg.agent_count as nat).0,
            final(self).rng.state == spec_build_agents(old(self).rng.state, old(self).win,
                old(self).cfg.spawn, old(self).cfg.step_size,
                old(self).cfg.agent_count as nat).1,
            final(self).cfg == old(self).cfg,
            final(self).target_mode == old(self).target_mode,
            final(self).color_mode == old(self).color_mode,
            final(self).noise == old(self).noise,
            final(self).win == old(self).win,
            final(self).target == old(self).target,
            final(self).pointer == old(self).pointer,
            final(self).history == old(self).history,
            final(self).elapsed == old(self).elapsed,
    {
        let fresh = Model::build_agents(&mut self.rng, &self.win, self.cfg.spawn,
            self.cfg.step_size, self.cfg.agent_count);
        self.agents = fresh;
    }

    /// Select the target strategy; a pure state setter.
    pub fn set_target_mode(&mut self, mode: TargetMode)
        requires
            old(self).wf(),
        ensures
            final(self).wf(),
            final(self).target_mode == mode,
            final(self).state() == old(self).state(),
            final(self).cfg == old(self).cfg,
            final(self).color_mode == old(self).color_mode,
    {
        self.target_mode = mode;
    }

    /// Select the color mapping; consumed only by the renderer.
    pub fn set_color_mode(&mut self, mode: ColorMode)
        requires
            old(self).wf(),
        ensures
            final(self).wf(),
            final(self).color_mode == mode,
            final(self).state() == old(self).state(),
            final(self).cfg == old(self).cfg,
            final(self).target_mode == old(self).target_mode,
    {
        self.color_mode = mode;
    }

    /// Replace the noise seed: the field decorrelates, agents stay put.
    pub fn reseed_noise(&mut self, seed: u32)
        requires
            old(self).wf(),
        ensures
            final(self).wf(),
            final(self).state() == (ModelState {
                noise: NoiseField { seed, scale: old(self).noise.scale },
                ..old(self).state()
            }),
            final(self).cfg == old(self).cfg,
            final(self).target_mode == old(self).target_mode,
            final(self).color_mode == old(self).color_mode,
    {
        self.noise.reseed(seed);
        proof {
            assert(self.state() =~= (ModelState {
                noise: NoiseField { seed, scale: old(self).noise.scale },
                ..old(self).state()
            }));
        }
    }

    /// One simulation tick: resolve the pointer, advance time, compute
    /// the target from the previous history, run the population update,
    /// push the fresh positions into the window, and hand the positions
    /// out. The new state is a pure function of the old state and the
    /// tick's inputs; a zero or negative delta changes nothing.
    pub fn tick(&mut self, delta: i64, win: &BoundingBox, pointer: Option<Pos>) -> (out:
        TickOutput)
        requires
            old(self).wf(),
            win.wf(),
            spec_spawn_fits(old(self).cfg.spawn, *win),
            -COORD_LIMIT <= delta <= COORD_LIMIT,
            pointer matches Some(p) ==> spec_in_range(p),
        ensures
            final(self).wf(),
            final(self).state() == spec_tick(old(self).state(), old(self).cfg,
                old(self).target_mode, delta as int, *win, pointer),
            final(self).cfg == old(self).cfg,
            final(self).target_mode == old(self).target_mode,
            final(self).color_mode == old(self).color_mode,
            out.agent_positions@ == spec_positions(final(self).agents@),
    {
        if delta <= 0 {
            let positions = self.get_sites();
            return TickOutput { agent_positions: positions };
        }
        self.win = *win;
        match pointer {
            Some(p) => {
                self.pointer = p;
            },
            None => {},
        }
        let sum = self.elapsed + delta;
        self.elapsed = if sum > TIME_LIMIT {
            TIME_LIMIT
        } else {
            sum
        };
        let newest = self.history.newest();
        proof {
            let snaps = old(self).history.snapshots();
            if snaps.len() > 0 {
                assert(spec_snap_wf(snaps[snaps.len() - 1]));
            }
        }
        let tgt = compute_target(self.target_mode, &self.cfg.target, &self.noise, self.elapsed,
            self.target, newest, self.pointer);
        self.target = tgt;
        match self.cfg.motion {
            MotionMode::Flow => {
                flow_all(&mut self.agents, &self.noise, tgt, self.cfg.accel);
            },
            MotionMode::Lifetime => {
                lifetime_all(&mut self.agents, &mut self.rng, &self.noise, tgt, &self.win,
                    self.elapsed, delta, self.cfg.accel, self.cfg.respawn_step);
            },
            MotionMode::Repulsion => {
                repel_all(&mut self.agents, &self.win, self.cfg.site_scalar,
                    self.cfg.bound_scalar);
            },
            MotionMode::Walk => {
                walk_all(&mut self.agents, &mut self.rng, &self.win);
            },
        }
        let snap = positions_of(&self.agents);
        self.history.push(snap);
        let positions = positions_of(&self.agents);
        proof {
            let st2 = spec_tick(old(self).state(), old(self).cfg, old(self).target_mode,
                delta as int, *win, pointer);
            assert(self.state() =~~= st2);
            let snaps = old(self).history.snapshots();
            let cap = old(self).cfg.history_capacity as int;
            let fresh = spec_positions(self.agents@);
            assert(spec_snap_wf(fresh));
            assert forall|i: int|
                0 <= i < self.history.snapshots().len() implies spec_snap_wf(
                #[trigger] self.history.snapshots()[i],
            ) by {
                if i + 1 == self.history.snapshots().len() {
                    assert(self.history.snapshots()[i] == fresh);
                } else if snaps.len() < cap {
                    assert(self.history.snapshots()[i] == snaps[i]);
                    assert(spec_snap_wf(snaps[i]));
                } else {
                    assert(self.history.snapshots()[i] == snaps[i + 1]);
                    assert(spec_snap_wf(snaps[i + 1]));
                }
            }
        }
        TickOutput { agent_positions: positions }
    }

    /// Adopt a new rectangle, forget the history, and rebuild the
    /// population; rejected (leaving everything unchanged) exactly for a
    /// non-positive rectangle.
    pub fn reset(&mut self, width: i64, height: i64) -> (r: Result<(), ConfigurationError>)
        requires
            old(self).wf(),
            width <= MAX_DIM,
            height <= MAX_DIM,
            (width >= 1 && height >= 1) ==> spec_spawn_fits(old(self).cfg.spawn,
                BoundingBox { width, height }),
        ensures
            final(self).wf(),
            r is Ok <==> (width >= 1 && height >= 1),
            r matches Err(e) ==> e == ConfigurationError::NonPositiveBounds && *final(self)
                == *old(self),
            r is Ok ==> final(self).win == (BoundingBox { width, height })
                && final(self).history.snapshots() == Seq::<Seq<Pos>>::empty()
                && final(self).agents@ == spec_build_agents(old(self).rng.state,
                BoundingBox { width, height }, old(self).cfg.spawn, old(self).cfg.step_size,
                old(self).cfg.agent_count as nat).0 && final(self).rng.state
                == spec_build_agents(old(self).rng.state, BoundingBox { width, height },
                old(self).cfg.spawn, old(self).cfg.step_size, old(self).cfg.agent_count as nat).1
                && final(self).cfg == old(self).cfg && final(self).elapsed == old(self).elapsed
                && final(self).noise == old(self).noise && final(self).target == old(self).target
                && final(self).pointer == old(self).pointer && final(self).target_mode == old(
                self,
            ).target_mode && final(self).color_mode == old(self).color_mode,
    {
        let win = match BoundingBox::new(width, height) {
            Ok(w) => w,
            Err(e) => {
                return Err(e);
            },
        };
        self.win = win;
        self.history.clear();
        self.reset_agents();
        Ok(())
    }
}

} // verus!
