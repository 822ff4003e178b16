//! The system-level laws, stated over the same spec functions the
//! executable contracts use, and proved once and for all: runs are
//! deterministic in their inputs, finite lifetimes force a respawn within
//! bounded time and respawn with a fresh in-range lifetime, and the
//! history window holds exactly the most recent snapshots.

use vstd::prelude::*;
use crate::agent::{
    Agent, SpawnArea, spec_agent_wf, spec_new_agent, spec_update2, TTL_MIN, TTL_MAX,
};
use crate::bbox::BoundingBox;
use crate::fixed::COORD_LIMIT;
use crate::history::spec_push;
use crate::model::{ModelState, SimConfig, spec_tick};
use crate::pos::Pos;
use crate::target::TargetMode;

verus! {

/// A whole run: the state after every tick of the input sequences.
pub open spec fn spec_run(
    st: ModelState,
    cfg: SimConfig,
    mode: TargetMode,
    win: BoundingBox,
    deltas: Seq<int>,
    pointers: Seq<Option<Pos>>,
) -> ModelState
    decreases deltas.len(),
{
    if deltas.len() == 0 {
        st
    } else {
        spec_run(spec_tick(st, cfg, mode, deltas[0], win, pointers[0]), cfg, mode, win,
            deltas.drop_first(), pointers.drop_first())
    }
}

/// Law (determinism): one tick is a function of the prior state and the
/// tick's inputs — two runs from equal states under equal inputs agree.
/// Together with `Model::tick`'s postcondition, which pins the new state
/// to `spec_tick` of the old one, two independent executions of the same
/// configuration, seed and delta sequence produce identical positions.
pub proof fn lemma_tick_deterministic(
    a: ModelState,
    b: ModelState,
    cfg: SimConfig,
    mode: TargetMode,
    delta: int,
    win: BoundingBox,
    pointer: Option<Pos>,
)
    requires
        a == b,
    ensures
        spec_tick(a, cfg, mode, delta, win, pointer) == spec_tick(b, cfg, mode, delta, win,
            pointer),
{
}

/// Law (determinism, whole runs): equal states under equal delta and
/// pointer sequences stay equal through any number of ticks.
pub proof fn lemma_run_deterministic(
    a: ModelState,
    b: ModelState,
    cfg: SimConfig,
    mode: TargetMode,
    win: BoundingBox,
    deltas: Seq<int>,
    pointers: Seq<Option<Pos>>,
)
    requires
        a == b,
    ensures
        spec_run(a, cfg, mode, win, deltas, pointers) == spec_run(b, cfg, mode, win, deltas,
            pointers),
    decreases deltas.len(),
{
    if deltas.len() > 0 {
        lemma_run_deterministic(spec_tick(a, cfg, mode, deltas[0], win, pointers[0]),
            spec_tick(b, cfg, mode, deltas[0], win, pointers[0]), cfg, mode, win,
            deltas.drop_first(), pointers.drop_first());
    }
}

/// The lifetime has run out: the next live tick respawns this agent.
pub open spec fn spec_expired(a: Agent) -> bool {
    a.ttl matches Some(t) && t <= 0
}

/// One agent run through `k` lifetime ticks, with per-tick elapsed times
/// and deltas; the pair is the agent and the generator state after them.
pub open spec fn spec_agent_ticks(
    a: Agent,
    s: u64,
    seed: u32,
    scale: int,
    target: Pos,
    win: BoundingBox,
    elapsed: Seq<int>,
    deltas: Seq<int>,
    accel: int,
    respawn_step: i64,
    k: int,
) -> (Agent, u64)
    decreases k,
{
    if k <= 0 {
        (a, s)
    } else {
        let (a1, s1) = spec_agent_ticks(a, s, seed, scale, target, win, elapsed, deltas, accel,
            respawn_step, k - 1);
        spec_update2(a1, s1, seed, scale, target, win, elapsed[k - 1], deltas[k - 1], accel,
            respawn_step)
    }
}

/// Some tick among the first `k` found the agent expired and respawned it.
pub open spec fn spec_respawned_in(
    a: Agent,
    s: u64,
    seed: u32,
    scale: int,
    target: Pos,
    win: BoundingBox,
    elapsed: Seq<int>,
    deltas: Seq<int>,
    accel: int,
    respawn_step: i64,
    k: int,
) -> bool {
    exists|j: int|
        0 <= j < k && spec_expired(
            #[trigger] spec_agent_ticks(a, s, seed, scale, target, win, elapsed, deltas, accel,
                respawn_step, j).0,
        )
}

/// The sum of the first `k` deltas.
pub open spec fn spec_sum(deltas: Seq<int>, k: int) -> int
    decreases k,
{
    if k <= 0 {
        0
    } else {
        spec_sum(deltas, k - 1) + deltas[k - 1]
    }
}

/// While no tick has respawned the agent, its lifetime is exactly the
/// starting lifetime minus the elapsed total.
proof fn lemma_ttl_counts_down(
    a: Agent,
    s: u64,
    seed: u32,
    scale: int,
    target: Pos,
    win: BoundingBox,
    elapsed: Seq<int>,
    deltas: Seq<int>,
    accel: int,
    respawn_step: i64,
    k: int,
)
    requires
        spec_agent_wf(a),
        a.ttl matches Some(t0) && t0 <= TTL_MAX,
        0 <= k <= deltas.len(),
        forall|j: int| 0 <= j < k ==> 0 < #[trigger] deltas[j] <= COORD_LIMIT,
        !spec_respawned_in(a, s, seed, scale, target, win, elapsed, deltas, accel, respawn_step,
            k),
    ensures
        spec_agent_ticks(a, s, seed, scale, target, win, elapsed, deltas, accel, respawn_step,
            k).0.ttl matches Some(t) && t == a.ttl->Some_0 - spec_sum(deltas, k) && t <= TTL_MAX,
    decreases k,
{
    if k > 0 {
        assert(!spec_respawned_in(a, s, seed, scale, target, win, elapsed, deltas, accel,
            respawn_step, k - 1)) by {
            if spec_respawned_in(a, s, seed, scale, target, win, elapsed, deltas, accel,
                respawn_step, k - 1) {
                let j = choose|j: int|
                    0 <= j < k - 1 && spec_expired(
                        #[trigger] spec_agent_ticks(a, s, seed, scale, target, win, elapsed,
                            deltas, accel, respawn_step, j).0,
                    );
                assert(spec_expired(spec_agent_ticks(a, s, seed, scale, target, win, elapsed,
                    deltas, accel, respawn_step, j).0));
            }
        }
        lemma_ttl_counts_down(a, s, seed, scale, target, win, elapsed, deltas, accel,
            respawn_step, k - 1);
        let prev = spec_agent_ticks(a, s, seed, scale, target, win, elapsed, deltas, accel,
            respawn_step, k - 1);
        assert(!spec_expired(prev.0));
        let t_prev = prev.0.ttl->Some_0;
        assert(t_prev > 0);
        assert(t_prev - deltas[k - 1] >= -COORD_LIMIT);
        assert(crate::fixed::spec_sub_c(t_prev as int, deltas[k - 1]) == t_prev - deltas[k - 1]);
    }
}

/// Law (respawn bound): an agent with a lifetime no longer than `TTL_MAX`,
/// run through positive-delta lifetime ticks whose total before the final
/// tick exceeds `TTL_MAX`, has been respawned at least once. (The total
/// must be reached before the last tick: time that only accumulates in the
/// final tick is noticed — and answered with a respawn — one tick later.)
pub proof fn lemma_respawn_bound(
    a: Agent,
    s: u64,
    seed: u32,
    scale: int,
    target: Pos,
    win: BoundingBox,
    elapsed: Seq<int>,
    deltas: Seq<int>,
    accel: int,
    respawn_step: i64,
    n: int,
)
    requires
        spec_agent_wf(a),
        a.ttl matches Some(t0) && t0 <= TTL_MAX,
        1 <= n <= deltas.len(),
        forall|j: int| 0 <= j < n ==> 0 < #[trigger] deltas[j] <= COORD_LIMIT,
        spec_sum(deltas, n - 1) > TTL_MAX as int,
    ensures
        spec_respawned_in(a, s, seed, scale, target, win, elapsed, deltas, accel, respawn_step,
            n),
{
    if !spec_respawned_in(a, s, seed, scale, target, win, elapsed, deltas, accel, respawn_step,
        n - 1) {
        lemma_ttl_counts_down(a, s, seed, scale, target, win, elapsed, deltas, accel,
            respawn_step, n - 1);
        let entry = spec_agent_ticks(a, s, seed, scale, target, win, elapsed, deltas, accel,
            respawn_step, n - 1).0;
        assert(entry.ttl->Some_0 == a.ttl->Some_0 - spec_sum(deltas, n - 1));
        assert(spec_expired(entry));
    } else {
        let j = choose|j: int|
            0 <= j < n - 1 && spec_expired(
                #[trigger] spec_agent_ticks(a, s, seed, scale, target, win, elapsed, deltas,
                    accel, respawn_step, j).0,
            );
        assert(spec_expired(spec_agent_ticks(a, s, seed, scale, target, win, elapsed, deltas,
            accel, respawn_step, j).0));
    }
}

/// Law (respawn freshness): the live tick that respawns an expired agent
/// gives it a lifetime drawn from `[TTL_MIN, TTL_MAX]`.
pub proof fn lemma_respawn_fresh_ttl(
    a: Agent,
    s: u64,
    seed: u32,
    scale: int,
    target: Pos,
    win: BoundingBox,
    elapsed: int,
    delta: int,
    accel: int,
    respawn_step: i64,
)
    requires
        spec_expired(a),
        delta > 0,
    ensures
        spec_update2(a, s, seed, scale, target, win, elapsed, delta, accel, respawn_step).0.ttl
            matches Some(t) && TTL_MIN <= t <= TTL_MAX,
{
    let fresh = spec_new_agent(s, win, SpawnArea::Grown, respawn_step).0;
    assert(spec_update2(a, s, seed, scale, target, win, elapsed, delta, accel,
        respawn_step).0 == fresh);
}

/// All the snapshots of a sequence pushed into a window, in order.
pub open spec fn spec_push_all(view: Seq<Seq<Pos>>, cap: int, snaps: Seq<Seq<Pos>>) -> Seq<
    Seq<Pos>,
>
    decreases snaps.len(),
{
    if snaps.len() == 0 {
        view
    } else {
        spec_push_all(spec_push(view, cap, snaps[0]), cap, snaps.drop_first())
    }
}

/// After any pushes, the window holds the last `min(cap, total)` of
/// everything ever held, in order.
proof fn lemma_push_all_tail(view: Seq<Seq<Pos>>, cap: int, snaps: Seq<Seq<Pos>>)
    requires
        cap >= 1,
        view.len() <= cap,
    ensures
        ({
            let all = view + snaps;
            let keep = if all.len() <= cap {
                all.len() as int
            } else {
                cap
            };
            spec_push_all(view, cap, snaps) =~= all.skip(all.len() - keep)
        }),
    decreases snaps.len(),
{
    if snaps.len() == 0 {
        assert(view + snaps =~= view);
        assert((view + snaps).skip(0) =~= view + snaps);
    } else {
        let s0 = snaps[0];
        let rest = snaps.drop_first();
        let view2 = spec_push(view, cap, s0);
        assert(view2.len() <= cap);
        lemma_push_all_tail(view2, cap, rest);
        if view.len() < cap {
            assert(view2 + rest =~= view + snaps);
        } else {
            assert(view2 + rest =~= (view + snaps).skip(1));
            let all = view + snaps;
            let all2 = view2 + rest;
            let keep2 = if all2.len() <= cap {
                all2.len() as int
            } else {
                cap
            };
            let keep = if all.len() <= cap {
                all.len() as int
            } else {
                cap
            };
            assert(keep == cap && keep2 == cap);
            assert(all2.skip(all2.len() - keep2) =~= all.skip(all.len() - keep));
        }
    }
}

/// Law (history bound): pushing at least `cap` snapshots into a window of
/// capacity `cap` leaves exactly `cap` entries — precisely the most recent
/// `cap` snapshots, oldest first.
pub proof fn lemma_history_bound(view: Seq<Seq<Pos>>, cap: int, snaps: Seq<Seq<Pos>>)
    requires
        cap >= 1,
        view.len() <= cap,
        snaps.len() >= cap,
    ensures
        spec_push_all(view, cap, snaps).len() == cap,
        spec_push_all(view, cap, snaps) =~= snaps.skip(snaps.len() - cap),
{
    lemma_push_all_tail(view, cap, snaps);
    let all = view + snaps;
    assert(all.skip(all.len() - cap) =~= snaps.skip(snaps.len() - cap));
}

} // verus!
