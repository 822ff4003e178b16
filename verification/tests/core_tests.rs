use agent_flow::agent::{Agent, SpawnArea};
use agent_flow::bbox::BoundingBox;
use agent_flow::errors::ConfigurationError;
use agent_flow::fixed::{muldiv, isqrt, fsqrt, FP};
use agent_flow::history::HistoryBuffer;
use agent_flow::model::{Model, MotionMode, SimConfig, ColorMode};
use agent_flow::noise::NoiseField;
use agent_flow::pos::Pos;
use agent_flow::rng::SimRng;
use agent_flow::target::{TargetMode, TargetParams, compute_target};
use agent_flow::trig::{sin_fp, cos_fp};

fn params() -> TargetParams {
    TargetParams { radius: 300_000, omega: -100, drift_step: 30_000, drift_damp: 990, avg_damp: 950 }
}

fn config(motion: MotionMode, count: usize, step: i64) -> SimConfig {
    SimConfig {
        agent_count: count,
        seed: 42,
        noise_scale: 400_000,
        step_size: step,
        accel: 30,
        respawn_step: 2_000,
        history_capacity: 30,
        spawn: SpawnArea::Grown,
        motion,
        target: params(),
        site_scalar: 10_000,
        bound_scalar: 50_000,
    }
}

#[test]
fn isqrt_exact_values() {
    assert_eq!(isqrt(0), 0);
    assert_eq!(isqrt(1), 1);
    assert_eq!(isqrt(3), 1);
    assert_eq!(isqrt(4), 2);
    assert_eq!(isqrt(999_999), 999);
    assert_eq!(isqrt(1_000_000), 1000);
    assert_eq!(fsqrt(4_000), 2_000);
    assert_eq!(fsqrt(9_000), 3_000);
    assert_eq!(fsqrt(0), 0);
}

#[test]
fn muldiv_rounds_toward_zero() {
    assert_eq!(muldiv(7, 1, 2), 3);
    assert_eq!(muldiv(-7, 1, 2), -3);
    assert_eq!(muldiv(7, -1, 2), -3);
    assert_eq!(muldiv(-7, -1, 2), 3);
    assert_eq!(muldiv(100_000, 50, 1_000), 5_000);
}

#[test]
fn trig_exact_at_quarter_turns() {
    assert_eq!(sin_fp(0), 0);
    assert_eq!(sin_fp(250), 1_000);
    assert_eq!(sin_fp(500), 0);
    assert_eq!(sin_fp(750), -1_000);
    assert_eq!(cos_fp(0), 1_000);
    assert_eq!(cos_fp(250), 0);
    assert_eq!(cos_fp(500), -1_000);
    assert_eq!(cos_fp(-250), 0);
    for a in -2_000..2_000 {
        let s = sin_fp(a);
        let c = cos_fp(a);
        assert!(-1_000 <= s && s <= 1_000);
        assert!(-1_000 <= c && c <= 1_000);
        assert_eq!(s, sin_fp(a + 1_000));
    }
}

#[test]
fn pos_algebra() {
    let a = Pos::new(3_000, -4_000);
    assert_eq!(a.radius(), 5_000);
    let b = a.add(Pos::new(1_000, 1_000));
    assert_eq!(b, Pos::new(4_000, -3_000));
    let c = b.sub(Pos::new(4_000, 0));
    assert_eq!(c, Pos::new(0, -3_000));
    let d = a.mul(500);
    assert_eq!(d, Pos::new(1_500, -2_000));
    let e = a.div(2_000);
    assert_eq!(e, Pos::new(1_500, -2_000));
}

#[test]
fn coordinates_saturate_instead_of_overflowing() {
    let lim: i64 = 1_000_000_000_000_000;
    let big = Pos::new(lim, -lim);
    assert_eq!(big.add(big), Pos::new(lim, -lim));
    assert_eq!(big.sub(Pos::new(-lim, lim)), Pos::new(lim, -lim));
    assert_eq!(big.mul(lim), Pos::new(lim, -lim));
    assert_eq!(big.radius(), 1_414_213_562_373_095);
}

#[test]
fn pow_square_root_and_identity() {
    let v = Pos::new(4_000, -9_000);
    assert_eq!(v.pow(500), Pos::new(2_000, -3_000));
    assert_eq!(v.pow(1_000), v);
    assert_eq!(Pos::new(0, 0).pow(990), Pos::new(0, 0));
    // a damping exponent just below one pulls a large value toward zero
    let w = Pos::new(500_000, -500_000);
    let d = w.pow(990);
    assert!(0 < d.x && d.x < w.x);
    assert!(w.y < d.y && d.y < 0);
}

#[test]
fn rng_is_seed_deterministic_and_in_range() {
    let mut a = SimRng::new(7);
    let mut b = SimRng::new(7);
    let mut c = SimRng::new(8);
    let mut differs = false;
    for _ in 0..100 {
        let x = a.range_i64(-50, 50);
        let y = b.range_i64(-50, 50);
        let z = c.range_i64(-50, 50);
        assert_eq!(x, y);
        assert!(-50 <= x && x <= 50);
        if x != z {
            differs = true;
        }
    }
    assert!(differs);
}

#[test]
fn noise_is_seeded_bounded_and_reseedable() {
    let f = NoiseField::new(1, 400_000);
    let g = NoiseField::new(1, 400_000);
    let mut h = NoiseField::new(2, 400_000);
    let mut differs = false;
    for i in 0..50 {
        let x = i * 37_123;
        let a = f.sample(x, -x, i * 11);
        let b = g.sample(x, -x, i * 11);
        let c = h.sample(x, -x, i * 11);
        assert_eq!(a, b);
        assert!(-1_000 <= a && a <= 1_000);
        if a != c {
            differs = true;
        }
    }
    assert!(differs);
    h.reseed(1);
    assert_eq!(h.sample(37_123, -37_123, 11), f.sample(37_123, -37_123, 11));
}

#[test]
fn single_agent_closes_the_gap_by_the_acceleration_factor() {
    // step size zero: the noise term contributes nothing, and one tick
    // closes exactly accel/FP of the distance to the target
    let win = BoundingBox::new(1_000_000, 1_000_000).unwrap();
    let mut rng = SimRng::new(1);
    let mut a = Agent::new(&mut rng, &win, SpawnArea::Origin, 0);
    a.pos = Pos::new(100_000, 0);
    let noise = NoiseField::new(9, 400_000);
    a.update1(&noise, Pos::new(0, 0), 50);
    assert_eq!(a.pos, Pos::new(95_000, 0));
}

#[test]
fn circle_target_starts_on_the_positive_x_axis() {
    // radius 300, angular speed -0.2 pi rad/s (minus a tenth of a turn per
    // second), elapsed 0: the target is exactly (300, 0)
    let noise = NoiseField::new(9, 400_000);
    let p = params();
    let t = compute_target(TargetMode::Circle, &p, &noise, 0, Pos::new(0, 0), None, Pos::new(0, 0));
    assert_eq!(t, Pos::new(300_000, 0));
}

#[test]
fn figure_eight_target_starts_at_the_origin() {
    let noise = NoiseField::new(9, 400_000);
    let p = params();
    let t = compute_target(
        TargetMode::FigureEight,
        &p,
        &noise,
        0,
        Pos::new(0, 0),
        None,
        Pos::new(0, 0),
    );
    assert_eq!(t, Pos::new(0, 0));
}

#[test]
fn drift_target_with_zero_step_and_identity_damping_stays_put() {
    // drift step zero and damping exponent one: the previous target is
    // returned exactly, whatever the noise sample was
    let noise = NoiseField::new(9, 400_000);
    let mut p = params();
    p.drift_step = 0;
    p.drift_damp = 1_000;
    let prev = Pos::new(12_000, -34_000);
    let t = compute_target(TargetMode::NoiseDrift, &p, &noise, 500, prev, None, Pos::new(0, 0));
    assert_eq!(t, prev);
}

#[test]
fn pointer_target_passes_through() {
    let noise = NoiseField::new(9, 400_000);
    let p = params();
    let t = compute_target(
        TargetMode::Pointer,
        &p,
        &noise,
        123,
        Pos::new(5, 5),
        None,
        Pos::new(-7_000, 9_000),
    );
    assert_eq!(t, Pos::new(-7_000, 9_000));
}

#[test]
fn average_target_is_damped_mean_of_newest_snapshot() {
    let noise = NoiseField::new(9, 400_000);
    let mut p = params();
    p.avg_damp = 1_000; // identity damping: the target is the plain mean
    let snap = vec![Pos::new(1_000, 3_000), Pos::new(3_000, 5_000)];
    let t = compute_target(
        TargetMode::Average,
        &p,
        &noise,
        0,
        Pos::new(0, 0),
        Some(&snap),
        Pos::new(0, 0),
    );
    assert_eq!(t, Pos::new(2_000, 4_000));
    // empty history: the target is the origin
    let t0 = compute_target(TargetMode::Average, &p, &noise, 0, Pos::new(0, 0), None, Pos::new(0, 0));
    assert_eq!(t0, Pos::new(0, 0));
}

#[test]
fn repulsion_pushes_straight_away_from_the_other_site() {
    // two sites at (0,0) and (1,0), no boundary force: the agent at (1,0)
    // moves strictly in +x
    let win = BoundingBox::new(1_000_000, 1_000_000).unwrap();
    let mut rng = SimRng::new(1);
    let mut a = Agent::new(&mut rng, &win, SpawnArea::Origin, 0);
    a.pos = Pos::new(1_000, 0);
    let sites = vec![Pos::new(0, 0), Pos::new(1_000, 0)];
    a.repel(&sites, &win, 10_000, 0);
    assert_eq!(a.pos, Pos::new(11_000, 0));
    assert!(a.pos.x > 1_000);
    assert_eq!(a.pos.y, 0);
}

#[test]
fn respawn_triggers_exactly_at_zero_lifetime() {
    // a lifetime of exactly zero respawns on the next live tick: fresh
    // random position, fresh lifetime in [2, 10] s, phase reset
    let win = BoundingBox::new(1_000_000, 1_000_000).unwrap();
    let mut rng = SimRng::new(5);
    let noise = NoiseField::new(9, 400_000);
    let mut a = Agent::new(&mut rng, &win, SpawnArea::Origin, 5_000);
    a.ttl = Some(0);
    a.z = 777;
    a.update2(&mut rng, &noise, Pos::new(0, 0), &win, 1_000, 16, 30, 2_000);
    let t = a.ttl.unwrap();
    assert!((2_000..=10_000).contains(&t), "fresh lifetime {} out of range", t);
    assert_eq!(a.z, 0, "a respawn is a full reset");
    assert_eq!(a.step_size, 2_000, "a respawn uses the configured respawn step");
}

#[test]
fn zero_or_negative_delta_leaves_the_agent_untouched() {
    let win = BoundingBox::new(1_000_000, 1_000_000).unwrap();
    let mut rng = SimRng::new(5);
    let noise = NoiseField::new(9, 400_000);
    let mut a = Agent::new(&mut rng, &win, SpawnArea::Grown, 5_000);
    let before = a;
    let rng_before = rng.state;
    a.update2(&mut rng, &noise, Pos::new(40_000, 0), &win, 1_000, 0, 30, 2_000);
    assert_eq!(a, before);
    a.update2(&mut rng, &noise, Pos::new(40_000, 0), &win, 1_000, -16, 30, 2_000);
    assert_eq!(a, before);
    assert_eq!(rng.state, rng_before);
    // even an expired agent is untouched by a no-op tick
    a.ttl = Some(-1);
    let expired = a;
    a.update2(&mut rng, &noise, Pos::new(40_000, 0), &win, 1_000, 0, 30, 2_000);
    assert_eq!(a, expired);
}

#[test]
fn inset_spawn_places_every_site_inside_the_padded_box() {
    // a 200 px box inset by 50 px: every coordinate within [-50, 50] px
    let win = BoundingBox::new(200_000, 200_000).unwrap();
    let mut rng = SimRng::new(11);
    let agents = Model::build_agents(&mut rng, &win, SpawnArea::Inset(50_000), 300, 40);
    assert_eq!(agents.len(), 40);
    for a in agents.iter() {
        assert!(-50_000 <= a.pos.x && a.pos.x <= 50_000);
        assert!(-50_000 <= a.pos.y && a.pos.y <= 50_000);
    }
}

#[test]
fn walk_turns_around_at_the_box_edge() {
    // a 200 px box: the right edge is at 100 px; an agent 5 px from it,
    // heading right with a 20-step lookahead, must turn around
    let win = BoundingBox::new(200_000, 200_000).unwrap();
    let mut rng = SimRng::new(3);
    let mut a = Agent::new(&mut rng, &win, SpawnArea::Origin, 1_000);
    a.pos = Pos::new(95_000, 0);
    a.angle = 0;
    a.walk(&mut rng, &win);
    assert!(a.pos.x > 95_000, "the step itself is taken before the turn");
    assert!(cos_fp(a.angle) < 0, "the heading now points back inward");
    assert!(-1_000 <= a.angle && a.angle <= 1_000);
    assert_eq!(a.prev_pos, Pos::new(95_000, 0));
}

#[test]
fn walk_mode_ticks_keep_headings_in_range() {
    let cfg = config(MotionMode::Walk, 8, 300);
    let mut m = Model::new(cfg, 1_000_000, 1_000_000).unwrap();
    let mut n = Model::new(cfg, 1_000_000, 1_000_000).unwrap();
    let win = BoundingBox::new(1_000_000, 1_000_000).unwrap();
    for _ in 0..50 {
        let pa = m.tick(16, &win, None).agent_positions;
        let pb = n.tick(16, &win, None).agent_positions;
        assert_eq!(pa, pb);
        for a in m.agents.iter() {
            assert!(-1_000 <= a.angle && a.angle <= 1_000);
        }
    }
}

#[test]
fn history_keeps_exactly_the_most_recent_snapshots() {
    let mut h = HistoryBuffer::new(3).unwrap();
    assert_eq!(h.len(), 0);
    for i in 0..5i64 {
        h.push(vec![Pos::new(i, i)]);
    }
    assert_eq!(h.len(), 3);
    assert_eq!(h.get(0)[0], Pos::new(2, 2));
    assert_eq!(h.get(1)[0], Pos::new(3, 3));
    assert_eq!(h.get(2)[0], Pos::new(4, 4));
    assert_eq!(h.newest().unwrap()[0], Pos::new(4, 4));
    h.clear();
    assert_eq!(h.len(), 0);
    assert!(h.newest().is_none());
}

#[test]
fn history_rejects_zero_capacity() {
    assert_eq!(
        HistoryBuffer::new(0).err().unwrap(),
        ConfigurationError::NonPositiveCapacity
    );
}

#[test]
fn runs_are_deterministic_for_a_fixed_seed() {
    let cfg = config(MotionMode::Flow, 10, 5_000);
    let win = BoundingBox::new(1_000_000, 1_000_000).unwrap();
    let mut a = Model::new(cfg, 1_000_000, 1_000_000).unwrap();
    let mut b = Model::new(cfg, 1_000_000, 1_000_000).unwrap();
    for i in 0..10 {
        let pa = a.tick(16, &win, None).agent_positions;
        let pb = b.tick(16, &win, None).agent_positions;
        assert_eq!(pa, pb, "tick {} diverged", i);
    }
}

#[test]
fn lifetime_agents_respawn_within_the_maximum_lifetime() {
    let cfg = config(MotionMode::Lifetime, 1, 8_000);
    let mut m = Model::new(cfg, 1_000_000, 1_000_000).unwrap();
    let mut prev_ttl = m.agents[0].ttl.unwrap();
    assert!((2_000..=10_000).contains(&prev_ttl));
    let mut respawns = 0;
    let win = BoundingBox::new(1_000_000, 1_000_000).unwrap();
    // 30 half-second ticks: fifteen seconds, more than any lifetime
    for _ in 0..30 {
        m.tick(500, &win, None);
        let t = m.agents[0].ttl.unwrap();
        if t > prev_ttl {
            // the lifetime grew: this tick respawned the agent
            respawns += 1;
            assert!((2_000..=10_000).contains(&t), "fresh lifetime {} out of range", t);
        }
        prev_ttl = t;
    }
    assert!(respawns >= 1, "no respawn in fifteen seconds");
}

#[test]
fn zero_delta_tick_is_a_no_op() {
    let cfg = config(MotionMode::Flow, 5, 5_000);
    let win = BoundingBox::new(1_000_000, 1_000_000).unwrap();
    let mut m = Model::new(cfg, 1_000_000, 1_000_000).unwrap();
    let before = m.get_sites();
    let out = m.tick(0, &win, None);
    assert_eq!(out.agent_positions, before);
    let out2 = m.tick(-5, &win, None);
    assert_eq!(out2.agent_positions, before);
    assert_eq!(m.elapsed, 0);
}

#[test]
fn model_rejects_bad_configurations() {
    let cfg = config(MotionMode::Flow, 5, 5_000);
    assert_eq!(
        Model::new(cfg, 0, 1_000_000).err().unwrap(),
        ConfigurationError::NonPositiveBounds
    );
    assert_eq!(
        Model::new(cfg, 1_000_000, -3).err().unwrap(),
        ConfigurationError::NonPositiveBounds
    );
    let mut no_agents = cfg;
    no_agents.agent_count = 0;
    assert_eq!(
        Model::new(no_agents, 1_000_000, 1_000_000).err().unwrap(),
        ConfigurationError::NoAgents
    );
    let mut no_cap = cfg;
    no_cap.history_capacity = 0;
    assert_eq!(
        Model::new(no_cap, 1_000_000, 1_000_000).err().unwrap(),
        ConfigurationError::NonPositiveCapacity
    );
    assert_eq!(
        ConfigurationError::NoAgents.describe(),
        "configuration rejected: zero agents"
    );
}

#[test]
fn setters_reset_and_reseed() {
    let cfg = config(MotionMode::Flow, 5, 5_000);
    let mut m = Model::new(cfg, 1_000_000, 1_000_000).unwrap();
    m.set_target_mode(TargetMode::Average);
    assert_eq!(m.target_mode, TargetMode::Average);
    m.set_color_mode(ColorMode::HueRotate);
    assert_eq!(m.color_mode, ColorMode::HueRotate);
    let win = BoundingBox::new(1_000_000, 1_000_000).unwrap();
    m.tick(16, &win, Some(Pos::new(1_000, 2_000)));
    assert!(m.history.len() > 0);
    m.reseed_noise(99);
    assert_eq!(m.noise.seed, 99);
    m.reset(2_000_000, 2_000_000).unwrap();
    assert_eq!(m.history.len(), 0);
    assert_eq!(m.win.width, 2_000_000);
    assert_eq!(m.agents.len(), 5);
    assert!(m.reset(0, 5).is_err());
}

#[test]
fn model_history_tracks_ticks_up_to_capacity() {
    let mut cfg = config(MotionMode::Flow, 3, 5_000);
    cfg.history_capacity = 4;
    let win = BoundingBox::new(1_000_000, 1_000_000).unwrap();
    let mut m = Model::new(cfg, 1_000_000, 1_000_000).unwrap();
    for _ in 0..7 {
        m.tick(16, &win, None);
    }
    assert_eq!(m.history.len(), 4);
    let newest = m.history.newest().unwrap().clone();
    assert_eq!(newest, m.get_sites());
}
