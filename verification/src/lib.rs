//! A deterministic, fixed-point simulation core: a population of point
//! agents moves under a seeded coherent-noise field and a moving attraction
//! target, with optional finite lifetimes and mutual/boundary repulsion,
//! while a bounded planar tessellation is rebuilt from the agent positions
//! each tick. All coordinates, times and factors are fixed-point integers
//! (one unit = 1/1000), so every update rule is exact and reproducible.

pub mod agent;
pub mod bbox;
pub mod errors;
pub mod fixed;
pub mod history;
pub mod laws;
pub mod model;
pub mod noise;
pub mod pos;
pub mod rng;
pub mod target;
pub mod tess;
pub mod trig;
