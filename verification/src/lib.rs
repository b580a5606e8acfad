//! Boids-style flocking: separation, alignment and cohesion steering (plus an
//! optional seek rule) over a population of agents on a bounded 2D plane,
//! with per-frame force and velocity clamping and toroidal wrapping at the
//! viewport edges.
//!
//! All coordinates, velocities and radii are fixed-point integers with
//! [`SCALE`] subunits per world unit, so every computation is exact and the
//! clamp invariants hold with no tolerance.

use vstd::prelude::*;

pub mod agent;
pub mod laws;
pub mod steering;
pub mod vec2;

verus! {

/// Fixed-point subunits per world unit.
pub const SCALE: i64 = 1000;

/// Neighbour radius for the separation rule (16 world units).
pub const MAX_SEPARATION: i64 = 16000;

/// Neighbour radius for the alignment rule (32 world units).
pub const MAX_ALIGNMENT: i64 = 32000;

/// Neighbour radius for the cohesion rule (16 world units).
pub const MAX_COHESION: i64 = 16000;

/// Upper bound on the magnitude of an agent's velocity (6 world units per frame).
pub const MAX_VELOCITY: i64 = 6000;

/// Upper bound on the magnitude of the combined steering force (0.05 world units).
pub const MAX_FORCE: i64 = 50;

/// Weight of the separation force in the per-frame combination.
pub const SEPARATION_WEIGHT: i64 = 4;

/// Weight of the alignment force in the per-frame combination.
pub const ALIGNMENT_WEIGHT: i64 = 3;

/// Weight of the cohesion force in the per-frame combination.
pub const COHESION_WEIGHT: i64 = 2;

/// Largest coordinate magnitude the steering pass accepts; far larger than
/// any plausible viewport, it only keeps the neighbour arithmetic exact.
pub const POS_LIMIT: i64 = 1_000_000_000_000;

/// Largest raw velocity component `Agent::new` accepts before clamping;
/// keeps the clamping arithmetic exact.
pub const VEL_LIMIT: i64 = 1_000_000_000_000;

/// Largest population one steering pass accepts; keeps the accumulated
/// force sums exact.
pub const MAX_AGENTS: usize = 1_000_000;

} // verus!
