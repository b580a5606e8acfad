//! Exercises the vector clamping, the boundary wrap, each steering rule and
//! the full per-frame update on exact fixed-point values.

use floc::agent::Agent;
use floc::steering::SteeringManager;
use floc::vec2::V2;
use floc::{MAX_FORCE, MAX_VELOCITY};

#[test]
fn truncate_leaves_short_vectors_untouched() {
    let v = V2 { x: 3000, y: 4000 };
    assert_eq!(v.truncate(5000), V2 { x: 3000, y: 4000 });
    let w = V2 { x: 0, y: 0 };
    assert_eq!(w.truncate(1), V2 { x: 0, y: 0 });
}

#[test]
fn truncate_rescales_long_vectors_exactly() {
    let v = V2 { x: 6000, y: 8000 };
    assert_eq!(v.truncate(5000), V2 { x: 3000, y: 4000 });
    let w = V2 { x: -6000, y: 8000 };
    assert_eq!(w.truncate(5000), V2 { x: -3000, y: 4000 });
}

#[test]
fn truncate_rounds_toward_zero() {
    let v = V2 { x: 1, y: 1 };
    assert_eq!(v.truncate(1), V2 { x: 0, y: 0 });
}

#[test]
fn scale_to_reaches_full_speed() {
    let v = V2 { x: -5000, y: 0 };
    assert_eq!(v.scale_to(6000), V2 { x: -6000, y: 0 });
}

#[test]
fn new_agent_starts_with_defaults() {
    let a = Agent::new(7, V2 { x: 1000, y: 2000 }, V2 { x: 3000, y: 0 });
    assert_eq!(a.id(), 7);
    assert_eq!(a.position(), V2 { x: 1000, y: 2000 });
    assert_eq!(a.velocity(), V2 { x: 3000, y: 0 });
    assert_eq!(a.rotation(), 0);
    assert_eq!(a.target(), V2 { x: 0, y: 0 });
}

#[test]
fn new_agent_clamps_fast_velocity() {
    let a = Agent::new(0, V2 { x: 0, y: 0 }, V2 { x: 9000, y: 0 });
    assert_eq!(a.velocity(), V2 { x: 6000, y: 0 });
    let b = Agent::new(1, V2 { x: 0, y: 0 }, V2 { x: 9000, y: 12000 });
    assert_eq!(b.velocity(), V2 { x: 3600, y: 4800 });
}

#[test]
fn wrap_left_edge_takes_precedence_over_bottom() {
    // Out of bounds on both axes: only the first matching edge in the order
    // left, right, bottom, top is corrected in one call.
    let mut a = Agent::new(0, V2 { x: -50_001, y: -30_001 }, V2 { x: 0, y: 0 });
    a.wrap(100_000, 60_000);
    assert_eq!(a.position(), V2 { x: 50_000, y: -30_001 });
}

#[test]
fn wrap_right_edge() {
    let mut a = Agent::new(0, V2 { x: 50_001, y: 0 }, V2 { x: 0, y: 0 });
    a.wrap(100_000, 60_000);
    assert_eq!(a.position(), V2 { x: -50_000, y: 0 });
}

#[test]
fn wrap_vertical_edges_when_x_is_inside() {
    let mut a = Agent::new(0, V2 { x: 0, y: -30_001 }, V2 { x: 0, y: 0 });
    a.wrap(100_000, 60_000);
    assert_eq!(a.position(), V2 { x: 0, y: 30_000 });
    let mut b = Agent::new(1, V2 { x: 0, y: 30_001 }, V2 { x: 0, y: 0 });
    b.wrap(100_000, 60_000);
    assert_eq!(b.position(), V2 { x: 0, y: -30_000 });
}

#[test]
fn wrap_leaves_agents_in_bounds_alone() {
    let mut a = Agent::new(0, V2 { x: 50_000, y: -30_000 }, V2 { x: 100, y: 200 });
    a.wrap(100_000, 60_000);
    assert_eq!(a.position(), V2 { x: 50_000, y: -30_000 });
    assert_eq!(a.velocity(), V2 { x: 100, y: 200 });
}

#[test]
fn separation_forces_are_opposite_for_agents_at_rest() {
    let a = Agent::new(0, V2 { x: 0, y: 0 }, V2 { x: 0, y: 0 });
    let b = Agent::new(1, V2 { x: 5000, y: 0 }, V2 { x: 0, y: 0 });
    let all = vec![a, b];
    let fa = SteeringManager::separation_force(&a, &all);
    let fb = SteeringManager::separation_force(&b, &all);
    assert_eq!(fa, V2 { x: -6000, y: 0 });
    assert_eq!(fb, V2 { x: 6000, y: 0 });
}

#[test]
fn separation_ignores_agents_at_or_past_the_radius() {
    let a = Agent::new(0, V2 { x: 0, y: 0 }, V2 { x: 0, y: 0 });
    let b = Agent::new(1, V2 { x: 16_000, y: 0 }, V2 { x: 500, y: 0 });
    let all = vec![a, b];
    assert_eq!(SteeringManager::separation_force(&a, &all), V2 { x: 0, y: 0 });
}

#[test]
fn separation_excludes_the_agent_itself() {
    let a = Agent::new(0, V2 { x: 0, y: 0 }, V2 { x: 0, y: 0 });
    let all = vec![a];
    assert_eq!(SteeringManager::separation_force(&a, &all), V2 { x: 0, y: 0 });
}

#[test]
fn alignment_matches_a_neighbors_direction() {
    let a = Agent::new(0, V2 { x: 0, y: 0 }, V2 { x: 0, y: 0 });
    let b = Agent::new(1, V2 { x: 20_000, y: 0 }, V2 { x: 1000, y: 0 });
    let all = vec![a, b];
    assert_eq!(SteeringManager::alignment_force(&a, &all), V2 { x: 6000, y: 0 });
}

#[test]
fn alignment_radius_is_wider_than_separation() {
    // At 16 000 subunits the neighbour is outside the separation radius but
    // still inside the alignment radius.
    let a = Agent::new(0, V2 { x: 0, y: 0 }, V2 { x: 0, y: 0 });
    let b = Agent::new(1, V2 { x: 16_000, y: 0 }, V2 { x: 1000, y: 0 });
    let all = vec![a, b];
    assert_eq!(SteeringManager::separation_force(&a, &all), V2 { x: 0, y: 0 });
    assert_eq!(SteeringManager::alignment_force(&a, &all), V2 { x: 6000, y: 0 });
    let far = Agent::new(2, V2 { x: 32_000, y: 0 }, V2 { x: 1000, y: 0 });
    let all2 = vec![a, far];
    assert_eq!(SteeringManager::alignment_force(&a, &all2), V2 { x: 0, y: 0 });
}

#[test]
fn cohesion_steers_toward_the_neighbor_centroid() {
    let a = Agent::new(0, V2 { x: 0, y: 0 }, V2 { x: 0, y: 0 });
    let b = Agent::new(1, V2 { x: 5000, y: 0 }, V2 { x: 0, y: 0 });
    let all = vec![a, b];
    assert_eq!(SteeringManager::cohesion_force(&a, &all), V2 { x: 6000, y: 0 });
}

#[test]
fn cohesion_returns_zero_when_the_position_sum_is_zero() {
    // Two neighbours at exactly opposite positions sum to the zero vector,
    // and the rule returns zero before ever looking at the centroid.
    let a = Agent::new(0, V2 { x: 0, y: 0 }, V2 { x: 0, y: 0 });
    let b = Agent::new(1, V2 { x: 10_000, y: 0 }, V2 { x: 0, y: 0 });
    let c = Agent::new(2, V2 { x: -10_000, y: 0 }, V2 { x: 0, y: 0 });
    let all = vec![a, b, c];
    assert_eq!(SteeringManager::cohesion_force(&a, &all), V2 { x: 0, y: 0 });
}

#[test]
fn cohesion_returns_zero_when_the_centroid_is_the_agent() {
    let a = Agent::new(0, V2 { x: 5000, y: 0 }, V2 { x: 0, y: 0 });
    let b = Agent::new(1, V2 { x: 4000, y: 0 }, V2 { x: 0, y: 0 });
    let c = Agent::new(2, V2 { x: 6000, y: 0 }, V2 { x: 0, y: 0 });
    let all = vec![a, b, c];
    assert_eq!(SteeringManager::cohesion_force(&a, &all), V2 { x: 0, y: 0 });
}

#[test]
fn seek_steers_toward_the_broadcast_target() {
    let mut m = SteeringManager::new();
    m.add_agent(Agent::new(0, V2 { x: 0, y: 0 }, V2 { x: 0, y: 0 }));
    m.update_target(V2 { x: 5000, y: 0 });
    assert_eq!(m.agents[0].target(), V2 { x: 5000, y: 0 });
    assert_eq!(SteeringManager::seek_force(&m.agents[0]), V2 { x: 6000, y: 0 });
}

#[test]
fn seek_is_zero_on_the_target() {
    let a = Agent::new(0, V2 { x: 0, y: 0 }, V2 { x: 100, y: 0 });
    assert_eq!(SteeringManager::seek_force(&a), V2 { x: 0, y: 0 });
}

#[test]
fn update_target_broadcasts_to_every_agent() {
    let mut m = SteeringManager::new();
    m.add_agent(Agent::new(0, V2 { x: 0, y: 0 }, V2 { x: 0, y: 0 }));
    m.add_agent(Agent::new(1, V2 { x: 9000, y: 0 }, V2 { x: 0, y: 0 }));
    m.update_target(V2 { x: 7000, y: -3000 });
    assert_eq!(m.agents.len(), 2);
    for a in &m.agents {
        assert_eq!(a.target(), V2 { x: 7000, y: -3000 });
    }
}

#[test]
fn manager_starts_empty_and_grows_one_agent_at_a_time() {
    let mut m = SteeringManager::new();
    assert_eq!(m.agents.len(), 0);
    m.add_agent(Agent::new(4, V2 { x: 1, y: 2 }, V2 { x: 3, y: 4 }));
    assert_eq!(m.agents.len(), 1);
    assert_eq!(m.agents[0].id(), 4);
}

#[test]
fn isolated_agent_keeps_velocity_and_advances_linearly() {
    let mut m = SteeringManager::new();
    m.add_agent(Agent::new(0, V2 { x: 1000, y: 2000 }, V2 { x: 300, y: 400 }));
    m.update(1_000_000, 1_000_000);
    assert_eq!(m.agents[0].velocity(), V2 { x: 300, y: 400 });
    assert_eq!(m.agents[0].position(), V2 { x: 1300, y: 2400 });
    m.update(1_000_000, 1_000_000);
    m.update(1_000_000, 1_000_000);
    assert_eq!(m.agents[0].velocity(), V2 { x: 300, y: 400 });
    assert_eq!(m.agents[0].position(), V2 { x: 1900, y: 3200 });
}

#[test]
fn two_resting_agents_steer_apart_after_one_update() {
    let mut m = SteeringManager::new();
    m.add_agent(Agent::new(0, V2 { x: 0, y: 0 }, V2 { x: 0, y: 0 }));
    m.add_agent(Agent::new(1, V2 { x: 5000, y: 0 }, V2 { x: 0, y: 0 }));
    m.update(1_000_000, 1_000_000);
    let va = m.agents[0].velocity();
    let vb = m.agents[1].velocity();
    // Separation dominates: both move apart along the axis that joins them.
    assert_eq!(va, V2 { x: -MAX_FORCE, y: 0 });
    assert_eq!(vb, V2 { x: MAX_FORCE, y: 0 });
    assert!(va.x < 0 && vb.x > 0);
    // Neither the one-frame velocity change nor the speed exceeds its clamp.
    assert!(va.x * va.x + va.y * va.y <= MAX_FORCE * MAX_FORCE);
    assert!(va.x * va.x + va.y * va.y <= MAX_VELOCITY * MAX_VELOCITY);
    assert_eq!(m.agents[0].position(), V2 { x: -50, y: 0 });
    assert_eq!(m.agents[1].position(), V2 { x: 5050, y: 0 });
}

#[test]
fn update_reads_the_frame_start_snapshot_only() {
    // The first agent crosses most of the gap during its own step; were the
    // second agent's forces computed against live state instead of the
    // frame-start snapshot, its separation push would flip sign.
    let mut m = SteeringManager::new();
    m.add_agent(Agent::new(0, V2 { x: 0, y: 0 }, V2 { x: 6000, y: 0 }));
    m.add_agent(Agent::new(1, V2 { x: 5000, y: 0 }, V2 { x: 0, y: 0 }));
    m.update(1_000_000, 1_000_000);
    assert_eq!(m.agents[0].velocity(), V2 { x: 5950, y: 0 });
    assert_eq!(m.agents[0].position(), V2 { x: 5950, y: 0 });
    assert_eq!(m.agents[1].velocity(), V2 { x: 50, y: 0 });
    assert_eq!(m.agents[1].position(), V2 { x: 5050, y: 0 });
}

#[test]
fn velocity_stays_clamped_over_many_frames() {
    let mut m = SteeringManager::new();
    m.add_agent(Agent::new(0, V2 { x: 0, y: 0 }, V2 { x: 4000, y: 4000 }));
    m.add_agent(Agent::new(1, V2 { x: 3000, y: 0 }, V2 { x: -4000, y: 4000 }));
    m.add_agent(Agent::new(2, V2 { x: 0, y: 3000 }, V2 { x: 4000, y: -4000 }));
    for _ in 0..50 {
        m.update(200_000, 200_000);
        for a in &m.agents {
            let v = a.velocity();
            assert!(v.x * v.x + v.y * v.y <= MAX_VELOCITY * MAX_VELOCITY);
        }
    }
}
