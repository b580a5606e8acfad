//! The steering engine: the separation, alignment, cohesion and seek force
//! rules, their weighted combination, and the per-frame update pass over the
//! whole population, computed against a consistent frame-start snapshot.

use vstd::prelude::*;
use crate::agent::{wrap_spec, Agent};
use crate::vec2::{scale_spec, sdiv, truncate_spec, V2};
use crate::vec2::{lemma_comp_bound, lemma_sdiv_bound};
use crate::{
    ALIGNMENT_WEIGHT, COHESION_WEIGHT, MAX_AGENTS, MAX_ALIGNMENT, MAX_COHESION, MAX_FORCE,
    MAX_SEPARATION, MAX_VELOCITY, POS_LIMIT, SEPARATION_WEIGHT,
};

verus! {

/// Squared Euclidean distance between two points.
pub open spec fn dist_sq(p: V2, q: V2) -> int {
    (p.x - q.x) * (p.x - q.x) + (p.y - q.y) * (p.y - q.y)
}

/// `n` counts as a neighbour of `a` for a rule with the given radius:
/// strictly inside the radius and not the agent itself.
pub open spec fn is_neighbor(a: Agent, n: Agent, radius: int) -> bool {
    n.id != a.id && dist_sq(n.position, a.position) < radius * radius
}

/// Accumulated separation contributions over the snapshot: the sum of
/// `a.position - n.position` over separation neighbours, with their count.
pub open spec fn sep_sum(a: Agent, s: Seq<Agent>) -> (int, int, int)
    decreases s.len(),
{
    if s.len() == 0 {
        (0, 0, 0)
    } else {
        let r = sep_sum(a, s.drop_last());
        let n = s.last();
        if is_neighbor(a, n, MAX_SEPARATION as int) {
            (r.0 + (a.position.x - n.position.x), r.1 + (a.position.y - n.position.y), r.2 + 1)
        } else {
            r
        }
    }
}

/// Accumulated alignment contributions over the snapshot: the sum of
/// neighbour velocities within the alignment radius.
pub open spec fn ali_sum(a: Agent, s: Seq<Agent>) -> (int, int)
    decreases s.len(),
{
    if s.len() == 0 {
        (0, 0)
    } else {
        let r = ali_sum(a, s.drop_last());
        let n = s.last();
        if is_neighbor(a, n, MAX_ALIGNMENT as int) {
            (r.0 + n.velocity.x, r.1 + n.velocity.y)
        } else {
            r
        }
    }
}

/// Accumulated cohesion contributions over the snapshot: the sum of
/// neighbour positions within the cohesion radius, with their count.
pub open spec fn coh_sum(a: Agent, s: Seq<Agent>) -> (int, int, int)
    decreases s.len(),
{
    if s.len() == 0 {
        (0, 0, 0)
    } else {
        let r = coh_sum(a, s.drop_last());
        let n = s.last();
        if is_neighbor(a, n, MAX_COHESION as int) {
            (r.0 + n.position.x, r.1 + n.position.y, r.2 + 1)
        } else {
            r
        }
    }
}

/// The steering formula shared by every rule: rescale the accumulated
/// direction to the full speed and subtract the current velocity.
pub open spec fn steer_toward(gx: int, gy: int, a: Agent) -> (int, int) {
    let d = scale_spec(gx, gy, MAX_VELOCITY as int);
    (d.0 - a.velocity.x, d.1 - a.velocity.y)
}

/// The separation force on `a` against the snapshot `s`: zero when there is
/// no neighbour or the accumulated vector is exactly zero, otherwise the
/// steering formula on the accumulated away-pointing vector.
pub open spec fn separation_spec(a: Agent, s: Seq<Agent>) -> (int, int) {
    let f = sep_sum(a, s);
    if f.2 == 0 || (f.0 == 0 && f.1 == 0) {
        (0, 0)
    } else {
        steer_toward(f.0, f.1, a)
    }
}

/// The alignment force on `a` against the snapshot `s`: zero when the
/// accumulated neighbour velocity is exactly zero, otherwise the steering
/// formula on that sum.
pub open spec fn alignment_spec(a: Agent, s: Seq<Agent>) -> (int, int) {
    let f = ali_sum(a, s);
    if f.0 == 0 && f.1 == 0 {
        (0, 0)
    } else {
        steer_toward(f.0, f.1, a)
    }
}

/// The cohesion force on `a` against the snapshot `s`: zero when there is no
/// neighbour or the accumulated position sum is exactly zero, otherwise the
/// steering formula toward the neighbour centroid; a centroid exactly at the
/// agent's position also yields zero rather than dividing by a zero norm.
pub open spec fn cohesion_spec(a: Agent, s: Seq<Agent>) -> (int, int) {
    let f = coh_sum(a, s);
    if f.2 == 0 || (f.0 == 0 && f.1 == 0) {
        (0, 0)
    } else {
        let gx = sdiv(f.0, f.2) - a.position.x;
        let gy = sdiv(f.1, f.2) - a.position.y;
        if gx == 0 && gy == 0 {
            (0, 0)
        } else {
            steer_toward(gx, gy, a)
        }
    }
}

/// The seek force on `a`: the steering formula straight toward the agent's
/// target, unbounded by any neighbour radius; zero when the agent already
/// stands on the target.
pub open spec fn seek_spec(a: Agent) -> (int, int) {
    let gx = a.target.x - a.position.x;
    let gy = a.target.y - a.position.y;
    if gx == 0 && gy == 0 {
        (0, 0)
    } else {
        steer_toward(gx, gy, a)
    }
}

/// The combined per-frame steering vector: the weighted sum of the three
/// flocking forces, clamped to [`MAX_FORCE`].
pub open spec fn steer_spec(a: Agent, s: Seq<Agent>) -> (int, int) {
    let sep = separation_spec(a, s);
    let ali = alignment_spec(a, s);
    let coh = cohesion_spec(a, s);
    truncate_spec(
        sep.0 * SEPARATION_WEIGHT + ali.0 * ALIGNMENT_WEIGHT + coh.0 * COHESION_WEIGHT,
        sep.1 * SEPARATION_WEIGHT + ali.1 * ALIGNMENT_WEIGHT + coh.1 * COHESION_WEIGHT,
        MAX_FORCE as int,
    )
}

/// One integration step of one agent against the snapshot `s`: steer, clamp
/// the force, add it to the velocity, clamp the velocity, advance the
/// position and wrap it. The result is the new velocity and position,
/// `(vx, vy, px, py)`.
pub open spec fn step_spec(a: Agent, s: Seq<Agent>, w: int, h: int) -> (int, int, int, int) {
    let st = steer_spec(a, s);
    let v = truncate_spec(a.velocity.x + st.0, a.velocity.y + st.1, MAX_VELOCITY as int);
    let p = wrap_spec(a.position.x + v.0, a.position.y + v.1, w, h);
    (v.0, v.1, p.0, p.1)
}

/// Squared distance, computed exactly.
fn dist_sq_e(p: V2, q: V2) -> (r: i128)
    requires
        -POS_LIMIT <= p.x <= POS_LIMIT,
        -POS_LIMIT <= p.y <= POS_LIMIT,
        -POS_LIMIT <= q.x <= POS_LIMIT,
        -POS_LIMIT <= q.y <= POS_LIMIT,
    ensures
        r as int == dist_sq(p, q),
        r >= 0,
{
    let dx = (p.x as i128) - (q.x as i128);
    let dy = (p.y as i128) - (q.y as i128);
    proof {
        assert(0 <= dx * dx <= 0x1000_0000_0000_0000_0000_0000_0000_0000int) by (nonlinear_arith)
            requires
                -2 * (POS_LIMIT as int) <= dx <= 2 * (POS_LIMIT as int),
                POS_LIMIT == 1_000_000_000_000i64,
        ;
        assert(0 <= dy * dy <= 0x1000_0000_0000_0000_0000_0000_0000_0000int) by (nonlinear_arith)
            requires
                -2 * (POS_LIMIT as int) <= dy <= 2 * (POS_LIMIT as int),
                POS_LIMIT == 1_000_000_000_000i64,
        ;
    }
    dx * dx + dy * dy
}

/// The population and its per-frame steering pass.
#[derive(Clone)]
pub struct SteeringManager {
    /// The agents, in addition order; the population only grows.
    pub agents: Vec<Agent>,
}

impl SteeringManager {
    /// Every agent's velocity is clamped and the population is within the
    /// size the steering pass accepts.
    pub open spec fn wf(self) -> bool {
        &&& self.agents@.len() <= MAX_AGENTS as int
        &&& forall|i: int| 0 <= i < self.agents@.len() ==> (#[trigger] self.agents@[i]).wf()
    }

    /// Every agent's position is within the coordinate range the steering
    /// pass accepts.
    pub open spec fn all_pos_ok(self) -> bool {
        forall|i: int| 0 <= i < self.agents@.len() ==> (#[trigger] self.agents@[i]).pos_ok()
    }

    /// An empty population.
    pub fn new() -> (m: SteeringManager)
        ensures
            m.agents@.len() == 0,
    {
        SteeringManager { agents: Vec::new() }
    }

    /// Appends one agent; there is no removal operation.
    pub fn add_agent(&mut self, agent: Agent)
        ensures
            final(self).agents@ == old(self).agents@.push(agent),
    {
        self.agents.push(agent);
    }

    /// Broadcasts a shared pursuit target to every agent. It has no effect
    /// on motion until a later update pass reads it through the seek rule.
    pub fn update_target(&mut self, target: V2)
        ensures
            final(self).agents@.len() == old(self).agents@.len(),
            forall|i: int| 0 <= i < old(self).agents@.len() ==> (#[trigger] final(self).agents@[i])
                == (Agent { target: target, ..old(self).agents@[i] }),
    {
        let n_len = self.agents.len();
        let mut i: usize = 0;
        while i < n_len
            invariant
                0 <= i <= n_len,
                n_len == self.agents@.len(),
                self.agents@.len() == old(self).agents@.len(),
                forall|j: int| i <= j < n_len ==> (#[trigger] self.agents@[j])
                    == old(self).agents@[j],
                forall|j: int| 0 <= j < i ==> (#[trigger] self.agents@[j])
                    == (Agent { target: target, ..old(self).agents@[j] }),
            decreases n_len - i,
        {
            self.agents[i].target = target;
            i = i + 1;
        }
    }

    /// The separation force on `agent` against the snapshot `neighbors`:
    /// exactly [`separation_spec`].
    pub fn separation_force(agent: &Agent, neighbors: &Vec<Agent>) -> (f: V2)
        requires
            agent.wf(),
            agent.pos_ok(),
            neighbors@.len() <= MAX_AGENTS as int,
            forall|i: int| 0 <= i < neighbors@.len() ==> (#[trigger] neighbors@[i]).pos_ok(),
        ensures
            f.x as int == separation_spec(*agent, neighbors@).0,
            f.y as int == separation_spec(*agent, neighbors@).1,
            -2 * MAX_VELOCITY <= f.x <= 2 * MAX_VELOCITY,
            -2 * MAX_VELOCITY <= f.y <= 2 * MAX_VELOCITY,
    {
        let ghost s = neighbors@;
        proof {
            assert((MAX_SEPARATION as int) * (MAX_SEPARATION as int) == 256_000_000int)
                by (nonlinear_arith)
                requires
                    MAX_SEPARATION == 16000i64,
            ;
        }
        let mut fx: i64 = 0;
        let mut fy: i64 = 0;
        let mut cnt: usize = 0;
        let n_len = neighbors.len();
        let mut i: usize = 0;
        while i < n_len
            invariant
                0 <= i <= n_len,
                n_len == s.len(),
                s == neighbors@,
                s.len() <= MAX_AGENTS as int,
                agent.wf(),
                agent.pos_ok(),
                forall|j: int| 0 <= j < s.len() ==> (#[trigger] s[j]).pos_ok(),
                cnt <= i,
                (MAX_SEPARATION as int) * (MAX_SEPARATION as int) == 256_000_000int,
                (fx as int, fy as int, cnt as int) == sep_sum(*agent, s.take(i as int)),
                -16000 * (cnt as int) <= fx as int <= 16000 * (cnt as int),
                -16000 * (cnt as int) <= fy as int <= 16000 * (cnt as int),
            decreases n_len - i,
        {
            let n = neighbors[i];
            let d2 = dist_sq_e(n.position, agent.position);
            if n.id != agent.id && d2 < 256_000_000i128 {
                let dx = agent.position.x - n.position.x;
                let dy = agent.position.y - n.position.y;
                proof {
                    assert((-16000 < (dx as int)) && ((dx as int) < 16000) && (-16000 < (
                    dy as int)) && ((dy as int) < 16000)) by (nonlinear_arith)
                        requires
                            (n.position.x - agent.position.x) * (n.position.x - agent.position.x)
                                + (n.position.y - agent.position.y) * (n.position.y
                                - agent.position.y) < 256_000_000,
                            dx as int == agent.position.x - n.position.x,
                            dy as int == agent.position.y - n.position.y,
                    ;
                }
                fx = fx + dx;
                fy = fy + dy;
                cnt = cnt + 1;
            }
            proof {
                assert(s.take(i as int + 1).drop_last() =~= s.take(i as int));
                assert(s.take(i as int + 1).last() == s[i as int]);
            }
            i = i + 1;
        }
        proof {
            assert(s.take(n_len as int) =~= s);
        }
        if cnt == 0 || (fx == 0 && fy == 0) {
            V2 { x: 0, y: 0 }
        } else {
            let acc = V2 { x: fx, y: fy };
            proof {
                assert(acc.norm_sq() > 0) by (nonlinear_arith)
                    requires
                        acc.x != 0 || acc.y != 0,
                        acc.norm_sq() == acc.x * acc.x + acc.y * acc.y,
                ;
                lemma_comp_bound(
                    agent.velocity.x as int,
                    agent.velocity.y as int,
                    MAX_VELOCITY as int,
                );
            }
            let d = acc.scale_to(MAX_VELOCITY);
            V2 { x: d.x - agent.velocity.x, y: d.y - agent.velocity.y }
        }
    }

    /// The alignment force on `agent` against the snapshot `neighbors`:
    /// exactly [`alignment_spec`].
    pub fn alignment_force(agent: &Agent, neighbors: &Vec<Agent>) -> (f: V2)
        requires
            agent.wf(),
            agent.pos_ok(),
            neighbors@.len() <= MAX_AGENTS as int,
            forall|i: int| 0 <= i < neighbors@.len() ==> (#[trigger] neighbors@[i]).pos_ok(),
            forall|i: int| 0 <= i < neighbors@.len() ==> (#[trigger] neighbors@[i]).wf(),
        ensures
            f.x as int == alignment_spec(*agent, neighbors@).0,
            f.y as int == alignment_spec(*agent, neighbors@).1,
            -2 * MAX_VELOCITY <= f.x <= 2 * MAX_VELOCITY,
            -2 * MAX_VELOCITY <= f.y <= 2 * MAX_VELOCITY,
    {
        let ghost s = neighbors@;
        proof {
            assert((MAX_ALIGNMENT as int) * (MAX_ALIGNMENT as int) == 1_024_000_000int)
                by (nonlinear_arith)
                requires
                    MAX_ALIGNMENT == 32000i64,
            ;
        }
        let mut fx: i64 = 0;
        let mut fy: i64 = 0;
        let n_len = neighbors.len();
        let mut i: usize = 0;
        while i < n_len
            invariant
                0 <= i <= n_len,
                n_len == s.len(),
                s == neighbors@,
                s.len() <= MAX_AGENTS as int,
                agent.wf(),
                agent.pos_ok(),
                forall|j: int| 0 <= j < s.len() ==> (#[trigger] s[j]).pos_ok(),
                forall|j: int| 0 <= j < s.len() ==> (#[trigger] s[j]).wf(),
                (MAX_ALIGNMENT as int) * (MAX_ALIGNMENT as int) == 1_024_000_000int,
                (fx as int, fy as int) == ali_sum(*agent, s.take(i as int)),
                -6000 * (i as int) <= fx as int <= 6000 * (i as int),
                -6000 * (i as int) <= fy as int <= 6000 * (i as int),
            decreases n_len - i,
        {
            let n = neighbors[i];
            let d2 = dist_sq_e(n.position, agent.position);
            if n.id != agent.id && d2 < 1_024_000_000i128 {
                proof {
                    lemma_comp_bound(n.velocity.x as int, n.velocity.y as int, MAX_VELOCITY as int);
                }
                fx = fx + n.velocity.x;
                fy = fy + n.velocity.y;
            }
            proof {
                assert(s.take(i as int + 1).drop_last() =~= s.take(i as int));
                assert(s.take(i as int + 1).last() == s[i as int]);
            }
            i = i + 1;
        }
        proof {
            assert(s.take(n_len as int) =~= s);
        }
        if fx == 0 && fy == 0 {
            V2 { x: 0, y: 0 }
        } else {
            let acc = V2 { x: fx, y: fy };
            proof {
                assert(acc.norm_sq() > 0) by (nonlinear_arith)
                    requires
                        acc.x != 0 || acc.y != 0,
                        acc.norm_sq() == acc.x * acc.x + acc.y * acc.y,
                ;
                lemma_comp_bound(
                    agent.velocity.x as int,
                    agent.velocity.y as int,
                    MAX_VELOCITY as int,
                );
            }
            let d = acc.scale_to(MAX_VELOCITY);
            V2 { x: d.x - agent.velocity.x, y: d.y - agent.velocity.y }
        }
    }

    /// The cohesion force on `agent` against the snapshot `neighbors`:
    /// exactly [`cohesion_spec`].
    pub fn cohesion_force(agent: &Agent, neighbors: &Vec<Agent>) -> (f: V2)
        requires
            agent.wf(),
            agent.pos_ok(),
            neighbors@.len() <= MAX_AGENTS as int,
            forall|i: int| 0 <= i < neighbors@.len() ==> (#[trigger] neighbors@[i]).pos_ok(),
        ensures
            f.x as int == cohesion_spec(*agent, neighbors@).0,
            f.y as int == cohesion_spec(*agent, neighbors@).1,
            -2 * MAX_VELOCITY <= f.x <= 2 * MAX_VELOCITY,
            -2 * MAX_VELOCITY <= f.y <= 2 * MAX_VELOCITY,
    {
        let ghost s = neighbors@;
        proof {
            assert((MAX_COHESION as int) * (MAX_COHESION as int) == 256_000_000int)
                by (nonlinear_arith)
                requires
                    MAX_COHESION == 16000i64,
            ;
        }
        let mut fx: i64 = 0;
        let mut fy: i64 = 0;
        let mut cnt: usize = 0;
        let n_len = neighbors.len();
        let mut i: usize = 0;
        while i < n_len
            invariant
                0 <= i <= n_len,
                n_len == s.len(),
                s == neighbors@,
                s.len() <= MAX_AGENTS as int,
                agent.wf(),
                agent.pos_ok(),
                forall|j: int| 0 <= j < s.len() ==> (#[trigger] s[j]).pos_ok(),
                cnt <= i,
                (MAX_COHESION as int) * (MAX_COHESION as int) == 256_000_000int,
                (fx as int, fy as int, cnt as int) == coh_sum(*agent, s.take(i as int)),
                -1_000_000_000_000 * (cnt as int) <= fx as int <= 1_000_000_000_000 * (cnt as int),
                -1_000_000_000_000 * (cnt as int) <= fy as int <= 1_000_000_000_000 * (cnt as int),
            decreases n_len - i,
        {
            let n = neighbors[i];
            let d2 = dist_sq_e(n.position, agent.position);
            if n.id != agent.id && d2 < 256_000_000i128 {
                fx = fx + n.position.x;
                fy = fy + n.position.y;
                cnt = cnt + 1;
            }
            proof {
                assert(s.take(i as int + 1).drop_last() =~= s.take(i as int));
                assert(s.take(i as int + 1).last() == s[i as int]);
            }
            i = i + 1;
        }
        proof {
            assert(s.take(n_len as int) =~= s);
        }
        if cnt == 0 || (fx == 0 && fy == 0) {
            V2 { x: 0, y: 0 }
        } else {
            proof {
                lemma_sdiv_bound(fx as int, POS_LIMIT as int, cnt as int);
                lemma_sdiv_bound(fy as int, POS_LIMIT as int, cnt as int);
            }
            let cx = crate::vec2::tdiv(fx, cnt as i64);
            let cy = crate::vec2::tdiv(fy, cnt as i64);
            let gx = cx - agent.position.x;
            let gy = cy - agent.position.y;
            if gx == 0 && gy == 0 {
                V2 { x: 0, y: 0 }
            } else {
                let acc = V2 { x: gx, y: gy };
                proof {
                    assert(acc.norm_sq() > 0) by (nonlinear_arith)
                        requires
                            acc.x != 0 || acc.y != 0,
                            acc.norm_sq() == acc.x * acc.x + acc.y * acc.y,
                    ;
                    lemma_comp_bound(
                        agent.velocity.x as int,
                        agent.velocity.y as int,
                        MAX_VELOCITY as int,
                    );
                }
                let d = acc.scale_to(MAX_VELOCITY);
                V2 { x: d.x - agent.velocity.x, y: d.y - agent.velocity.y }
            }
        }
    }

    /// The seek force on `agent` toward its own target: exactly
    /// [`seek_spec`]. It is computed per frame but not part of the default
    /// weighted combination; wiring it in is a selectable extension.
    pub fn seek_force(agent: &Agent) -> (f: V2)
        requires
            agent.wf(),
            agent.pos_ok(),
            -POS_LIMIT <= agent.target.x <= POS_LIMIT,
            -POS_LIMIT <= agent.target.y <= POS_LIMIT,
        ensures
            f.x as int == seek_spec(*agent).0,
            f.y as int == seek_spec(*agent).1,
            -2 * MAX_VELOCITY <= f.x <= 2 * MAX_VELOCITY,
            -2 * MAX_VELOCITY <= f.y <= 2 * MAX_VELOCITY,
    {
        let gx = agent.target.x - agent.position.x;
        let gy = agent.target.y - agent.position.y;
        if gx == 0 && gy == 0 {
            V2 { x: 0, y: 0 }
        } else {
            let acc = V2 { x: gx, y: gy };
            proof {
                assert(acc.norm_sq() > 0) by (nonlinear_arith)
                    requires
                        acc.x != 0 || acc.y != 0,
                        acc.norm_sq() == acc.x * acc.x + acc.y * acc.y,
                ;
                lemma_comp_bound(
                    agent.velocity.x as int,
                    agent.velocity.y as int,
                    MAX_VELOCITY as int,
                );
            }
            let d = acc.scale_to(MAX_VELOCITY);
            V2 { x: d.x - agent.velocity.x, y: d.y - agent.velocity.y }
        }
    }

    /// One frame of the simulation: every agent's force is computed against
    /// the same frame-start snapshot, so mutating one agent can never affect
    /// another's force within the same pass; then each agent integrates,
    /// clamps its velocity and wraps at the viewport edges.
    pub fn update(&mut self, width: i64, height: i64)
        requires
            old(self).wf(),
            old(self).all_pos_ok(),
            0 <= width,
            0 <= height,
        ensures
            final(self).agents@.len() == old(self).agents@.len(),
            final(self).wf(),
            forall|i: int|
                0 <= i < final(self).agents@.len() ==> (#[trigger] final(self).agents@[i]).velocity.norm_sq()
                    <= MAX_VELOCITY * MAX_VELOCITY,
            forall|i: int|
                0 <= i < old(self).agents@.len() ==> {
                    let a0 = old(self).agents@[i];
                    let st = step_spec(a0, old(self).agents@, width as int, height as int);
                    let a1 = #[trigger] final(self).agents@[i];
                    &&& a1.id == a0.id
                    &&& a1.rotation == a0.rotation
                    &&& a1.target == a0.target
                    &&& a1.velocity.x as int == st.0
                    &&& a1.velocity.y as int == st.1
                    &&& a1.position.x as int == st.2
                    &&& a1.position.y as int == st.3
                },
    {
        let ghost s = self.agents@;
        let mut updated: Vec<Agent> = Vec::new();
        let n_len = self.agents.len();
        let mut i: usize = 0;
        while i < n_len
            invariant
                0 <= i <= n_len,
                n_len == s.len(),
                s == self.agents@,
                self.agents@.len() <= MAX_AGENTS as int,
                forall|j: int| 0 <= j < s.len() ==> (#[trigger] s[j]).wf(),
                forall|j: int| 0 <= j < s.len() ==> (#[trigger] s[j]).pos_ok(),
                0 <= width,
                0 <= height,
                updated@.len() == i as int,
                forall|j: int|
                    0 <= j < i as int ==> {
                        let a0 = s[j];
                        let st = step_spec(a0, s, width as int, height as int);
                        let a1 = #[trigger] updated@[j];
                        &&& a1.id == a0.id
                        &&& a1.rotation == a0.rotation
                        &&& a1.target == a0.target
                        &&& a1.velocity.x as int == st.0
                        &&& a1.velocity.y as int == st.1
                        &&& a1.position.x as int == st.2
                        &&& a1.position.y as int == st.3
                        &&& a1.wf()
                    },
            decreases n_len - i,
        {
            let a = self.agents[i];
            let sep = Self::separation_force(&a, &self.agents);
            let ali = Self::alignment_force(&a, &self.agents);
            let coh = Self::cohesion_force(&a, &self.agents);
            let sx = sep.x * SEPARATION_WEIGHT + ali.x * ALIGNMENT_WEIGHT + coh.x
                * COHESION_WEIGHT;
            let sy = sep.y * SEPARATION_WEIGHT + ali.y * ALIGNMENT_WEIGHT + coh.y
                * COHESION_WEIGHT;
            let steer = (V2 { x: sx, y: sy }).truncate(MAX_FORCE);
            proof {
                lemma_comp_bound(a.velocity.x as int, a.velocity.y as int, MAX_VELOCITY as int);
            }
            let vel = (V2 { x: a.velocity.x + steer.x, y: a.velocity.y + steer.y }).truncate(
                MAX_VELOCITY,
            );
            let mut next = Agent {
                position: V2 { x: a.position.x + vel.x, y: a.position.y + vel.y },
                velocity: vel,
                ..a
            };
            next.wrap(width, height);
            updated.push(next);
            i = i + 1;
        }
        self.agents = updated;
    }
}

} // verus!
