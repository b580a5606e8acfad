//! The simulation agent: position, velocity, heading, shared pursuit target
//! and identity, with clamped construction and toroidal boundary wrapping.

use vstd::prelude::*;
use crate::vec2::{truncate_spec, V2};
use crate::{MAX_VELOCITY, POS_LIMIT, VEL_LIMIT};

verus! {

/// One autonomous agent. The agent owns simulation state only; a separate
/// presentation layer may map `id` to whatever visual handle it keeps and
/// read the position back after every frame.
#[derive(Clone, Copy, Debug, PartialEq, Eq, Structural)]
pub struct Agent {
    /// Identity, stable for the agent's lifetime; used only to exclude the
    /// agent from its own neighbour queries. Uniqueness is the caller's
    /// responsibility.
    pub id: u32,
    /// Current position, plane coordinates centred at the origin.
    pub position: V2,
    /// Scalar heading, reserved for orientation display; the force math
    /// never reads it.
    pub rotation: i64,
    /// Current velocity; magnitude at most [`MAX_VELOCITY`] after every
    /// integration step.
    pub velocity: V2,
    /// Shared pursuit target, broadcast by the manager.
    pub target: V2,
}

/// The toroidal boundary rule on a `w` by `h` viewport centred at the
/// origin, checked as a first-match chain: only the first out-of-bounds
/// condition in the order left, right, bottom, top is corrected per call,
/// so an agent out of bounds on both axes wraps only one axis that frame.
pub open spec fn wrap_spec(px: int, py: int, w: int, h: int) -> (int, int) {
    let hw = w / 2;
    let hh = h / 2;
    if px < -hw {
        (hw, py)
    } else if px > hw {
        (-hw, py)
    } else if py < -hh {
        (px, hh)
    } else if py > hh {
        (px, -hh)
    } else {
        (px, py)
    }
}

impl Agent {
    /// The agent's velocity never exceeds the clamp.
    pub open spec fn wf(self) -> bool {
        self.velocity.norm_sq() <= MAX_VELOCITY * MAX_VELOCITY
    }

    /// The agent's position is within the coordinate range the steering
    /// pass accepts.
    pub open spec fn pos_ok(self) -> bool {
        &&& -POS_LIMIT <= self.position.x <= POS_LIMIT
        &&& -POS_LIMIT <= self.position.y <= POS_LIMIT
    }

    /// Builds an agent from a caller-chosen starting configuration (the
    /// caller owns any randomness): the velocity is clamped to
    /// [`MAX_VELOCITY`], the heading starts at zero and the target at the
    /// origin.
    pub fn new(id: u32, position: V2, velocity: V2) -> (a: Agent)
        requires
            -POS_LIMIT <= position.x <= POS_LIMIT,
            -POS_LIMIT <= position.y <= POS_LIMIT,
            -VEL_LIMIT <= velocity.x <= VEL_LIMIT,
            -VEL_LIMIT <= velocity.y <= VEL_LIMIT,
        ensures
            a.id == id,
            a.position == position,
            a.rotation == 0,
            a.target == (V2 { x: 0, y: 0 }),
            (a.velocity.x as int, a.velocity.y as int) == truncate_spec(
                velocity.x as int,
                velocity.y as int,
                MAX_VELOCITY as int,
            ),
            a.wf(),
            a.pos_ok(),
    {
        Agent {
            id,
            position,
            rotation: 0,
            velocity: velocity.truncate(MAX_VELOCITY),
            target: V2 { x: 0, y: 0 },
        }
    }

    /// Applies the toroidal boundary rule [`wrap_spec`] to the agent's
    /// position; every other field is left untouched.
    pub fn wrap(&mut self, width: i64, height: i64)
        requires
            0 <= width,
            0 <= height,
        ensures
            (final(self).position.x as int, final(self).position.y as int) == wrap_spec(
                old(self).position.x as int,
                old(self).position.y as int,
                width as int,
                height as int,
            ),
            final(self).id == old(self).id,
            final(self).rotation == old(self).rotation,
            final(self).velocity == old(self).velocity,
            final(self).target == old(self).target,
    {
        let hw = ((width as u64) / 2) as i64;
        let hh = ((height as u64) / 2) as i64;
        if self.position.x < -hw {
            self.position.x = hw;
        } else if self.position.x > hw {
            self.position.x = -hw;
        } else if self.position.y < -hh {
            self.position.y = hh;
        } else if self.position.y > hh {
            self.position.y = -hh;
        }
    }

    /// The agent's identity.
    pub fn id(&self) -> (r: u32)
        ensures
            r == self.id,
    {
        self.id
    }

    /// The agent's current position.
    pub fn position(&self) -> (r: V2)
        ensures
            r == self.position,
    {
        self.position
    }

    /// The agent's current velocity.
    pub fn velocity(&self) -> (r: V2)
        ensures
            r == self.velocity,
    {
        self.velocity
    }

    /// The agent's heading.
    pub fn rotation(&self) -> (r: i64)
        ensures
            r == self.rotation,
    {
        self.rotation
    }

    /// The agent's current pursuit target.
    pub fn target(&self) -> (r: V2)
        ensures
            r == self.target,
    {
        self.target
    }
}

} // verus!
