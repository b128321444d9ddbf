//! The spring-mass-damper position model.
//!
//! The modeled pen tip is a mass pulled toward an anchor (the wobble-smoothed
//! raw position) by a spring and slowed by a damper.  One step of the chosen
//! semi-implicit (symplectic) Euler formulation over a step `dt` is
//!
//! ```text
//! accel = (anchor - pos) / spring_mass_constant - drag_constant * vel
//! vel'  = vel + accel * dt
//! pos'  = pos + vel' * dt
//! ```
//!
//! computed per axis in saturating fixed point; a `dt` of zero is a valid
//! degenerate step that leaves position and velocity unchanged.

use vstd::prelude::*;
use crate::fixed::{LIM, fxs_add, fxs_sub, fxs_mul, fxs_div, fx_add, fx_sub, fx_mul, fx_div};

verus! {

/// State of the integrator: tip position, velocity, and the time of the
/// last completed step, all in fixed-point ticks.
#[derive(Debug, Clone, Copy, PartialEq, Eq)]
pub struct PositionModeler {
    pub pos: (i64, i64),
    pub vel: (i64, i64),
    pub time: i64,
}

/// The acceleration one step applies along one axis.
pub open spec fn step_accel(pos: int, vel: int, anchor: int, smc: int, drag: int) -> int {
    fxs_sub(fxs_div(fxs_sub(anchor, pos), smc), fxs_mul(drag, vel))
}

/// The velocity after one step along one axis.
pub open spec fn step_vel(pos: int, vel: int, anchor: int, dt: int, smc: int, drag: int) -> int {
    fxs_add(vel, fxs_mul(step_accel(pos, vel, anchor, smc, drag), dt))
}

/// The position after one step along one axis, from the updated velocity.
pub open spec fn step_pos(pos: int, v_new: int, dt: int) -> int {
    fxs_add(pos, fxs_mul(v_new, dt))
}

impl PositionModeler {
    /// The state stays inside the saturation band, and time never runs
    /// backwards past zero.
    pub open spec fn wf(self) -> bool {
        &&& -LIM <= self.pos.0 <= LIM
        &&& -LIM <= self.pos.1 <= LIM
        &&& -LIM <= self.vel.0 <= LIM
        &&& -LIM <= self.vel.1 <= LIM
        &&& 0 <= self.time <= LIM
    }

    /// A fresh integrator at rest at `pos`, as of time `time`.
    pub fn anchored(pos: (i64, i64), time: i64) -> (r: PositionModeler)
        requires
            -LIM <= pos.0 <= LIM,
            -LIM <= pos.1 <= LIM,
            0 <= time <= LIM,
        ensures
            r == (PositionModeler { pos, vel: (0i64, 0i64), time }),
            r.wf(),
    {
        PositionModeler { pos, vel: (0, 0), time }
    }

    /// Advance the model to `new_time`, pulled toward `anchor`.  The new
    /// state is exactly one semi-implicit Euler step of the dynamics.
    pub fn update(&mut self, anchor: (i64, i64), new_time: i64, smc: i64, drag: i64)
        requires
            old(self).wf(),
            -LIM <= anchor.0 <= LIM,
            -LIM <= anchor.1 <= LIM,
            old(self).time <= new_time <= LIM,
            1 <= smc <= LIM,
            1 <= drag <= LIM,
        ensures
            final(self).wf(),
            final(self).time == new_time,
            final(self).vel.0 as int == step_vel(
                old(self).pos.0 as int,
                old(self).vel.0 as int,
                anchor.0 as int,
                new_time - old(self).time,
                smc as int,
                drag as int,
            ),
            final(self).vel.1 as int == step_vel(
                old(self).pos.1 as int,
                old(self).vel.1 as int,
                anchor.1 as int,
                new_time - old(self).time,
                smc as int,
                drag as int,
            ),
            final(self).pos.0 as int == step_pos(
                old(self).pos.0 as int,
                final(self).vel.0 as int,
                new_time - old(self).time,
            ),
            final(self).pos.1 as int == step_pos(
                old(self).pos.1 as int,
                final(self).vel.1 as int,
                new_time - old(self).time,
            ),
    {
        let dt: i64 = new_time - self.time;
        let ax: i64 = fx_sub(fx_div(fx_sub(anchor.0, self.pos.0), smc), fx_mul(drag, self.vel.0));
        let ay: i64 = fx_sub(fx_div(fx_sub(anchor.1, self.pos.1), smc), fx_mul(drag, self.vel.1));
        let vx: i64 = fx_add(self.vel.0, fx_mul(ax, dt));
        let vy: i64 = fx_add(self.vel.1, fx_mul(ay, dt));
        let px: i64 = fx_add(self.pos.0, fx_mul(vx, dt));
        let py: i64 = fx_add(self.pos.1, fx_mul(vy, dt));
        self.pos = (px, py);
        self.vel = (vx, vy);
        self.time = new_time;
    }
}

} // verus!
