//! Bounded life pool with alive/dead semantics.
//!
//! `current` always stays in `[0, max]`: every change clamps. The same type
//! doubles as a generic countdown timer (corpse fade, projectile lifetime,
//! attack cooldown).
use vstd::prelude::*;
use crate::fx::{fx_wf, clamp_s, tdiv, fx_clamp, SCALE, FX_MAX};

verus! {

/// A clamped life pool: `0 <= current <= max`, `0 < max`.
#[derive(Clone, Copy, Debug, PartialEq, Eq, Structural)]
pub struct Health {
    pub current: i64,
    pub max: i64,
}

/// Well-formedness: a positive bound and a current value inside it.
pub open spec fn health_wf(h: Health) -> bool {
    0 < h.max <= FX_MAX && 0 <= h.current <= h.max
}

impl Health {
    /// A full pool of capacity `max`.
    pub fn new(max: i64) -> (r: Health)
        requires
            0 < max <= FX_MAX,
        ensures
            health_wf(r),
            r.current == max,
            r.max == max,
    {
        Health { current: max, max }
    }

    /// Add `delta` (negative to damage), clamping into `[0, max]`.
    pub fn change(&mut self, delta: i64)
        requires
            health_wf(*old(self)),
            fx_wf(delta),
        ensures
            health_wf(*final(self)),
            final(self).max == old(self).max,
            final(self).current == clamp_s(old(self).current + delta, 0, old(self).max as int),
    {
        let next: i64 = self.current + delta;
        self.current = fx_clamp(next, 0, self.max);
    }

    /// Alive exactly when some health remains.
    pub fn is_alive(&self) -> (r: bool)
        ensures
            r == (self.current > 0),
    {
        self.current > 0
    }

    /// Force the pool to empty.
    pub fn kill(&mut self)
        requires
            health_wf(*old(self)),
        ensures
            health_wf(*final(self)),
            final(self).max == old(self).max,
            final(self).current == 0,
    {
        self.current = 0;
    }

    /// Remaining fraction as a fixed-point value in `[0, SCALE]`.
    pub fn hp_frac(&self) -> (r: i64)
        requires
            health_wf(*self),
        ensures
            r == tdiv(self.current * SCALE, self.max as int),
            0 <= r <= SCALE,
    {
        proof {
            assert(0 <= self.current * SCALE <= self.max * SCALE) by (nonlinear_arith)
                requires
                    0 <= self.current <= self.max,
                    SCALE > 0,
            ;
            assert(0 <= (self.current * SCALE) / (self.max as int) && (self.current * SCALE) / (
            self.max as int) <= SCALE) by (nonlinear_arith)
                requires
                    0 <= self.current * SCALE <= self.max * SCALE,
                    0 < self.max,
            ;
        }
        let p: i64 = self.current * SCALE;
        crate::fx::tdiv_exec(p, self.max)
    }
}

/// For every well-formed pool and every bounded delta, a change keeps
/// `current` within `[0, max]`, and liveness means exactly that some
/// health remains.
pub proof fn lemma_health_change_bounds(h: Health, delta: i64)
    requires
        health_wf(h),
        fx_wf(delta),
    ensures
        0 <= clamp_s(h.current + delta, 0, h.max as int) <= h.max,
        (clamp_s(h.current + delta, 0, h.max as int) > 0) <==> h.current + delta > 0,
{
}

} // verus!
