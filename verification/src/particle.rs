//! Cosmetic, physics-driven, time-limited particles.
//!
//! Particles never collide with gameplay entities, only with the arena
//! bounds. A hit scatters a bounded random number of them; each gets a
//! random direction and speed and a fixed short lifetime.
use vstd::prelude::*;
use crate::fx::{fx_wf, tdiv, SCALE, FX_MAX};
use crate::vec2::{Vec2, v2_wf, v_scale_s, len_sq_s, lemma_normalize_near_unit};
use crate::health::{Health, health_wf};
use crate::physics::{RigidBody, Collider, Bounds, rb_wf, fits_bounds};
use crate::entity::{Color, color_wf};
use crate::model::{Model, model_wf, generic_material, PARTICLE_LIFETIME};
use crate::rng::rand_range;

verus! {

/// A short-lived decoration with its own rigid body.
#[derive(Debug)]
pub struct Particle {
    pub rigidbody: RigidBody,
    pub color: Color,
    pub lifetime: Health,
}

/// Well-formedness of a particle within arena `b`.
pub open spec fn particle_wf(p: Particle, b: Bounds) -> bool {
    &&& rb_wf(p.rigidbody)
    &&& fits_bounds(b, p.rigidbody.collider.radius as int)
    &&& color_wf(p.color)
    &&& health_wf(p.lifetime)
}

/// Exclusive upper bound on the particle count for a hit of the given
/// intensity: `intensity / 10` in world units, at least 2 (so one particle
/// always appears) and at most 50.
pub open spec fn particle_cap(intensity: int) -> int {
    let c = tdiv(intensity, 10 * SCALE);
    if c < 2 {
        2
    } else if c > 50 {
        50
    } else {
        c
    }
}

/// A particle freshly spawned by a hit at `position` with paint `color`:
/// full fixed lifetime, unit collider, generic material, and a velocity
/// that is some near-unit direction scaled by a speed of ten to thirty
/// units per second.
pub open spec fn fresh_particle(p: Particle, position: Vec2, color: Color) -> bool {
    &&& p.rigidbody.position == position
    &&& p.rigidbody.mass == 1000
    &&& p.rigidbody.collider == (Collider { radius: 1000 as i64 })
    &&& p.rigidbody.physics_material == (crate::physics::PhysicsMaterial {
        drag: crate::model::DRAG as i64,
        bounciness: crate::model::BOUNCINESS as i64,
    })
    &&& -30_000 <= p.rigidbody.velocity.x <= 30_000
    &&& -30_000 <= p.rigidbody.velocity.y <= 30_000
    &&& (exists|dir: Vec2, s: i64|
        {
            &&& v2_wf(dir)
            &&& (SCALE - 3) * (SCALE - 3) < len_sq_s(dir) < (SCALE + 1) * (SCALE + 1)
            &&& 10_000 <= s < 30_000
            &&& p.rigidbody.velocity == #[trigger] v_scale_s(dir, s as int)
        })
    &&& p.color == color
    &&& p.lifetime == (Health { current: PARTICLE_LIFETIME as i64, max: PARTICLE_LIFETIME as i64 })
}

impl Model {
    /// Scatter between `1` and `particle_cap(intensity) - 1` particles at
    /// `position`, each with a random direction and speed.
    pub fn spawn_particles_hit(&mut self, position: Vec2, intensity: i64, color: Color)
        requires
            model_wf(*old(self)),
            v2_wf(position),
            fx_wf(intensity),
            color_wf(color),
        ensures
            model_wf(*final(self)),
            final(self).particles@.len() > old(self).particles@.len(),
            final(self).particles@.len() - old(self).particles@.len() < particle_cap(
                intensity as int,
            ),
            final(self).particles@.subrange(0, old(self).particles@.len() as int) == old(
                self,
            ).particles@,
            forall|j: int|
                old(self).particles@.len() <= j < final(self).particles@.len()
                    ==> fresh_particle(#[trigger] final(self).particles@[j], position, color),
            *final(self) == (Model { particles: final(self).particles, ..*old(self) }),
    {
        let units: i64 = crate::fx::tdiv_exec(intensity, 10 * SCALE);
        let cap: i64 = if units < 2 {
            2
        } else if units > 50 {
            50
        } else {
            units
        };
        let count: i64 = rand_range(1, cap);
        let ghost orig = self.particles@;
        let material = generic_material();
        let mut spawned: i64 = 0;
        while spawned < count
            invariant
                model_wf(*self),
                0 <= spawned <= count,
                1 <= count < particle_cap(intensity as int),
                self.particles@.len() == orig.len() + spawned,
                self.particles@.subrange(0, orig.len() as int) == orig,
                forall|j: int|
                    orig.len() <= j < self.particles@.len() ==> fresh_particle(
                        #[trigger] self.particles@[j],
                        position,
                        color,
                    ),
                *self == (Model { particles: self.particles, ..*old(self) }),
                v2_wf(position),
                color_wf(color),
                material == (crate::physics::PhysicsMaterial {
                    drag: crate::model::DRAG as i64,
                    bounciness: crate::model::BOUNCINESS as i64,
                }),
            decreases count - spawned,
        {
            let direction = Self::get_random_direction();
            let speed: i64 = rand_range(10_000, 30_000);
            let velocity = direction.scale(speed);
            proof {
                assert(-30_000 <= crate::fx::fx_mul_s(direction.x as int, speed as int) <= 30_000
                    && -30_000 <= crate::fx::fx_mul_s(direction.y as int, speed as int) <= 30_000)
                    by (nonlinear_arith)
                    requires
                        -SCALE <= direction.x <= SCALE,
                        -SCALE <= direction.y <= SCALE,
                        10_000 <= speed < 30_000,
                ;
                assert(velocity == v_scale_s(direction, speed as int));
            }
            self.particles.push(
                Particle {
                    rigidbody: RigidBody {
                        position,
                        velocity,
                        mass: 1000,
                        collider: Collider { radius: 1000 },
                        physics_material: material,
                    },
                    color,
                    lifetime: Health::new(PARTICLE_LIFETIME),
                },
            );
            spawned = spawned + 1;
            proof {
                assert(self.particles@.subrange(0, orig.len() as int) =~= orig);
            }
        }
    }

    /// A random direction of unit length up to fixed-point truncation:
    /// whatever the draw, the squared length lies strictly between
    /// `(SCALE - 3)^2` and `(SCALE + 1)^2`. The raw draw is blown up to
    /// at least one unit before normalizing, so a short draw cannot
    /// leave the direction over-long; a zero draw falls back to the
    /// positive x axis.
    pub fn get_random_direction() -> (r: Vec2)
        ensures
            v2_wf(r),
            -SCALE <= r.x <= SCALE,
            -SCALE <= r.y <= SCALE,
            (SCALE - 3) * (SCALE - 3) < len_sq_s(r),
            len_sq_s(r) < (SCALE + 1) * (SCALE + 1),
    {
        let x: i64 = rand_range(-SCALE, SCALE + 1);
        let y: i64 = rand_range(-SCALE, SCALE + 1);
        if x == 0 && y == 0 {
            let r = Vec2 { x: SCALE, y: 0 };
            proof {
                assert(len_sq_s(r) == SCALE * SCALE) by (nonlinear_arith)
                    requires
                        r.x == SCALE,
                        r.y == 0,
                        len_sq_s(r) == r.x * r.x + r.y * r.y,
                ;
            }
            r
        } else {
            let sx: i64 = x * SCALE;
            let sy: i64 = y * SCALE;
            let v = Vec2 { x: sx, y: sy };
            proof {
                assert(len_sq_s(v) >= SCALE * SCALE) by (nonlinear_arith)
                    requires
                        len_sq_s(v) == v.x * v.x + v.y * v.y,
                        v.x == x * SCALE,
                        v.y == y * SCALE,
                        !(x == 0 && y == 0),
                        -SCALE <= x <= SCALE,
                        -SCALE <= y <= SCALE,
                        SCALE == 1000,
                ;
                lemma_normalize_near_unit(v);
            }
            let r = v.normalize();
            proof {
                assert(r == crate::vec2::norm_s(v));
            }
            r
        }
    }
}

} // verus!
