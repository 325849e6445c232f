//! Rigid bodies, circle colliders and the axis-aligned arena bounds.
//!
//! Circle-circle collision reports a contact normal and a penetration
//! depth; `collide` resolves it with mass-weighted impulses whose strength
//! callers may override (the combat pass substitutes fixed game-feel
//! constants). When two centers coincide the contact normal is undefined
//! mathematically; the documented policy here is to fall back to the
//! positive x axis.
use vstd::prelude::*;
use crate::fx::{fx_wf, sat, tdiv, fx_mul_s, fx_div_s, clamp_s, fx_add, fx_sub, fx_mul, fx_div,
    fx_neg, fx_clamp, SCALE, FX_MAX};
use crate::vec2::{Vec2, v2_wf, len_s, len_sq_s, norm_s, norm_x_s, norm_y_s, v_add_s, v_sub_s,
    v_scale_s, dot_s, abs_s, sat_exec};

verus! {

/// Drag coefficient and restitution of a body.
#[derive(Clone, Copy, Debug, PartialEq, Eq, Structural)]
pub struct PhysicsMaterial {
    pub drag: i64,
    pub bounciness: i64,
}

/// Drag is nonnegative; bounciness lies in `[0, SCALE]` (zero to one).
pub open spec fn material_wf(m: PhysicsMaterial) -> bool {
    0 <= m.drag <= FX_MAX && 0 <= m.bounciness <= SCALE
}

impl PhysicsMaterial {
    /// A material; bounciness outside `[0, SCALE]` is a configuration
    /// error and is ruled out up front.
    pub fn new(drag: i64, bounciness: i64) -> (r: PhysicsMaterial)
        requires
            0 <= drag <= FX_MAX,
            0 <= bounciness <= SCALE,
        ensures
            r == (PhysicsMaterial { drag, bounciness }),
            material_wf(r),
    {
        PhysicsMaterial { drag, bounciness }
    }
}

/// A circular collision shape.
#[derive(Clone, Copy, Debug, PartialEq, Eq, Structural)]
pub struct Collider {
    pub radius: i64,
}

/// A collider has a positive radius.
pub open spec fn collider_wf(c: Collider) -> bool {
    0 < c.radius <= FX_MAX
}

impl Collider {
    /// A circle of the given radius.
    pub fn new(radius: i64) -> (r: Collider)
        requires
            0 < radius <= FX_MAX,
        ensures
            r == (Collider { radius }),
            collider_wf(r),
    {
        Collider { radius }
    }
}

/// Result of a circle-circle overlap test.
#[derive(Clone, Copy, Debug, PartialEq, Eq, Structural)]
pub struct Collision {
    pub normal: Vec2,
    pub penetration: i64,
}

/// Contact point and strength of a resolved collision.
#[derive(Clone, Copy, Debug, PartialEq, Eq, Structural)]
pub struct HitInfo {
    pub contact: Vec2,
    pub hit_strength: i64,
}

/// The axis-aligned rectangle the arena lives in.
#[derive(Clone, Copy, Debug, PartialEq, Eq, Structural)]
pub struct Bounds {
    pub min: Vec2,
    pub max: Vec2,
}

/// Corner coordinates stay within half the scalar range, so that corner
/// arithmetic never saturates, and each axis spans at least the diameter
/// of a hit particle (radius one unit), so particles always fit.
pub open spec fn bounds_wf(b: Bounds) -> bool {
    &&& -1_000_000_000 <= b.min.x
    &&& -1_000_000_000 <= b.min.y
    &&& b.max.x <= 1_000_000_000
    &&& b.max.y <= 1_000_000_000
    &&& b.max.x - b.min.x >= 2_000
    &&& b.max.y - b.min.y >= 2_000
}

/// A circle of radius `r` can stand fully inside `b` on both axes.
pub open spec fn fits_bounds(b: Bounds, r: int) -> bool {
    2 * r <= b.max.x - b.min.x && 2 * r <= b.max.y - b.min.y
}

/// A position `p` keeps a circle of radius `r` fully inside `b`.
pub open spec fn contained(b: Bounds, p: Vec2, r: int) -> bool {
    &&& b.min.x <= p.x - r
    &&& p.x + r <= b.max.x
    &&& b.min.y <= p.y - r
    &&& p.y + r <= b.max.y
}

/// A body: kinematic state plus collision shape and material.
#[derive(Clone, Copy, Debug, PartialEq, Eq, Structural)]
pub struct RigidBody {
    pub position: Vec2,
    pub velocity: Vec2,
    pub mass: i64,
    pub collider: Collider,
    pub physics_material: PhysicsMaterial,
}

/// Well-formedness of a body: bounded kinematics, positive mass.
pub open spec fn rb_wf(b: RigidBody) -> bool {
    &&& v2_wf(b.position)
    &&& v2_wf(b.velocity)
    &&& 0 < b.mass <= FX_MAX
    &&& collider_wf(b.collider)
    &&& material_wf(b.physics_material)
}

/// Center offset `a - b`, the vector the contact normal points along.
pub open spec fn offset_s(a: RigidBody, b: RigidBody) -> Vec2 {
    v_sub_s(a.position, b.position)
}

/// Penetration depth: combined radii minus center distance, saturated.
pub open spec fn pen_s(a: RigidBody, b: RigidBody) -> int {
    sat(a.collider.radius + b.collider.radius - len_s(offset_s(a, b)))
}

/// Two bodies overlap when the center distance is within the radii sum.
pub open spec fn collides_s(a: RigidBody, b: RigidBody) -> bool {
    len_s(offset_s(a, b)) <= a.collider.radius + b.collider.radius
}

/// Strength of a hit: magnitude of the relative velocity along the normal.
pub open spec fn hit_strength_s(a: RigidBody, b: RigidBody) -> int {
    abs_s(dot_s(norm_s(offset_s(a, b)), v_sub_s(b.velocity, a.velocity)))
}

/// The body after one position integration step.
pub open spec fn movement_s(rb: RigidBody, dt: int) -> RigidBody {
    RigidBody { position: v_add_s(rb.position, v_scale_s(rb.velocity, dt)), ..rb }
}

/// The body after one drag step.
pub open spec fn drag_s(rb: RigidBody, dt: int) -> RigidBody {
    RigidBody {
        velocity: v_scale_s(
            rb.velocity,
            clamp_s(SCALE - fx_mul_s(rb.physics_material.drag as int, dt), 0, SCALE as int),
        ),
        ..rb
    }
}

/// The body after bouncing off (and being clamped back inside) `b`.
pub open spec fn bounce_s(rb: RigidBody, b: Bounds) -> RigidBody {
    RigidBody {
        velocity: Vec2 {
            x: if exits_x(b, rb) {
                (-fx_mul_s(rb.velocity.x as int, rb.physics_material.bounciness as int)) as i64
            } else {
                rb.velocity.x
            },
            y: if exits_y(b, rb) {
                (-fx_mul_s(rb.velocity.y as int, rb.physics_material.bounciness as int)) as i64
            } else {
                rb.velocity.y
            },
        },
        position: Vec2 {
            x: clamp_s(
                rb.position.x as int,
                b.min.x + rb.collider.radius,
                b.max.x - rb.collider.radius,
            ) as i64,
            y: clamp_s(
                rb.position.y as int,
                b.min.y + rb.collider.radius,
                b.max.y - rb.collider.radius,
            ) as i64,
        },
        ..rb
    }
}

impl RigidBody {
    /// A body at rest at `position`.
    pub fn new(position: Vec2, mass: i64, collider: Collider, physics_material: PhysicsMaterial)
        -> (r: RigidBody)
        requires
            v2_wf(position),
            0 < mass <= FX_MAX,
            collider_wf(collider),
            material_wf(physics_material),
        ensures
            r == (RigidBody {
                position,
                velocity: Vec2 { x: 0, y: 0 },
                mass,
                collider,
                physics_material,
            }),
            rb_wf(r),
    {
        RigidBody { position, velocity: Vec2 { x: 0, y: 0 }, mass, collider, physics_material }
    }

    /// Integrate the position: `position += velocity * dt`.
    pub fn movement(&mut self, delta_time: i64)
        requires
            rb_wf(*old(self)),
            fx_wf(delta_time),
        ensures
            rb_wf(*final(self)),
            final(self).position == v_add_s(
                old(self).position,
                v_scale_s(old(self).velocity, delta_time as int),
            ),
            *final(self) == movement_s(*old(self), delta_time as int),
    {
        let step = self.velocity.scale(delta_time);
        self.position = self.position.add(step);
    }

    /// Apply drag: `velocity *= max(0, 1 - drag * dt)`.
    pub fn drag(&mut self, delta_time: i64)
        requires
            rb_wf(*old(self)),
            0 <= delta_time <= FX_MAX,
        ensures
            rb_wf(*final(self)),
            final(self).velocity == v_scale_s(
                old(self).velocity,
                crate::fx::clamp_s(
                    SCALE - fx_mul_s(old(self).physics_material.drag as int, delta_time as int),
                    0,
                    SCALE as int,
                ),
            ),
            *final(self) == drag_s(*old(self), delta_time as int),
    {
        let loss: i64 = fx_mul(self.physics_material.drag, delta_time);
        let factor: i64 = fx_clamp(fx_sub(SCALE, loss), 0, SCALE);
        proof {
            assert(clamp_s(sat(SCALE - loss), 0, SCALE as int) == clamp_s(
                SCALE - loss,
                0,
                SCALE as int,
            ));
        }
        self.velocity = self.velocity.scale(factor);
    }

    /// Circle-circle overlap test. Returns the contact normal (pointing
    /// from `other` toward `self`) and the penetration depth; `None` when
    /// the circles do not touch.
    pub fn collision(&self, other: &RigidBody) -> (r: Option<Collision>)
        requires
            rb_wf(*self),
            rb_wf(*other),
        ensures
            r.is_some() <==> collides_s(*self, *other),
            r.is_some() ==> r.unwrap() == (Collision {
                normal: norm_s(offset_s(*self, *other)),
                penetration: pen_s(*self, *other) as i64,
            }),
            r.is_some() ==> 0 <= r.unwrap().penetration <= FX_MAX && v2_wf(r.unwrap().normal),
    {
        let offset = self.position.sub(other.position);
        let len: i64 = offset.length();
        let rsum: i64 = self.collider.radius + other.collider.radius;
        if len <= rsum {
            let pen: i64 = sat_exec(rsum - len);
            Some(Collision { normal: offset.normalize(), penetration: pen })
        } else {
            None
        }
    }

    /// Resolve a collision: push `self` out along the normal, then apply
    /// mass-weighted impulses to both bodies. `hit_override` replaces the
    /// strength applied to `other`, `impact_override` the one applied to
    /// `self`; the reported strength is always the physical one.
    pub fn collide(&mut self, other: &mut RigidBody, hit_override: Option<i64>,
        impact_override: Option<i64>) -> (r: Option<HitInfo>)
        requires
            rb_wf(*old(self)),
            rb_wf(*old(other)),
            hit_override.is_some() ==> fx_wf(hit_override.unwrap()),
            impact_override.is_some() ==> fx_wf(impact_override.unwrap()),
        ensures
            rb_wf(*final(self)),
            rb_wf(*final(other)),
            r.is_some() <==> collides_s(*old(self), *old(other)),
            !r.is_some() ==> *final(self) == *old(self) && *final(other) == *old(other),
            r.is_some() ==> ({
                let n = norm_s(offset_s(*old(self), *old(other)));
                let pen = pen_s(*old(self), *old(other));
                let hit = hit_strength_s(*old(self), *old(other));
                let imp_applied = if impact_override.is_some() {
                    impact_override.unwrap() as int
                } else {
                    hit
                };
                let hit_applied = if hit_override.is_some() {
                    hit_override.unwrap() as int
                } else {
                    hit
                };
                &&& final(self).position == v_add_s(old(self).position, v_scale_s(n, pen))
                &&& final(self).velocity == v_add_s(
                    old(self).velocity,
                    v_scale_s(
                        v_scale_s(n, imp_applied),
                        fx_div_s(old(other).mass as int, old(self).mass as int),
                    ),
                )
                &&& final(other).velocity == v_sub_s(
                    old(other).velocity,
                    v_scale_s(
                        v_scale_s(n, hit_applied),
                        fx_div_s(old(self).mass as int, old(other).mass as int),
                    ),
                )
                &&& final(other).position == old(other).position
                &&& r.unwrap().hit_strength == hit
                &&& r.unwrap().contact == v_add_s(
                    old(other).position,
                    v_scale_s(n, sat(old(other).collider.radius - pen)),
                )
                &&& fx_wf(r.unwrap().hit_strength)
                &&& v2_wf(r.unwrap().contact)
            }),
            final(self).mass == old(self).mass && final(self).collider == old(self).collider
                && final(self).physics_material == old(self).physics_material,
            final(other).mass == old(other).mass && final(other).collider == old(other).collider
                && final(other).physics_material == old(other).physics_material,
    {
        let maybe = self.collision(other);
        match maybe {
            None => None,
            Some(collision) => {
                self.position = self.position.add(collision.normal.scale(collision.penetration));
                let relative_velocity = other.velocity.sub(self.velocity);
                let d: i64 = collision.normal.dot(relative_velocity);
                let hit_strength: i64 = if d < 0 {
                    fx_neg(d)
                } else {
                    d
                };
                let imp: i64 = match impact_override {
                    Some(v) => v,
                    None => hit_strength,
                };
                let ratio_self: i64 = fx_div(other.mass, self.mass);
                let change = collision.normal.scale(imp).scale(ratio_self);
                self.velocity = self.velocity.add(change);
                let hit: i64 = match hit_override {
                    Some(v) => v,
                    None => hit_strength,
                };
                let ratio_other: i64 = fx_div(self.mass, other.mass);
                let change2 = collision.normal.scale(hit).scale(ratio_other);
                other.velocity = other.velocity.sub(change2);
                let along: i64 = fx_sub(other.collider.radius, collision.penetration);
                let contact = other.position.add(collision.normal.scale(along));
                Some(HitInfo { contact, hit_strength })
            },
        }
    }

    /// Clamp the position so the collider lies fully inside `bounds`.
    pub fn clamp_bounds(&mut self, bounds: &Bounds)
        requires
            rb_wf(*old(self)),
            bounds_wf(*bounds),
            fits_bounds(*bounds, old(self).collider.radius as int),
        ensures
            rb_wf(*final(self)),
            final(self).position.x == clamp_s(
                old(self).position.x as int,
                bounds.min.x + old(self).collider.radius,
                bounds.max.x - old(self).collider.radius,
            ),
            final(self).position.y == clamp_s(
                old(self).position.y as int,
                bounds.min.y + old(self).collider.radius,
                bounds.max.y - old(self).collider.radius,
            ),
            contained(*bounds, final(self).position, old(self).collider.radius as int),
            *final(self) == (RigidBody { position: final(self).position, ..*old(self) }),
    {
        let r: i64 = self.collider.radius;
        let x = fx_clamp(self.position.x, bounds.min.x + r, bounds.max.x - r);
        let y = fx_clamp(self.position.y, bounds.min.y + r, bounds.max.y - r);
        self.position = Vec2 { x, y };
    }

    /// Bounce off the arena bounds: on each axis where the collider exits,
    /// flip and scale that velocity component by the bounciness; then clamp
    /// the position back inside. Returns whether any bounce happened.
    pub fn bounce_bounds(&mut self, bounds: &Bounds) -> (bounced: bool)
        requires
            rb_wf(*old(self)),
            bounds_wf(*bounds),
            fits_bounds(*bounds, old(self).collider.radius as int),
        ensures
            rb_wf(*final(self)),
            bounced == (exits_x(*bounds, *old(self)) || exits_y(*bounds, *old(self))),
            final(self).velocity.x == if exits_x(*bounds, *old(self)) {
                -fx_mul_s(old(self).velocity.x as int, old(self).physics_material.bounciness as int)
            } else {
                old(self).velocity.x as int
            },
            final(self).velocity.y == if exits_y(*bounds, *old(self)) {
                -fx_mul_s(old(self).velocity.y as int, old(self).physics_material.bounciness as int)
            } else {
                old(self).velocity.y as int
            },
            final(self).position.x == clamp_s(
                old(self).position.x as int,
                bounds.min.x + old(self).collider.radius,
                bounds.max.x - old(self).collider.radius,
            ),
            final(self).position.y == clamp_s(
                old(self).position.y as int,
                bounds.min.y + old(self).collider.radius,
                bounds.max.y - old(self).collider.radius,
            ),
            contained(*bounds, final(self).position, old(self).collider.radius as int),
            *final(self) == bounce_s(*old(self), *bounds),
            final(self).mass == old(self).mass && final(self).collider == old(self).collider
                && final(self).physics_material == old(self).physics_material,
    {
        let r: i64 = self.collider.radius;
        let mut bounced = false;
        if self.position.x - r < bounds.min.x || self.position.x + r > bounds.max.x {
            self.velocity = Vec2 {
                x: fx_neg(fx_mul(self.velocity.x, self.physics_material.bounciness)),
                y: self.velocity.y,
            };
            bounced = true;
        }
        if self.position.y - r < bounds.min.y || self.position.y + r > bounds.max.y {
            self.velocity = Vec2 {
                x: self.velocity.x,
                y: fx_neg(fx_mul(self.velocity.y, self.physics_material.bounciness)),
            };
            bounced = true;
        }
        self.clamp_bounds(bounds);
        bounced
    }

}

/// The collider exits the bounds on the x axis.
pub open spec fn exits_x(b: Bounds, body: RigidBody) -> bool {
    body.position.x - body.collider.radius < b.min.x || body.position.x + body.collider.radius
        > b.max.x
}

/// The collider exits the bounds on the y axis.
pub open spec fn exits_y(b: Bounds, body: RigidBody) -> bool {
    body.position.y - body.collider.radius < b.min.y || body.position.y + body.collider.radius
        > b.max.y
}

} // verus!
