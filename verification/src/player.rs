//! The player: a body and head pair chained together.
use vstd::prelude::*;
use crate::fx::{fx_wf, FX_MAX};
use crate::vec2::{Vec2, v2_wf};
use crate::health::{Health, health_wf};
use crate::physics::{RigidBody, Collider, PhysicsMaterial, Bounds, rb_wf, fits_bounds,
    material_wf};

verus! {

/// The player-controlled pair of bodies with shared health.
#[derive(Clone, Copy, Debug, PartialEq, Eq, Structural)]
pub struct Player {
    pub body: RigidBody,
    pub head: RigidBody,
    pub head_target: Vec2,
    pub target_head_velocity: Vec2,
    pub target_body_velocity: Vec2,
    pub chain_length: i64,
    pub health: Health,
}

/// Well-formedness of the player within arena `b`.
pub open spec fn player_wf(p: Player, b: Bounds) -> bool {
    &&& rb_wf(p.body)
    &&& rb_wf(p.head)
    &&& fits_bounds(b, p.body.collider.radius as int)
    &&& fits_bounds(b, p.head.collider.radius as int)
    &&& v2_wf(p.head_target)
    &&& v2_wf(p.target_head_velocity)
    &&& v2_wf(p.target_body_velocity)
    &&& 0 < p.chain_length <= FX_MAX
    &&& health_wf(p.health)
}

impl Player {
    /// A player at `position`, at rest, with the head offset along the
    /// chain on the x axis.
    pub fn new(position: Vec2, body_radius: i64, chain_length: i64, head_radius: i64,
        max_health: i64, material: PhysicsMaterial) -> (r: Player)
        requires
            v2_wf(position),
            0 < body_radius <= FX_MAX,
            0 < chain_length <= FX_MAX,
            0 < head_radius <= FX_MAX,
            0 < max_health <= FX_MAX,
            material_wf(material),
            position.x + chain_length <= FX_MAX,
        ensures
            r.body == (RigidBody {
                position,
                velocity: Vec2 { x: 0, y: 0 },
                mass: 10_000 as i64,
                collider: Collider { radius: body_radius },
                physics_material: material,
            }),
            r.head.position == (Vec2 { x: (position.x + chain_length) as i64, y: position.y }),
            r.head.velocity == (Vec2 { x: 0, y: 0 }),
            r.head.collider == (Collider { radius: head_radius }),
            r.head.mass == 1_000,
            r.head.physics_material == material,
            r.head_target == position,
            r.target_head_velocity == (Vec2 { x: 0, y: 0 }),
            r.target_body_velocity == (Vec2 { x: 0, y: 0 }),
            r.chain_length == chain_length,
            r.health == (Health { current: max_health, max: max_health }),
    {
        let head_pos = Vec2 { x: position.x + chain_length, y: position.y };
        Player {
            body: RigidBody::new(position, 10_000, Collider::new(body_radius), material),
            head: RigidBody::new(head_pos, 1_000, Collider::new(head_radius), material),
            head_target: position,
            target_head_velocity: Vec2 { x: 0, y: 0 },
            target_body_velocity: Vec2 { x: 0, y: 0 },
            chain_length,
            health: Health::new(max_health),
        }
    }
}

} // verus!
