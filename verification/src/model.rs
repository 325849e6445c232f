//! The model: owner of all simulation state and of the tuning constants.
use vstd::prelude::*;
use crate::fx::{fx_wf, FX_MAX, SCALE};
use crate::fx::{sat, tdiv};
use crate::vec2::{Vec2, v2_wf, v_scale_s, len_s};
use crate::health::{Health, health_wf};
use crate::physics::{RigidBody, Bounds, bounds_wf, rb_wf, PhysicsMaterial, material_wf};
use crate::entity::{Entity, EnemyInfo, EnemyType, Color, entity_wf, color_wf};
use crate::player::{Player, player_wf};
use crate::spawner::{Spawner, Wave, WaveGroup, spawner_wf, wave_wf};
use crate::area::{AreaEffect, area_effect_wf};
use crate::particle::{Particle, particle_wf};
use crate::events::Event;

verus! {

/// Target speed of the player body, in fixed-point units per second.
pub const PLAYER_SPEED: i64 = 50_000;

/// Target speed of the player head.
pub const HEAD_SPEED: i64 = 150_000;

/// Fixed impulse pushing an enemy away from the player body.
pub const BODY_HIT_SPEED: i64 = 50_000;

/// Fixed impulse pushing the player body back from an enemy.
pub const BODY_IMPACT: i64 = 10_000;

/// Generic drag coefficient.
pub const DRAG: i64 = 1_000;

/// Generic restitution.
pub const BOUNCINESS: i64 = 500;

/// How long a corpse fades before removal.
pub const CORPSE_LIFETIME: i64 = 1_000;

/// How long a hit particle lives.
pub const PARTICLE_LIFETIME: i64 = 500;

/// Body acceleration toward its target velocity, per second.
pub const BODY_ACCELERATION: i64 = 10_000;

/// Head acceleration toward its target velocity, per second.
pub const HEAD_ACCELERATION: i64 = 10_000;

/// The color hit particles take when the player is struck.
pub fn player_color() -> (c: Color)
    ensures
        c == (Color { r: SCALE as i64, g: SCALE as i64, b: SCALE as i64, a: SCALE as i64 }),
        color_wf(c),
{
    Color { r: SCALE, g: SCALE, b: SCALE, a: SCALE }
}

/// The shared physics material of entities and particles.
pub fn generic_material() -> (m: PhysicsMaterial)
    ensures
        m == (PhysicsMaterial { drag: DRAG as i64, bounciness: BOUNCINESS as i64 }),
        material_wf(m),
{
    PhysicsMaterial { drag: DRAG, bounciness: BOUNCINESS }
}

/// Owner of all simulation state.
#[derive(Debug)]
pub struct Model {
    pub bounds: Bounds,
    pub player: Player,
    pub entities: Vec<Entity>,
    pub spawners: Vec<Spawner>,
    pub waves: Vec<Wave>,
    pub area_effects: Vec<AreaEffect>,
    pub particles: Vec<Particle>,
    pub events: Vec<Event>,
}

/// Well-formedness of the whole model: the arena is sane and every piece
/// of state is well formed within it.
pub open spec fn model_wf(m: Model) -> bool {
    &&& bounds_wf(m.bounds)
    &&& player_wf(m.player, m.bounds)
    &&& forall|i: int| 0 <= i < m.entities@.len() ==> entity_wf(#[trigger] m.entities@[i], m.bounds)
    &&& forall|i: int|
        0 <= i < m.spawners@.len() ==> spawner_wf(#[trigger] m.spawners@[i], m.bounds)
    &&& forall|i: int| 0 <= i < m.waves@.len() ==> wave_wf(#[trigger] m.waves@[i], m.bounds)
    &&& forall|i: int|
        0 <= i < m.area_effects@.len() ==> area_effect_wf(#[trigger] m.area_effects@[i])
    &&& forall|i: int|
        0 <= i < m.particles@.len() ==> particle_wf(#[trigger] m.particles@[i], m.bounds)
}

impl Model {
    /// The initial arena: a 200 by 150 unit rectangle, the player at the
    /// origin, and one queued wave of a single crawler group.
    pub fn new() -> (m: Model)
        ensures
            model_wf(m),
            m.bounds == (Bounds {
                min: Vec2 { x: -100_000i64, y: -75_000i64 },
                max: Vec2 { x: 100_000i64, y: 75_000i64 },
            }),
            m.player.body.position == (Vec2 { x: 0, y: 0 }),
            m.player.chain_length == 20_000,
            m.player.health.current == 500_000,
            m.player.health.max == 500_000,
            m.entities@.len() == 0,
            m.spawners@.len() == 0,
            m.waves@.len() == 1,
            m.waves@[0].groups@.len() == 1,
            m.area_effects@.len() == 0,
            m.particles@.len() == 0,
            m.events@.len() == 0,
            m.player.health.current > 0,
    {
        let material = generic_material();
        let bounds = Bounds {
            min: Vec2 { x: -100_000, y: -75_000 },
            max: Vec2 { x: 100_000, y: 75_000 },
        };
        let player = Player::new(Vec2 { x: 0, y: 0 }, 10_000, 20_000, 3_000, 500_000, material);
        let crawler = EnemyInfo {
            health: 150_000,
            mass: 5_000,
            size: 2_000,
            movement_speed: 25_000,
            color: Color { r: SCALE, g: 0, b: 0, a: SCALE },
            enemy_type: EnemyType::Crawler,
        };
        let group = WaveGroup { enemies: vec![crawler], radius: 10_000, spawn_time: 2_000 };
        let wave = Wave { groups: vec![group] };
        Model {
            bounds,
            player,
            entities: Vec::new(),
            spawners: Vec::new(),
            waves: vec![wave],
            area_effects: Vec::new(),
            particles: Vec::new(),
            events: Vec::new(),
        }
    }

    /// Set the target body velocity from an input direction, clamped to
    /// unit length and scaled to the player speed. Last write wins.
    pub fn move_direction(&mut self, direction: Vec2)
        requires
            model_wf(*old(self)),
            v2_wf(direction),
        ensures
            model_wf(*final(self)),
            final(self).player.target_body_velocity == ({
                let clamped = if len_s(direction) <= SCALE {
                    direction
                } else {
                    Vec2 {
                        x: sat(tdiv(direction.x * SCALE, len_s(direction))) as i64,
                        y: sat(tdiv(direction.y * SCALE, len_s(direction))) as i64,
                    }
                };
                v_scale_s(clamped, PLAYER_SPEED as int)
            }),
            *final(self) == (Model {
                player: (Player {
                    target_body_velocity: final(self).player.target_body_velocity,
                    ..old(self).player
                }),
                ..*old(self)
            }),
    {
        let clamped = direction.clamp_length_max(SCALE);
        self.player.target_body_velocity = clamped.scale(PLAYER_SPEED);
    }

    /// Set the aim point used by head tracking. Last write wins.
    pub fn head_target(&mut self, target: Vec2)
        requires
            model_wf(*old(self)),
            v2_wf(target),
        ensures
            model_wf(*final(self)),
            final(self).player.head_target == target,
            *final(self) == (Model {
                player: (Player { head_target: target, ..old(self).player }),
                ..*old(self)
            }),
    {
        self.player.head_target = target;
    }
}

} // verus!
