//! Simulated actors: the player, enemies and their combat state.
//!
//! An entity couples a rigid body with a health pool and a behavioral
//! variant. Enemy variants form a closed sum: crawlers chase, attackers
//! carry a timed attack, projectiles and corpses carry their own countdown.
use vstd::prelude::*;
use crate::fx::{fx_wf, FX_MAX, SCALE};
use crate::vec2::{Vec2, v2_wf};
use crate::health::{Health, health_wf};
use crate::physics::{RigidBody, Collider, PhysicsMaterial, Bounds, rb_wf, collider_wf,
    material_wf, fits_bounds};

verus! {

/// An RGBA color; each channel is fixed-point in `[0, SCALE]`.
#[derive(Clone, Copy, Debug, PartialEq, Eq, Structural)]
pub struct Color {
    pub r: i64,
    pub g: i64,
    pub b: i64,
    pub a: i64,
}

/// Every channel lies in `[0, SCALE]`.
pub open spec fn color_wf(c: Color) -> bool {
    &&& 0 <= c.r <= SCALE
    &&& 0 <= c.g <= SCALE
    &&& 0 <= c.b <= SCALE
    &&& 0 <= c.a <= SCALE
}

impl Color {
    /// Build a color from its channels.
    pub fn new(r: i64, g: i64, b: i64, a: i64) -> (c: Color)
        requires
            0 <= r <= SCALE,
            0 <= g <= SCALE,
            0 <= b <= SCALE,
            0 <= a <= SCALE,
        ensures
            c == (Color { r, g, b, a }),
            color_wf(c),
    {
        Color { r, g, b, a }
    }
}

/// What a timed attack does when it fires.
#[derive(Debug)]
pub enum AttackType {
    /// Launch a projectile from the attacker toward `target_pos`.
    Shoot { target_pos: Vec2, projectile: Box<EnemyInfo> },
    /// Detonate in place, leaving a timed healing zone.
    Bomb { radius: i64, heal: i64, duration: i64 },
}

/// A timed combat behavior: a cooldown countdown plus an attack kind.
#[derive(Debug)]
pub struct Attack {
    pub attack_time: Health,
    pub attack_type: AttackType,
}

/// The enemy's behavioral variant.
#[derive(Debug)]
pub enum EnemyType {
    /// Chases the player and damages by contact.
    Crawler,
    /// A fading remains; removed once `lifetime` runs out.
    Corpse { lifetime: Health },
    /// Carries a timed attack.
    Attacker { attack: Attack },
    /// A fired shot with its own flight-time countdown.
    Projectile { lifetime: Health },
}

/// Player or enemy.
#[derive(Debug)]
pub enum EntityType {
    Player,
    Enemy { enemy_type: EnemyType },
}

/// A template describing an enemy to create.
#[derive(Debug)]
pub struct EnemyInfo {
    pub health: i64,
    pub mass: i64,
    pub size: i64,
    pub movement_speed: i64,
    pub color: Color,
    pub enemy_type: EnemyType,
}

/// A simulated actor.
#[derive(Debug)]
pub struct Entity {
    pub rigidbody: RigidBody,
    pub health: Health,
    pub movement_speed: i64,
    pub color: Color,
    pub destroy: bool,
    pub entity_type: EntityType,
}

/// Well-formedness of an attack kind within arena `b`. A shot template
/// must itself be a projectile, so templates do not nest.
pub open spec fn attack_type_wf(t: AttackType, b: Bounds) -> bool
    decreases t,
{
    match t {
        AttackType::Shoot { target_pos, projectile } => {
            &&& v2_wf(target_pos)
            &&& enemy_info_wf(*projectile, b)
            &&& (*projectile).enemy_type is Projectile
        },
        AttackType::Bomb { radius, heal, duration } => {
            &&& 0 < radius <= FX_MAX
            &&& fx_wf(heal)
            &&& 0 < duration <= FX_MAX
        },
    }
}

/// Well-formedness of an attack within arena `b`.
pub open spec fn attack_wf(a: Attack, b: Bounds) -> bool
    decreases a,
{
    health_wf(a.attack_time) && attack_type_wf(a.attack_type, b)
}

/// Well-formedness of an enemy variant within arena `b`.
pub open spec fn enemy_type_wf(t: EnemyType, b: Bounds) -> bool
    decreases t,
{
    match t {
        EnemyType::Crawler => true,
        EnemyType::Corpse { lifetime } => health_wf(lifetime),
        EnemyType::Attacker { attack } => attack_wf(attack, b),
        EnemyType::Projectile { lifetime } => health_wf(lifetime),
    }
}

/// Well-formedness of an enemy template within arena `b`: positive
/// stats, a size that fits the arena, and a well-formed variant.
pub open spec fn enemy_info_wf(info: EnemyInfo, b: Bounds) -> bool
    decreases info,
{
    &&& 0 < info.health <= FX_MAX
    &&& 0 < info.mass <= FX_MAX
    &&& 0 < info.size <= FX_MAX
    &&& fits_bounds(b, info.size as int)
    &&& 0 <= info.movement_speed <= FX_MAX
    &&& color_wf(info.color)
    &&& enemy_type_wf(info.enemy_type, b)
}

/// Well-formedness of an entity type within arena `b`.
pub open spec fn entity_type_wf(t: EntityType, b: Bounds) -> bool {
    match t {
        EntityType::Player => true,
        EntityType::Enemy { enemy_type } => enemy_type_wf(enemy_type, b),
    }
}

/// Well-formedness of an entity within arena `b`.
pub open spec fn entity_wf(e: Entity, b: Bounds) -> bool {
    &&& rb_wf(e.rigidbody)
    &&& fits_bounds(b, e.rigidbody.collider.radius as int)
    &&& health_wf(e.health)
    &&& 0 <= e.movement_speed <= FX_MAX
    &&& color_wf(e.color)
    &&& entity_type_wf(e.entity_type, b)
}

impl AttackType {
    /// A structural copy of the attack kind.
    pub fn duplicate(&self) -> (r: AttackType)
        ensures
            r == *self,
        decreases *self,
    {
        match self {
            AttackType::Shoot { target_pos, projectile } => AttackType::Shoot {
                target_pos: *target_pos,
                projectile: Box::new(projectile.duplicate()),
            },
            AttackType::Bomb { radius, heal, duration } => AttackType::Bomb {
                radius: *radius,
                heal: *heal,
                duration: *duration,
            },
        }
    }
}

impl Attack {
    /// A structural copy of the attack.
    pub fn duplicate(&self) -> (r: Attack)
        ensures
            r == *self,
        decreases *self,
    {
        Attack { attack_time: self.attack_time, attack_type: self.attack_type.duplicate() }
    }
}

impl EnemyType {
    /// A structural copy of the variant.
    pub fn duplicate(&self) -> (r: EnemyType)
        ensures
            r == *self,
        decreases *self,
    {
        match self {
            EnemyType::Crawler => EnemyType::Crawler,
            EnemyType::Corpse { lifetime } => EnemyType::Corpse { lifetime: *lifetime },
            EnemyType::Attacker { attack } => EnemyType::Attacker { attack: attack.duplicate() },
            EnemyType::Projectile { lifetime } => EnemyType::Projectile { lifetime: *lifetime },
        }
    }
}

impl EnemyInfo {
    /// Build a template from its parts.
    pub fn new(health: i64, mass: i64, size: i64, movement_speed: i64, color: Color,
        enemy_type: EnemyType) -> (r: EnemyInfo)
        ensures
            r == (EnemyInfo { health, mass, size, movement_speed, color, enemy_type }),
    {
        EnemyInfo { health, mass, size, movement_speed, color, enemy_type }
    }

    /// A structural copy of the template.
    pub fn duplicate(&self) -> (r: EnemyInfo)
        ensures
            r == *self,
        decreases *self,
    {
        EnemyInfo {
            health: self.health,
            mass: self.mass,
            size: self.size,
            movement_speed: self.movement_speed,
            color: self.color,
            enemy_type: self.enemy_type.duplicate(),
        }
    }
}

impl Entity {
    /// Realize an enemy template at `position`, at rest and at full health.
    pub fn new(position: Vec2, info: EnemyInfo, material: PhysicsMaterial) -> (r: Entity)
        requires
            v2_wf(position),
            0 < info.health <= FX_MAX,
            0 < info.mass <= FX_MAX,
            0 < info.size <= FX_MAX,
            0 <= info.movement_speed <= FX_MAX,
            material_wf(material),
        ensures
            r.rigidbody == (RigidBody {
                position,
                velocity: Vec2 { x: 0, y: 0 },
                mass: info.mass,
                collider: Collider { radius: info.size },
                physics_material: material,
            }),
            r.health == (Health { current: info.health, max: info.health }),
            r.movement_speed == info.movement_speed,
            r.color == info.color,
            r.destroy == false,
            r.entity_type == (EntityType::Enemy { enemy_type: info.enemy_type }),
    {
        let rigidbody = RigidBody::new(position, info.mass, Collider::new(info.size), material);
        Entity {
            rigidbody,
            health: Health::new(info.health),
            movement_speed: info.movement_speed,
            color: info.color,
            destroy: false,
            entity_type: EntityType::Enemy { enemy_type: info.enemy_type },
        }
    }

    /// Alive exactly when the health pool is.
    pub fn is_alive(&self) -> (r: bool)
        ensures
            r == (self.health.current > 0),
    {
        self.health.is_alive()
    }
}

} // verus!
