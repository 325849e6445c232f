//! The two tick entry points and the simulation passes they orchestrate.
//!
//! Removal never happens mid-scan: passes collect what to drop and apply
//! it afterwards, preserving the relative order of the survivors; new
//! entities go through the deferred command buffer.
use vstd::prelude::*;
use crate::fx::{fx_wf, sat, tdiv, clamp_s, fx_mul_s, fx_div_s, fx_add, fx_sub, fx_mul, fx_neg,
    SCALE, FX_MAX};
use crate::vec2::{Vec2, v2_wf, v_add_s, v_sub_s, v_scale_s, norm_s, len_s, dot_s, abs_s};
use crate::health::{Health, health_wf};
use crate::physics::{RigidBody, Collider, Bounds, rb_wf, fits_bounds, bounds_wf, exits_x,
    exits_y, collides_s, offset_s, pen_s};
use crate::entity::{Entity, EntityType, EnemyType, EnemyInfo, Attack, AttackType, Color,
    entity_wf, enemy_info_wf, color_wf};
use crate::player::{Player, player_wf};
use crate::spawner::{Spawner, Wave, WaveGroup, spawner_wf, wave_wf, wave_group_wf};
use crate::area::{AreaEffect, Effect, area_effect_wf};
use crate::particle::{Particle, particle_wf, particle_cap, fresh_particle};
use crate::events::{Event, EventSound, Command, Commands};
use crate::model::{Model, model_wf, generic_material, player_color, PLAYER_SPEED, HEAD_SPEED,
    BODY_HIT_SPEED, BODY_IMPACT, CORPSE_LIFETIME, BODY_ACCELERATION, HEAD_ACCELERATION};

verus! {

/// The alpha a fading corpse shows: half its remaining life fraction.
pub open spec fn corpse_alpha(lifetime: Health) -> int {
    fx_mul_s(tdiv(lifetime.current * SCALE, lifetime.max as int), 500)
}

/// How the death pass transforms one entity (before deciding removal):
/// a spent corpse keeps fading; an exploded bomb attacker passes through
/// (the keep test removes it); everything else dying for the first time
/// becomes a fresh corpse, the single transition into the fading state;
/// the destroy flag and living entities pass through untouched.
pub open spec fn dead_step(e: Entity, dt: int) -> Entity {
    if e.destroy || e.health.current > 0 {
        e
    } else {
        match e.entity_type {
            EntityType::Enemy { enemy_type } => match enemy_type {
                EnemyType::Corpse { lifetime } => {
                    let faded = Health {
                        current: clamp_s(lifetime.current - dt, 0, lifetime.max as int) as i64,
                        max: lifetime.max,
                    };
                    Entity {
                        color: Color { a: corpse_alpha(faded) as i64, ..e.color },
                        entity_type: EntityType::Enemy {
                            enemy_type: EnemyType::Corpse { lifetime: faded },
                        },
                        ..e
                    }
                },
                EnemyType::Attacker { attack } => {
                    if attack.attack_time.current <= 0 && attack.attack_type is Bomb {
                        // exploded: left as is here, removed by the keep test
                        Entity {
                            entity_type: EntityType::Enemy {
                                enemy_type: EnemyType::Attacker { attack },
                            },
                            ..e
                        }
                    } else {
                        Entity {
                            entity_type: EntityType::Enemy {
                                enemy_type: EnemyType::Corpse {
                                    lifetime: Health {
                                        current: CORPSE_LIFETIME as i64,
                                        max: CORPSE_LIFETIME as i64,
                                    },
                                },
                            },
                            ..e
                        }
                    }
                },
                _ => Entity {
                    entity_type: EntityType::Enemy {
                        enemy_type: EnemyType::Corpse {
                            lifetime: Health {
                                current: CORPSE_LIFETIME as i64,
                                max: CORPSE_LIFETIME as i64,
                            },
                        },
                    },
                    ..e
                },
            },
            EntityType::Player => e,
        }
    }
}

/// Whether the death pass keeps an entity: flagged entities always go;
/// a corpse goes exactly when its decremented lifetime has run out; an
/// exploded bomb attacker goes; everything else stays.
pub open spec fn dead_keep(e: Entity, dt: int) -> bool {
    if e.destroy {
        false
    } else if e.health.current > 0 {
        true
    } else {
        match e.entity_type {
            EntityType::Enemy { enemy_type } => match enemy_type {
                EnemyType::Corpse { lifetime } => clamp_s(
                    lifetime.current - dt,
                    0,
                    lifetime.max as int,
                ) > 0,
                EnemyType::Attacker { attack } => !(attack.attack_time.current <= 0
                    && attack.attack_type is Bomb),
                _ => true,
            },
            EntityType::Player => true,
        }
    }
}

/// The whole death pass over an entity sequence: step every entity, keep
/// the survivors in their original relative order. For any subset of
/// removed entities the survivors appear exactly in their original order.
pub open spec fn dead_pass(s: Seq<Entity>, dt: int) -> Seq<Entity>
    decreases s.len(),
{
    if s.len() == 0 {
        Seq::empty()
    } else {
        let rest = dead_pass(s.drop_last(), dt);
        if dead_keep(s.last(), dt) {
            rest.push(dead_step(s.last(), dt))
        } else {
            rest
        }
    }
}

/// A corpse is removed exactly once its decremented lifetime has run
/// out, and never before; until then it is kept, fading.
pub proof fn lemma_corpse_removal(e: Entity, lifetime: Health, dt: int)
    requires
        !e.destroy,
        e.health.current == 0,
        e.entity_type == (EntityType::Enemy { enemy_type: EnemyType::Corpse { lifetime } }),
        health_wf(lifetime),
        0 <= dt,
    ensures
        dead_keep(e, dt) <==> lifetime.current - dt > 0,
{
}

/// The output slot the death pass gives the entity at input index `k`:
/// the number of survivors among the first `k` entities.
pub open spec fn dead_pass_pos(s: Seq<Entity>, dt: int, k: int) -> int {
    dead_pass(s.take(k), dt).len() as int
}

/// One step of the death pass over a prefix.
proof fn lemma_dead_pass_prefix_step(s: Seq<Entity>, dt: int, k: int)
    requires
        0 <= k < s.len(),
    ensures
        dead_pass(s.take(k + 1), dt) == if dead_keep(s[k], dt) {
            dead_pass(s.take(k), dt).push(dead_step(s[k], dt))
        } else {
            dead_pass(s.take(k), dt)
        },
{
    assert(s.take(k + 1).drop_last() =~= s.take(k));
    assert(s.take(k + 1).last() == s[k]);
}

/// The pass over a prefix is a prefix of the pass over the whole.
proof fn lemma_dead_pass_prefix(s: Seq<Entity>, dt: int, k: int)
    requires
        0 <= k <= s.len(),
    ensures
        dead_pass(s.take(k), dt).len() <= dead_pass(s, dt).len(),
        forall|m: int|
            0 <= m < dead_pass(s.take(k), dt).len() ==> dead_pass(s, dt)[m] == #[trigger] dead_pass(
                s.take(k),
                dt,
            )[m],
    decreases s.len() - k,
{
    if k == s.len() {
        assert(s.take(k) =~= s);
    } else {
        lemma_dead_pass_prefix_step(s, dt, k);
        lemma_dead_pass_prefix(s, dt, k + 1);
        assert forall|m: int| 0 <= m < dead_pass(s.take(k), dt).len() implies dead_pass(s, dt)[m]
            == #[trigger] dead_pass(s.take(k), dt)[m] by {
            assert(dead_pass(s, dt)[m] == dead_pass(s.take(k + 1), dt)[m]);
        }
    }
}

/// Output slots never move backward along the input.
proof fn lemma_dead_pass_pos_mono(s: Seq<Entity>, dt: int, i: int, j: int)
    requires
        0 <= i <= j <= s.len(),
    ensures
        dead_pass_pos(s, dt, i) <= dead_pass_pos(s, dt, j),
    decreases j - i,
{
    if i < j {
        lemma_dead_pass_prefix_step(s, dt, j - 1);
        lemma_dead_pass_pos_mono(s, dt, i, j - 1);
    }
}

/// The death pass preserves the relative order of all surviving
/// entities, for any subset of removals: two kept entities keep their
/// input order in the output, each carried to its own slot.
pub proof fn lemma_dead_pass_order(s: Seq<Entity>, dt: int, i: int, j: int)
    requires
        0 <= i < j < s.len(),
        dead_keep(s[i], dt),
        dead_keep(s[j], dt),
    ensures
        0 <= dead_pass_pos(s, dt, i) < dead_pass_pos(s, dt, j) < dead_pass(s, dt).len(),
        dead_pass(s, dt)[dead_pass_pos(s, dt, i)] == dead_step(s[i], dt),
        dead_pass(s, dt)[dead_pass_pos(s, dt, j)] == dead_step(s[j], dt),
{
    lemma_dead_pass_prefix_step(s, dt, i);
    lemma_dead_pass_prefix_step(s, dt, j);
    lemma_dead_pass_pos_mono(s, dt, i + 1, j);
    lemma_dead_pass_prefix(s, dt, i + 1);
    lemma_dead_pass_prefix(s, dt, j + 1);
    assert(dead_pass(s.take(i + 1), dt)[dead_pass_pos(s, dt, i)] == dead_step(s[i], dt));
    assert(dead_pass(s.take(j + 1), dt)[dead_pass_pos(s, dt, j)] == dead_step(s[j], dt));
}

/// A spawner after one countdown step.
pub open spec fn spawner_tick(s: Spawner, dt: int) -> Spawner {
    Spawner { time_left: sat(s.time_left - dt) as i64, ..s }
}

/// Whether a spawner fires this tick: its decremented countdown is spent.
pub open spec fn spawner_fires(s: Spawner, dt: int) -> bool {
    sat(s.time_left - dt) <= 0
}

/// The spawners that remain after the pass, decremented, in order.
pub open spec fn spawners_after(s: Seq<Spawner>, dt: int) -> Seq<Spawner>
    decreases s.len(),
{
    if s.len() == 0 {
        Seq::empty()
    } else {
        let rest = spawners_after(s.drop_last(), dt);
        if spawner_fires(s.last(), dt) {
            rest
        } else {
            rest.push(spawner_tick(s.last(), dt))
        }
    }
}

/// The spawners that fire this tick, in their original order.
pub open spec fn fired_list(s: Seq<Spawner>, dt: int) -> Seq<Spawner>
    decreases s.len(),
{
    if s.len() == 0 {
        Seq::empty()
    } else {
        let rest = fired_list(s.drop_last(), dt);
        if spawner_fires(s.last(), dt) {
            rest.push(s.last())
        } else {
            rest
        }
    }
}

/// The entity an enemy template realizes at `position`.
pub open spec fn spawn_of(position: Vec2, info: EnemyInfo) -> Entity {
    Entity {
        rigidbody: RigidBody {
            position,
            velocity: Vec2 { x: 0, y: 0 },
            mass: info.mass,
            collider: Collider { radius: info.size },
            physics_material: crate::physics::PhysicsMaterial {
                drag: crate::model::DRAG as i64,
                bounciness: crate::model::BOUNCINESS as i64,
            },
        },
        health: Health { current: info.health, max: info.health },
        movement_speed: info.movement_speed,
        color: info.color,
        destroy: false,
        entity_type: EntityType::Enemy { enemy_type: info.enemy_type },
    }
}

/// The entities a template batch realizes at `position`, in order.
pub open spec fn group_spawn(position: Vec2, infos: Seq<EnemyInfo>) -> Seq<Entity>
    decreases infos.len(),
{
    if infos.len() == 0 {
        Seq::empty()
    } else {
        group_spawn(position, infos.drop_last()).push(spawn_of(position, infos.last()))
    }
}

/// All entities the firing spawners produce. Fired spawners convert in
/// descending index order, so the later spawner's batch comes first.
pub open spec fn fired_entities(fired: Seq<Spawner>) -> Seq<Entity>
    decreases fired.len(),
{
    if fired.len() == 0 {
        Seq::empty()
    } else {
        group_spawn(fired.last().position, fired.last().spawn_group.enemies@) + fired_entities(
            fired.drop_last(),
        )
    }
}

/// One combat countdown step: an attacker's cooldown ticks down and a
/// shot keeps tracking the player; a projectile's flight time ticks down
/// and kills its carrier when spent.
pub open spec fn attack_tick(e: Entity, player_pos: Vec2, dt: int) -> Entity {
    match e.entity_type {
        EntityType::Enemy { enemy_type } => match enemy_type {
            EnemyType::Attacker { attack } => {
                let ticked = Health {
                    current: clamp_s(
                        attack.attack_time.current - dt,
                        0,
                        attack.attack_time.max as int,
                    ) as i64,
                    max: attack.attack_time.max,
                };
                let retargeted = match attack.attack_type {
                    AttackType::Shoot { target_pos, projectile } => AttackType::Shoot {
                        target_pos: player_pos,
                        projectile,
                    },
                    AttackType::Bomb { radius, heal, duration } => AttackType::Bomb {
                        radius,
                        heal,
                        duration,
                    },
                };
                Entity {
                    entity_type: EntityType::Enemy {
                        enemy_type: EnemyType::Attacker {
                            attack: Attack { attack_time: ticked, attack_type: retargeted },
                        },
                    },
                    ..e
                }
            },
            EnemyType::Projectile { lifetime } => {
                let aged = Health {
                    current: clamp_s(lifetime.current - dt, 0, lifetime.max as int) as i64,
                    max: lifetime.max,
                };
                Entity {
                    health: if aged.current <= 0 {
                        Health { current: 0, max: e.health.max }
                    } else {
                        e.health
                    },
                    entity_type: EntityType::Enemy {
                        enemy_type: EnemyType::Projectile { lifetime: aged },
                    },
                    ..e
                }
            },
            _ => e,
        },
        EntityType::Player => e,
    }
}

/// Whether a (ticked) entity fires this tick: alive, an attacker, and its
/// cooldown spent.
pub open spec fn attack_fires(e: Entity) -> bool {
    e.health.current > 0 && match e.entity_type {
        EntityType::Enemy { enemy_type } => match enemy_type {
            EnemyType::Attacker { attack } => attack.attack_time.current <= 0,
            _ => false,
        },
        _ => false,
    }
}

/// The command a firing (ticked) entity queues: a shot launches its
/// projectile template toward the tracked target; a bomb detonates into
/// a timed area effect at the attacker's position.
pub open spec fn attack_fire_cmds(e: Entity) -> Seq<Command> {
    if !attack_fires(e) {
        Seq::empty()
    } else {
        match e.entity_type {
            EntityType::Enemy { enemy_type } => match enemy_type {
                EnemyType::Attacker { attack } => match attack.attack_type {
                    AttackType::Shoot { target_pos, projectile } => seq![
                        Command::SpawnEntity {
                            position: e.rigidbody.position,
                            velocity: v_scale_s(
                                norm_s(v_sub_s(target_pos, e.rigidbody.position)),
                                (*projectile).movement_speed as int,
                            ),
                            info: *projectile,
                        },
                    ],
                    AttackType::Bomb { radius, heal, duration } => seq![
                        Command::SpawnAreaEffect {
                            position: e.rigidbody.position,
                            radius,
                            heal,
                            duration,
                        },
                    ],
                },
                _ => Seq::empty(),
            },
            _ => Seq::empty(),
        }
    }
}

/// After firing, a live attacker's cooldown refills; a dead attacker's
/// spent timer stays spent, so an exploded bomb can be reclaimed.
pub open spec fn attack_reset(e: Entity) -> Entity {
    if !attack_fires(e) {
        e
    } else {
        match e.entity_type {
            EntityType::Enemy { enemy_type } => match enemy_type {
                EnemyType::Attacker { attack } => Entity {
                    entity_type: EntityType::Enemy {
                        enemy_type: EnemyType::Attacker {
                            attack: Attack {
                                attack_time: Health {
                                    current: attack.attack_time.max,
                                    max: attack.attack_time.max,
                                },
                                attack_type: attack.attack_type,
                            },
                        },
                    },
                    ..e
                },
                _ => e,
            },
            _ => e,
        }
    }
}

/// The whole combat pass over one entity.
pub open spec fn attack_step(e: Entity, player_pos: Vec2, dt: int) -> Entity {
    attack_reset(attack_tick(e, player_pos, dt))
}

/// The entities after the combat pass, in order.
pub open spec fn attack_pass(s: Seq<Entity>, player_pos: Vec2, dt: int) -> Seq<Entity>
    decreases s.len(),
{
    if s.len() == 0 {
        Seq::empty()
    } else {
        attack_pass(s.drop_last(), player_pos, dt).push(attack_step(s.last(), player_pos, dt))
    }
}

/// All commands the combat pass queues, in entity order.
pub open spec fn attack_pass_cmds(s: Seq<Entity>, player_pos: Vec2, dt: int) -> Seq<Command>
    decreases s.len(),
{
    if s.len() == 0 {
        Seq::empty()
    } else {
        attack_pass_cmds(s.drop_last(), player_pos, dt) + attack_fire_cmds(
            attack_tick(s.last(), player_pos, dt),
        )
    }
}

/// An area effect after aging by `dt`.
pub open spec fn area_age(a: AreaEffect, dt: int) -> AreaEffect {
    AreaEffect {
        lifetime: Health {
            current: clamp_s(a.lifetime.current - dt, 0, a.lifetime.max as int) as i64,
            max: a.lifetime.max,
        },
        ..a
    }
}

/// Whether an effect touches the player right now: the player is alive
/// and the body circle meets the effect circle.
pub open spec fn area_applies(a: AreaEffect, p: Player) -> bool {
    p.health.current > 0 && len_s(v_sub_s(a.position, p.body.position)) <= p.body.collider.radius
        + a.radius
}

/// The player after one effect acts on them for `dt`.
pub open spec fn area_apply_player(a: AreaEffect, p: Player, dt: int) -> Player {
    if area_applies(a, p) {
        match a.effect {
            Effect::Heal { heal } => Player {
                health: Health {
                    current: clamp_s(
                        p.health.current + fx_mul_s(heal as int, dt),
                        0,
                        p.health.max as int,
                    ) as i64,
                    max: p.health.max,
                },
                ..p
            },
        }
    } else {
        p
    }
}

/// The area pass, front to back: each effect ages, then acts on the
/// player if it reaches them; spent effects are pruned afterwards.
/// Returns the surviving effects and the resulting player.
pub open spec fn area_pass(s: Seq<AreaEffect>, p: Player, dt: int) -> (Seq<AreaEffect>, Player)
    decreases s.len(),
{
    if s.len() == 0 {
        (Seq::empty(), p)
    } else {
        let aged = area_age(s.first(), dt);
        let p1 = area_apply_player(aged, p, dt);
        let (rest, p2) = area_pass(s.skip(1), p1, dt);
        if aged.lifetime.current > 0 {
            (seq![aged] + rest, p2)
        } else {
            (rest, p2)
        }
    }
}

/// One enemy movement step: integrate, drag when over the own speed cap,
/// and steer chasing enemies (crawlers and attackers) toward the player.
pub open spec fn enemy_chases(e: Entity) -> bool {
    match e.entity_type {
        EntityType::Enemy { enemy_type } => match enemy_type {
            EnemyType::Crawler => true,
            EnemyType::Attacker { .. } => true,
            _ => false,
        },
        _ => false,
    }
}

/// The rigid body of one entity after the enemy movement pass.
pub open spec fn enemy_move_step(e: Entity, player_pos: Vec2, dt: int) -> Entity {
    let rb1 = crate::physics::movement_s(e.rigidbody, dt);
    let rb2 = if len_s(rb1.velocity) > e.movement_speed {
        crate::physics::drag_s(rb1, dt)
    } else {
        rb1
    };
    let rb3 = if enemy_chases(e) {
        let target_velocity = v_scale_s(
            norm_s(v_sub_s(player_pos, rb2.position)),
            e.movement_speed as int,
        );
        RigidBody {
            velocity: v_add_s(
                rb2.velocity,
                v_scale_s(v_sub_s(target_velocity, rb2.velocity), dt),
            ),
            ..rb2
        }
    } else {
        rb2
    };
    Entity { rigidbody: rb3, ..e }
}

/// The entities after the enemy movement pass, in order.
pub open spec fn enemy_move_pass(s: Seq<Entity>, player_pos: Vec2, dt: int) -> Seq<Entity>
    decreases s.len(),
{
    if s.len() == 0 {
        Seq::empty()
    } else {
        enemy_move_pass(s.drop_last(), player_pos, dt).push(
            enemy_move_step(s.last(), player_pos, dt),
        )
    }
}

/// The head's tracking velocity: the head swings around the body toward
/// the aim point. The turn rate scales with the sine of the angle between
/// the current head direction and the aim direction, saturating at 0.2,
/// and rides on top of the body's velocity.
pub open spec fn head_tracking_velocity(p: Player) -> Vec2 {
    let direction = v_sub_s(p.head.position, p.body.position);
    let target = v_sub_s(p.head_target, p.body.position);
    let perpn = norm_s(Vec2 { x: direction.y, y: (-direction.x) as i64 });
    let targn = norm_s(target);
    let swing = dot_s(perpn, targn);
    let mag = if abs_s(swing) > 200 {
        200
    } else {
        abs_s(swing)
    };
    let rate = fx_div_s(mag, 200);
    let signed_rate = if swing < 0 {
        -rate
    } else {
        rate
    };
    v_add_s(v_scale_s(v_scale_s(perpn, signed_rate), HEAD_SPEED as int), p.body.velocity)
}

/// A velocity accelerated toward a target velocity for `dt`.
pub open spec fn accelerate_s(v: Vec2, target: Vec2, accel: int, dt: int) -> Vec2 {
    v_add_s(v, v_scale_s(v_scale_s(v_sub_s(target, v), accel), dt))
}

/// Pull the head back onto the chain circle around the body; a head
/// exactly on the body stays put.
pub open spec fn chain_clamp(p: Player) -> Player {
    let offset = v_sub_s(p.head.position, p.body.position);
    if offset.x == 0 && offset.y == 0 {
        p
    } else {
        let dist = sat(len_s(offset) - p.chain_length);
        Player {
            head: RigidBody {
                position: v_sub_s(p.head.position, v_scale_s(norm_s(offset), dist)),
                ..p.head
            },
            ..p
        }
    }
}

/// The whole player movement step: integrate both bodies; while alive,
/// retarget the head and accelerate both toward their targets; then
/// clamp the head onto the chain.
pub open spec fn player_move_s(p: Player, dt: int) -> Player {
    let p1 = Player {
        body: crate::physics::movement_s(p.body, dt),
        head: crate::physics::movement_s(p.head, dt),
        ..p
    };
    let p2 = if p1.health.current > 0 {
        let thv = head_tracking_velocity(p1);
        Player {
            target_head_velocity: thv,
            body: RigidBody {
                velocity: accelerate_s(
                    p1.body.velocity,
                    p1.target_body_velocity,
                    BODY_ACCELERATION as int,
                    dt,
                ),
                ..p1.body
            },
            head: RigidBody {
                velocity: accelerate_s(p1.head.velocity, thv, HEAD_ACCELERATION as int, dt),
                ..p1.head
            },
            ..p1
        }
    } else {
        p1
    };
    chain_clamp(p2)
}

/// How many death cues a queue holds.
pub open spec fn count_death(s: Seq<Event>) -> int
    decreases s.len(),
{
    if s.len() == 0 {
        0int
    } else {
        count_death(s.drop_last()) + if s.last() == (Event::Sound { sound: EventSound::Death }) {
            1int
        } else {
            0int
        }
    }
}

/// Pushing an event changes the death count by one exactly for a death
/// cue.
pub proof fn lemma_count_death_push(s: Seq<Event>, e: Event)
    ensures
        count_death(s.push(e)) == count_death(s) + if e == (Event::Sound {
            sound: EventSound::Death,
        }) {
            1int
        } else {
            0int
        },
{
    assert(s.push(e).drop_last() =~= s);
}

/// The entity a deferred spawn command creates: a template realized at
/// the command's position, already moving at the command's velocity.
pub open spec fn cmd_spawn_of(position: Vec2, velocity: Vec2, info: EnemyInfo) -> Entity {
    Entity {
        rigidbody: RigidBody { velocity, ..spawn_of(position, info).rigidbody },
        ..spawn_of(position, info)
    }
}

/// The entities a command batch creates, in order.
pub open spec fn cmd_entities(cmds: Seq<Command>) -> Seq<Entity>
    decreases cmds.len(),
{
    if cmds.len() == 0 {
        Seq::empty()
    } else {
        let rest = cmd_entities(cmds.skip(1));
        match cmds.first() {
            Command::SpawnEntity { position, velocity, info } => seq![
                cmd_spawn_of(position, velocity, info),
            ] + rest,
            _ => rest,
        }
    }
}

/// The area effects a command batch creates, in order.
pub open spec fn cmd_areas(cmds: Seq<Command>) -> Seq<AreaEffect>
    decreases cmds.len(),
{
    if cmds.len() == 0 {
        Seq::empty()
    } else {
        let rest = cmd_areas(cmds.skip(1));
        match cmds.first() {
            Command::SpawnAreaEffect { position, radius, heal, duration } => seq![
                AreaEffect {
                    position,
                    radius,
                    lifetime: Health { current: duration, max: duration },
                    effect: Effect::Heal { heal },
                },
            ] + rest,
            _ => rest,
        }
    }
}

/// Whether a body's collider exits the bounds on either axis, so that
/// `bounce_bounds` reports a bounce.
pub open spec fn rb_bounced(rb: RigidBody, b: Bounds) -> bool {
    exits_x(b, rb) || exits_y(b, rb)
}

/// One entity through the bounds phase: the body bounces, and a bounce
/// kills a projectile's flight time.
pub open spec fn bounce_step(e: Entity, b: Bounds) -> Entity {
    let rb = crate::physics::bounce_s(e.rigidbody, b);
    if rb_bounced(e.rigidbody, b) {
        match e.entity_type {
            EntityType::Enemy { enemy_type: EnemyType::Projectile { lifetime } } => Entity {
                rigidbody: rb,
                entity_type: EntityType::Enemy {
                    enemy_type: EnemyType::Projectile {
                        lifetime: Health { current: 0, max: lifetime.max },
                    },
                },
                ..e
            },
            _ => Entity { rigidbody: rb, ..e },
        }
    } else {
        Entity { rigidbody: rb, ..e }
    }
}

/// The entities after the bounds phase, in order.
pub open spec fn bounce_pass(s: Seq<Entity>, b: Bounds) -> Seq<Entity>
    decreases s.len(),
{
    if s.len() == 0 {
        Seq::empty()
    } else {
        bounce_pass(s.drop_last(), b).push(bounce_step(s.last(), b))
    }
}

/// One bounce cue per entity whose bounce occurred, in entity order.
pub open spec fn bounce_pass_events(s: Seq<Entity>, b: Bounds) -> Seq<Event>
    decreases s.len(),
{
    if s.len() == 0 {
        Seq::empty()
    } else {
        bounce_pass_events(s.drop_last(), b) + if rb_bounced(s.last().rigidbody, b) {
            seq![Event::Sound { sound: EventSound::Bounce }]
        } else {
            Seq::empty()
        }
    }
}

/// Bounce cues for the player pair: body first, then head; a bounce
/// against the bounds always cues a sound.
pub open spec fn player_bounce_events(p: Player, b: Bounds) -> Seq<Event> {
    (if rb_bounced(p.body, b) {
        seq![Event::Sound { sound: EventSound::Bounce }]
    } else {
        Seq::empty()
    }) + (if rb_bounced(p.head, b) {
        seq![Event::Sound { sound: EventSound::Bounce }]
    } else {
        Seq::empty()
    })
}

/// An enemy takes part in the body pass exactly when it is alive and its
/// collider overlaps the player body; dead enemies neither deal nor take
/// damage.
pub open spec fn hits_body(e: Entity, p: Player) -> bool {
    e.health.current > 0 && collides_s(e.rigidbody, p.body)
}

/// Strength of a body hit: relative velocity along the contact normal.
pub open spec fn body_hit_strength(e: Entity, p: Player) -> int {
    abs_s(
        dot_s(
            norm_s(offset_s(e.rigidbody, p.body)),
            v_sub_s(p.body.velocity, e.rigidbody.velocity),
        ),
    )
}

/// A body hit seen by the enemy: pushed out along the normal, kicked by
/// the fixed `BODY_HIT_SPEED` impulse weighted by the mass ratio, and
/// damaged by the hit strength.
pub open spec fn body_step_entity(e: Entity, p: Player) -> Entity {
    if !hits_body(e, p) {
        e
    } else {
        let n = norm_s(offset_s(e.rigidbody, p.body));
        let pen = pen_s(e.rigidbody, p.body);
        let h = body_hit_strength(e, p);
        Entity {
            rigidbody: RigidBody {
                position: v_add_s(e.rigidbody.position, v_scale_s(n, pen)),
                velocity: v_add_s(
                    e.rigidbody.velocity,
                    v_scale_s(
                        v_scale_s(n, BODY_HIT_SPEED as int),
                        fx_div_s(p.body.mass as int, e.rigidbody.mass as int),
                    ),
                ),
                ..e.rigidbody
            },
            health: Health {
                current: clamp_s(e.health.current - h, 0, e.health.max as int) as i64,
                max: e.health.max,
            },
            ..e
        }
    }
}

/// A body hit seen by the player: recoil by the fixed `BODY_IMPACT`
/// impulse weighted by the mass ratio, and damage by the hit strength.
pub open spec fn body_step_player(e: Entity, p: Player) -> Player {
    if !hits_body(e, p) {
        p
    } else {
        let n = norm_s(offset_s(e.rigidbody, p.body));
        let h = body_hit_strength(e, p);
        Player {
            body: RigidBody {
                velocity: v_sub_s(
                    p.body.velocity,
                    v_scale_s(
                        v_scale_s(n, BODY_IMPACT as int),
                        fx_div_s(e.rigidbody.mass as int, p.body.mass as int),
                    ),
                ),
                ..p.body
            },
            health: Health {
                current: clamp_s(p.health.current - h, 0, p.health.max as int) as i64,
                max: p.health.max,
            },
            ..p
        }
    }
}

/// The cues a body hit appends: `BodyHit`, and `Death` exactly when the
/// player crosses from alive to dead on this hit.
pub open spec fn body_step_events(e: Entity, p: Player) -> Seq<Event> {
    if !hits_body(e, p) {
        Seq::empty()
    } else {
        let h = body_hit_strength(e, p);
        let crossed = p.health.current > 0 && clamp_s(p.health.current - h, 0, p.health.max as int)
            == 0;
        seq![Event::Sound { sound: EventSound::BodyHit }] + if crossed {
            seq![Event::Sound { sound: EventSound::Death }]
        } else {
            Seq::empty()
        }
    }
}

/// The particle bursts a body hit queues at the contact point: five
/// times the hit strength in the player's color, then the hit strength
/// in the enemy's color.
pub open spec fn body_step_cmds(e: Entity, p: Player) -> Seq<Command> {
    if !hits_body(e, p) {
        Seq::empty()
    } else {
        let n = norm_s(offset_s(e.rigidbody, p.body));
        let pen = pen_s(e.rigidbody, p.body);
        let h = body_hit_strength(e, p);
        let contact = v_add_s(p.body.position, v_scale_s(n, pen));
        seq![
            Command::SpawnParticles {
                position: contact,
                intensity: fx_mul_s(h, 5 * SCALE) as i64,
                color: Color { r: SCALE as i64, g: SCALE as i64, b: SCALE as i64, a: SCALE as i64 },
            },
            Command::SpawnParticles { position: contact, intensity: h as i64, color: e.color },
        ]
    }
}

/// The body pass, front to back, threading the player through: returns
/// the entities, the player, and the appended events and commands.
pub open spec fn body_pass(s: Seq<Entity>, p: Player) -> (Seq<Entity>, Player, Seq<Event>, Seq<
    Command,
>)
    decreases s.len(),
{
    if s.len() == 0 {
        (Seq::empty(), p, Seq::empty(), Seq::empty())
    } else {
        let e1 = body_step_entity(s.first(), p);
        let ev1 = body_step_events(s.first(), p);
        let c1 = body_step_cmds(s.first(), p);
        let p1 = body_step_player(s.first(), p);
        let (rest_e, p2, rest_ev, rest_c) = body_pass(s.skip(1), p1);
        (seq![e1] + rest_e, p2, ev1 + rest_ev, c1 + rest_c)
    }
}

/// An enemy takes part in the head pass exactly when it is alive and its
/// collider overlaps the player head.
pub open spec fn hits_head(e: Entity, p: Player) -> bool {
    e.health.current > 0 && collides_s(e.rigidbody, p.head)
}

/// Strength of a head hit.
pub open spec fn head_hit_strength(e: Entity, p: Player) -> int {
    abs_s(
        dot_s(
            norm_s(offset_s(e.rigidbody, p.head)),
            v_sub_s(p.head.velocity, e.rigidbody.velocity),
        ),
    )
}

/// A head hit seen by the enemy: pushed out, kicked by the live hit
/// strength weighted by the head's mass, damaged by the hit strength.
pub open spec fn head_step_entity(e: Entity, p: Player) -> Entity {
    if !hits_head(e, p) {
        e
    } else {
        let n = norm_s(offset_s(e.rigidbody, p.head));
        let pen = pen_s(e.rigidbody, p.head);
        let h = head_hit_strength(e, p);
        Entity {
            rigidbody: RigidBody {
                position: v_add_s(e.rigidbody.position, v_scale_s(n, pen)),
                velocity: v_add_s(
                    e.rigidbody.velocity,
                    v_scale_s(
                        v_scale_s(n, h),
                        fx_div_s(p.head.mass as int, e.rigidbody.mass as int),
                    ),
                ),
                ..e.rigidbody
            },
            health: Health {
                current: clamp_s(e.health.current - h, 0, e.health.max as int) as i64,
                max: e.health.max,
            },
            ..e
        }
    }
}

/// A head hit seen by the player: the head recoils by the live hit
/// strength weighted by the enemy-to-head mass ratio; no health change.
pub open spec fn head_step_player(e: Entity, p: Player) -> Player {
    if !hits_head(e, p) {
        p
    } else {
        let n = norm_s(offset_s(e.rigidbody, p.head));
        let h = head_hit_strength(e, p);
        Player {
            head: RigidBody {
                velocity: v_sub_s(
                    p.head.velocity,
                    v_scale_s(
                        v_scale_s(n, h),
                        fx_div_s(e.rigidbody.mass as int, p.head.mass as int),
                    ),
                ),
                ..p.head
            },
            ..p
        }
    }
}

/// The cue a head hit appends.
pub open spec fn head_step_events(e: Entity, p: Player) -> Seq<Event> {
    if !hits_head(e, p) {
        Seq::empty()
    } else {
        seq![Event::Sound { sound: EventSound::HeadHit }]
    }
}

/// The particle burst a head hit queues at the contact point.
pub open spec fn head_step_cmds(e: Entity, p: Player) -> Seq<Command> {
    if !hits_head(e, p) {
        Seq::empty()
    } else {
        let n = norm_s(offset_s(e.rigidbody, p.head));
        let pen = pen_s(e.rigidbody, p.head);
        let h = head_hit_strength(e, p);
        let contact = v_add_s(p.head.position, v_scale_s(n, pen));
        seq![Command::SpawnParticles { position: contact, intensity: h as i64, color: e.color }]
    }
}

/// The head pass, front to back, threading the player through.
pub open spec fn head_pass(s: Seq<Entity>, p: Player) -> (Seq<Entity>, Player, Seq<Event>, Seq<
    Command,
>)
    decreases s.len(),
{
    if s.len() == 0 {
        (Seq::empty(), p, Seq::empty(), Seq::empty())
    } else {
        let e1 = head_step_entity(s.first(), p);
        let ev1 = head_step_events(s.first(), p);
        let c1 = head_step_cmds(s.first(), p);
        let p1 = head_step_player(s.first(), p);
        let (rest_e, p2, rest_ev, rest_c) = head_pass(s.skip(1), p1);
        (seq![e1] + rest_e, p2, ev1 + rest_ev, c1 + rest_c)
    }
}

/// The whole collision pass on one state: bounds bounces for the player
/// pair and every entity, then the body pass, then the head pass.
/// Returns the final player and entities, and the appended events and
/// commands, in order.
pub open spec fn collide_pass(b: Bounds, p: Player, s: Seq<Entity>) -> (Player, Seq<Entity>, Seq<
    Event,
>, Seq<Command>) {
    let pa = Player {
        body: crate::physics::bounce_s(p.body, b),
        head: crate::physics::bounce_s(p.head, b),
        ..p
    };
    let sa = bounce_pass(s, b);
    let eva = player_bounce_events(p, b) + bounce_pass_events(s, b);
    let (sb, pb, evb, cb) = body_pass(sa, pa);
    let (sc, pc, evc, cc) = head_pass(sb, pb);
    (pc, sc, eva + evb + evc, cb + cc)
}

/// A particle after one variable-rate step: integrate, bounce off the
/// bounds, apply drag, age, and fade the alpha to half the remaining
/// life fraction.
pub open spec fn particle_step(p: Particle, b: Bounds, dt: int) -> Particle {
    let rb = crate::physics::drag_s(
        crate::physics::bounce_s(crate::physics::movement_s(p.rigidbody, dt), b),
        dt,
    );
    let aged = Health {
        current: clamp_s(p.lifetime.current - dt, 0, p.lifetime.max as int) as i64,
        max: p.lifetime.max,
    };
    Particle {
        rigidbody: rb,
        lifetime: aged,
        color: Color {
            a: fx_mul_s(tdiv(aged.current * SCALE, aged.max as int), 500) as i64,
            ..p.color
        },
    }
}

/// Whether an aged particle survives the pass.
pub open spec fn particle_keep(p: Particle, dt: int) -> bool {
    clamp_s(p.lifetime.current - dt, 0, p.lifetime.max as int) > 0
}

/// The whole particle pass: step every particle, prune the expired ones,
/// keep the survivors in order.
pub open spec fn particles_pass(s: Seq<Particle>, b: Bounds, dt: int) -> Seq<Particle>
    decreases s.len(),
{
    if s.len() == 0 {
        Seq::empty()
    } else {
        let rest = particles_pass(s.drop_last(), b, dt);
        if particle_keep(s.last(), dt) {
            rest.push(particle_step(s.last(), b, dt))
        } else {
            rest
        }
    }
}

impl Model {
    /// Realize a template batch at `position`, appending one entity per
    /// template in order.
    pub fn spawn_group(&mut self, position: Vec2, group: WaveGroup)
        requires
            model_wf(*old(self)),
            v2_wf(position),
            wave_group_wf(group, old(self).bounds),
        ensures
            model_wf(*final(self)),
            final(self).entities@ == old(self).entities@ + group_spawn(
                position,
                group.enemies@,
            ),
            *final(self) == (Model { entities: final(self).entities, ..*old(self) }),
    {
        let ghost orig = self.entities@;
        let ghost infos = group.enemies@;
        let material = generic_material();
        let mut rest = group.enemies;
        let ghost mut i: int = 0;
        while rest.len() > 0
            invariant
                model_wf(*old(self)),
                0 <= i <= infos.len(),
                rest@ == infos.subrange(i, infos.len() as int),
                forall|j: int|
                    0 <= j < infos.len() ==> enemy_info_wf(#[trigger] infos[j], old(self).bounds),
                self.entities@ == orig + group_spawn(position, infos.take(i)),
                orig == old(self).entities@,
                forall|j: int|
                    0 <= j < self.entities@.len() ==> entity_wf(
                        #[trigger] self.entities@[j],
                        old(self).bounds,
                    ),
                *self == (Model { entities: self.entities, ..*old(self) }),
                v2_wf(position),
                material == (crate::physics::PhysicsMaterial {
                    drag: crate::model::DRAG as i64,
                    bounciness: crate::model::BOUNCINESS as i64,
                }),
            decreases rest@.len(),
        {
            let info = rest.remove(0);
            proof {
                assert(info == infos[i]);
                assert(enemy_info_wf(infos[i], old(self).bounds));
                assert(infos.take(i + 1).drop_last() =~= infos.take(i));
            }
            let ghost before = self.entities@;
            let e = Entity::new(position, info, material);
            proof {
                assert(e == spawn_of(position, info));
                assert(entity_wf(e, old(self).bounds));
            }
            self.entities.push(e);
            proof {
                assert(self.entities@ =~= orig + group_spawn(position, infos.take(i + 1)));
                i = i + 1;
            }
        }
        proof {
            assert(infos.take(infos.len() as int) =~= infos);
        }
    }

    /// Count down every spawner; spent spawners are removed (in reverse
    /// index order, so later batches land first) and convert into their
    /// group's enemies at the spawner's position, in the same tick.
    pub fn update_spawners(&mut self, delta_time: i64)
        requires
            model_wf(*old(self)),
            0 <= delta_time <= FX_MAX,
        ensures
            model_wf(*final(self)),
            final(self).spawners@ == spawners_after(old(self).spawners@, delta_time as int),
            final(self).entities@ == old(self).entities@ + fired_entities(
                fired_list(old(self).spawners@, delta_time as int),
            ),
            *final(self) == (Model {
                spawners: final(self).spawners,
                entities: final(self).entities,
                ..*old(self)
            }),
    {
        let ghost dt = delta_time as int;
        let ghost orig_sp = self.spawners@;
        let ghost orig_en = self.entities@;
        let mut src: Vec<Spawner> = Vec::new();
        core::mem::swap(&mut src, &mut self.spawners);
        let mut ticked: Vec<Spawner> = Vec::new();
        let mut fired: Vec<Spawner> = Vec::new();
        let ghost mut i: int = 0;
        while src.len() > 0
            invariant
                model_wf(*old(self)),
                orig_sp == old(self).spawners@,
                0 <= i <= orig_sp.len(),
                src@ == orig_sp.subrange(i, orig_sp.len() as int),
                ticked@ == spawners_after(orig_sp.take(i), dt),
                fired@ == fired_list(orig_sp.take(i), dt),
                forall|j: int|
                    0 <= j < ticked@.len() ==> spawner_wf(#[trigger] ticked@[j], old(self).bounds),
                forall|j: int|
                    0 <= j < fired@.len() ==> spawner_wf(#[trigger] fired@[j], old(self).bounds),
                dt == delta_time as int,
                0 <= delta_time <= FX_MAX,
                *self == (Model { spawners: self.spawners, ..*old(self) }),
                self.spawners@.len() == 0,
            decreases src@.len(),
        {
            let mut s = src.remove(0);
            proof {
                assert(s == orig_sp[i]);
                assert(spawner_wf(old(self).spawners@[i], old(self).bounds));
                assert(orig_sp.take(i + 1).drop_last() =~= orig_sp.take(i));
                assert(orig_sp.take(i + 1).last() == s);
            }
            let ghost s0 = s;
            let new_left: i64 = fx_sub(s.time_left, delta_time);
            if new_left <= 0 {
                fired.push(s);
            } else {
                s.time_left = new_left;
                proof {
                    assert(s == spawner_tick(s0, dt));
                }
                ticked.push(s);
            }
            proof {
                i = i + 1;
            }
        }
        proof {
            assert(orig_sp.take(orig_sp.len() as int) =~= orig_sp);
        }
        self.spawners = ticked;
        // convert the fired spawners, last first: the index-based removal
        // discipline walks the collected indices in descending order
        while fired.len() > 0
            invariant
                model_wf(*self),
                self.entities@ + fired_entities(fired@) == orig_en + fired_entities(
                    fired_list(orig_sp, dt),
                ),
                forall|j: int|
                    0 <= j < fired@.len() ==> spawner_wf(#[trigger] fired@[j], self.bounds),
                self.spawners@ == spawners_after(orig_sp, dt),
                *self == (Model {
                    spawners: self.spawners,
                    entities: self.entities,
                    ..*old(self)
                }),
            decreases fired@.len(),
        {
            let ghost fired_before = fired@;
            let sp = fired.pop().unwrap();
            proof {
                assert(sp == fired_before.last());
                assert(fired@ == fired_before.drop_last());
            }
            let ghost en_before = self.entities@;
            self.spawn_group(sp.position, sp.spawn_group);
            proof {
                assert(self.entities@ + fired_entities(fired@) =~= en_before + fired_entities(
                    fired_before,
                ));
            }
        }
        proof {
            assert(fired_entities(Seq::<Spawner>::empty()) =~= Seq::<Entity>::empty());
            assert(self.entities@ + Seq::<Entity>::empty() =~= self.entities@);
        }
    }

    /// The combat pass: tick every countdown, retarget tracking shots,
    /// queue the deferred spawns of firing attackers, and refill the
    /// cooldown of live attackers that fired.
    pub fn attack(&mut self, delta_time: i64, commands: &mut Commands)
        requires
            model_wf(*old(self)),
            0 <= delta_time <= FX_MAX,
        ensures
            model_wf(*final(self)),
            final(self).entities@ == attack_pass(
                old(self).entities@,
                old(self).player.body.position,
                delta_time as int,
            ),
            final(commands).commands@ == old(commands).commands@ + attack_pass_cmds(
                old(self).entities@,
                old(self).player.body.position,
                delta_time as int,
            ),
            forall|j: int|
                old(commands).commands@.len() <= j < final(commands).commands@.len()
                    ==> crate::events::command_wf(#[trigger] final(commands).commands@[j],
                old(self).bounds),
            *final(self) == (Model { entities: final(self).entities, ..*old(self) }),
    {
        let ghost dt = delta_time as int;
        let ghost orig = self.entities@;
        let ghost ppos = self.player.body.position;
        let ghost cmds0 = commands.commands@;
        let player_pos = self.player.body.position;
        let mut src: Vec<Entity> = Vec::new();
        core::mem::swap(&mut src, &mut self.entities);
        let mut out: Vec<Entity> = Vec::new();
        let ghost mut i: int = 0;
        while src.len() > 0
            invariant
                model_wf(*old(self)),
                orig == old(self).entities@,
                ppos == old(self).player.body.position,
                player_pos == ppos,
                0 <= i <= orig.len(),
                src@ == orig.subrange(i, orig.len() as int),
                out@ == attack_pass(orig.take(i), ppos, dt),
                commands.commands@ == cmds0 + attack_pass_cmds(orig.take(i), ppos, dt),
                forall|j: int|
                    cmds0.len() <= j < commands.commands@.len() ==> crate::events::command_wf(
                        #[trigger] commands.commands@[j],
                        old(self).bounds,
                    ),
                forall|j: int|
                    0 <= j < out@.len() ==> entity_wf(#[trigger] out@[j], old(self).bounds),
                dt == delta_time as int,
                0 <= delta_time <= FX_MAX,
                *self == (Model { entities: self.entities, ..*old(self) }),
                self.entities@.len() == 0,
            decreases src@.len(),
        {
            let e = src.remove(0);
            proof {
                assert(e == orig[i]);
                assert(entity_wf(old(self).entities@[i], old(self).bounds));
                assert(orig.take(i + 1).drop_last() =~= orig.take(i));
                assert(orig.take(i + 1).last() == e);
            }
            let ghost cmds_before = commands.commands@;
            let Entity { rigidbody, mut health, movement_speed, color, destroy, entity_type } = e;
            let stepped_type: EntityType = match entity_type {
                EntityType::Enemy { enemy_type } => {
                    match enemy_type {
                        EnemyType::Attacker { attack } => {
                            let Attack { mut attack_time, attack_type } = attack;
                            attack_time.change(-delta_time);
                            let retargeted: AttackType = match attack_type {
                                AttackType::Shoot { target_pos: _, projectile } => {
                                    AttackType::Shoot { target_pos: player_pos, projectile }
                                },
                                AttackType::Bomb { radius, heal, duration } => AttackType::Bomb {
                                    radius,
                                    heal,
                                    duration,
                                },
                            };
                            EntityType::Enemy {
                                enemy_type: EnemyType::Attacker {
                                    attack: Attack { attack_time, attack_type: retargeted },
                                },
                            }
                        },
                        EnemyType::Projectile { lifetime } => {
                            let mut aged = lifetime;
                            aged.change(-delta_time);
                            if !aged.is_alive() {
                                health.kill();
                            }
                            EntityType::Enemy {
                                enemy_type: EnemyType::Projectile { lifetime: aged },
                            }
                        },
                        EnemyType::Crawler => EntityType::Enemy {
                            enemy_type: EnemyType::Crawler,
                        },
                        EnemyType::Corpse { lifetime } => EntityType::Enemy {
                            enemy_type: EnemyType::Corpse { lifetime },
                        },
                    }
                },
                EntityType::Player => EntityType::Player,
            };
            let ticked = Entity {
                rigidbody,
                health,
                movement_speed,
                color,
                destroy,
                entity_type: stepped_type,
            };
            proof {
                assert(ticked == attack_tick(e, ppos, dt));
            }
            // fire, then reset the cooldown of the live attacker that fired
            let fired: Entity = self.fire_one(ticked, commands);
            proof {
                assert(commands.commands@ == cmds_before + attack_fire_cmds(
                    attack_tick(e, ppos, dt),
                ));
                assert(fired == attack_step(e, ppos, dt));
                assert(commands.commands@ =~= cmds0 + attack_pass_cmds(orig.take(i + 1), ppos, dt));
            }
            out.push(fired);
            proof {
                i = i + 1;
            }
        }
        proof {
            assert(orig.take(orig.len() as int) =~= orig);
        }
        self.entities = out;
    }

    /// Fire one (ticked) entity's attack if it is due, queueing the spawn
    /// command and refilling the cooldown.
    fn fire_one(&self, e: Entity, commands: &mut Commands) -> (r: Entity)
        requires
            model_wf(*self),
            entity_wf(e, self.bounds),
        ensures
            r == attack_reset(e),
            entity_wf(r, self.bounds),
            final(commands).commands@ == old(commands).commands@ + attack_fire_cmds(e),
            forall|j: int|
                old(commands).commands@.len() <= j < final(commands).commands@.len()
                    ==> crate::events::command_wf(#[trigger] final(commands).commands@[j],
                self.bounds),
    {
        if !e.health.is_alive() {
            proof {
                assert(attack_fire_cmds(e) =~= Seq::<Command>::empty());
                assert(old(commands).commands@ + Seq::<Command>::empty()
                    =~= old(commands).commands@);
            }
            return e;
        }
        let Entity { rigidbody, health, movement_speed, color, destroy, entity_type } = e;
        match entity_type {
            EntityType::Enemy { enemy_type } => {
                match enemy_type {
                    EnemyType::Attacker { attack } => {
                        let Attack { attack_time, attack_type } = attack;
                        if !attack_time.is_alive() {
                            let reset_time = Health::new(attack_time.max);
                            let new_type: AttackType = match attack_type {
                                AttackType::Shoot { target_pos, projectile } => {
                                    let direction = target_pos.sub(rigidbody.position);
                                    let aim = direction.normalize();
                                    let velocity = aim.scale(projectile.movement_speed);
                                    let info = projectile.duplicate();
                                    commands.spawn_entity(rigidbody.position, velocity, info);
                                    AttackType::Shoot { target_pos, projectile }
                                },
                                AttackType::Bomb { radius, heal, duration } => {
                                    commands.spawn_area_effect(
                                        rigidbody.position,
                                        radius,
                                        heal,
                                        duration,
                                    );
                                    AttackType::Bomb { radius, heal, duration }
                                },
                            };
                            let r = Entity {
                                rigidbody,
                                health,
                                movement_speed,
                                color,
                                destroy,
                                entity_type: EntityType::Enemy {
                                    enemy_type: EnemyType::Attacker {
                                        attack: Attack {
                                            attack_time: reset_time,
                                            attack_type: new_type,
                                        },
                                    },
                                },
                            };
                            proof {
                                assert(old(commands).commands@ + attack_fire_cmds(e)
                                    =~= final(commands).commands@);
                            }
                            r
                        } else {
                            let r = Entity {
                                rigidbody,
                                health,
                                movement_speed,
                                color,
                                destroy,
                                entity_type: EntityType::Enemy {
                                    enemy_type: EnemyType::Attacker {
                                        attack: Attack { attack_time, attack_type },
                                    },
                                },
                            };
                            proof {
                                assert(r == e);
                                assert(old(commands).commands@ + attack_fire_cmds(e)
                                    =~= final(commands).commands@);
                            }
                            r
                        }
                    },
                    other => {
                        let r = Entity {
                            rigidbody,
                            health,
                            movement_speed,
                            color,
                            destroy,
                            entity_type: EntityType::Enemy { enemy_type: other },
                        };
                        proof {
                            assert(r == e);
                            assert(old(commands).commands@ + attack_fire_cmds(e)
                                =~= final(commands).commands@);
                        }
                        r
                    },
                }
            },
            EntityType::Player => {
                let r = Entity {
                    rigidbody,
                    health,
                    movement_speed,
                    color,
                    destroy,
                    entity_type: EntityType::Player,
                };
                proof {
                    assert(r == e);
                    assert(old(commands).commands@ + attack_fire_cmds(e)
                        =~= final(commands).commands@);
                }
                r
            },
        }
    }

    /// Age every area effect, let each reaching the live player act on
    /// them, and prune the spent effects.
    pub fn area_effects(&mut self, delta_time: i64)
        requires
            model_wf(*old(self)),
            0 <= delta_time <= FX_MAX,
        ensures
            model_wf(*final(self)),
            final(self).area_effects@ == area_pass(
                old(self).area_effects@,
                old(self).player,
                delta_time as int,
            ).0,
            final(self).player == area_pass(
                old(self).area_effects@,
                old(self).player,
                delta_time as int,
            ).1,
            *final(self) == (Model {
                area_effects: final(self).area_effects,
                player: final(self).player,
                ..*old(self)
            }),
    {
        let ghost dt = delta_time as int;
        let ghost orig = self.area_effects@;
        let ghost p0 = self.player;
        let mut src: Vec<AreaEffect> = Vec::new();
        core::mem::swap(&mut src, &mut self.area_effects);
        let mut kept: Vec<AreaEffect> = Vec::new();
        while src.len() > 0
            invariant
                model_wf(*old(self)),
                orig == old(self).area_effects@,
                p0 == old(self).player,
                area_pass(orig, p0, dt).0 == kept@ + area_pass(src@, self.player, dt).0,
                area_pass(orig, p0, dt).1 == area_pass(src@, self.player, dt).1,
                forall|j: int| 0 <= j < kept@.len() ==> area_effect_wf(#[trigger] kept@[j]),
                forall|j: int| 0 <= j < src@.len() ==> area_effect_wf(#[trigger] src@[j]),
                player_wf(self.player, old(self).bounds),
                dt == delta_time as int,
                0 <= delta_time <= FX_MAX,
                *self == (Model {
                    area_effects: self.area_effects,
                    player: self.player,
                    ..*old(self)
                }),
                self.area_effects@.len() == 0,
            decreases src@.len(),
        {
            let ghost src_before = src@;
            let ghost player_before = self.player;
            let mut a = src.remove(0);
            proof {
                assert(a == src_before.first());
                assert(src@ == src_before.skip(1));
            }
            a.lifetime.change(-delta_time);
            proof {
                assert(a == area_age(src_before.first(), dt));
            }
            if self.player.health.is_alive() {
                let offset = a.position.sub(self.player.body.position);
                let distance = offset.length();
                if distance <= self.player.body.collider.radius + a.radius {
                    match a.effect {
                        Effect::Heal { heal } => {
                            let delta: i64 = fx_mul(heal, delta_time);
                            self.player.health.change(delta);
                        },
                    }
                }
            }
            proof {
                assert(self.player == area_apply_player(a, player_before, dt));
            }
            if a.lifetime.is_alive() {
                kept.push(a);
                proof {
                    assert(area_pass(src_before, player_before, dt).0 =~= seq![a] + area_pass(
                        src@,
                        self.player,
                        dt,
                    ).0);
                    assert(kept@ + area_pass(src@, self.player, dt).0 =~= kept@.drop_last() + (
                    seq![a] + area_pass(src@, self.player, dt).0));
                }
            }
        }
        proof {
            assert(kept@ + area_pass(src@, self.player, dt).0 =~= kept@);
        }
        self.area_effects = kept;
    }

    /// Move every enemy: integrate, drag the ones over their speed cap,
    /// and steer crawlers and attackers toward the player.
    pub fn move_enemies(&mut self, delta_time: i64)
        requires
            model_wf(*old(self)),
            0 <= delta_time <= FX_MAX,
        ensures
            model_wf(*final(self)),
            final(self).entities@ == enemy_move_pass(
                old(self).entities@,
                old(self).player.body.position,
                delta_time as int,
            ),
            *final(self) == (Model { entities: final(self).entities, ..*old(self) }),
    {
        let ghost dt = delta_time as int;
        let ghost orig = self.entities@;
        let ghost ppos = self.player.body.position;
        let player_pos = self.player.body.position;
        let mut src: Vec<Entity> = Vec::new();
        core::mem::swap(&mut src, &mut self.entities);
        let mut out: Vec<Entity> = Vec::new();
        let ghost mut i: int = 0;
        while src.len() > 0
            invariant
                model_wf(*old(self)),
                orig == old(self).entities@,
                ppos == old(self).player.body.position,
                player_pos == ppos,
                0 <= i <= orig.len(),
                src@ == orig.subrange(i, orig.len() as int),
                out@ == enemy_move_pass(orig.take(i), ppos, dt),
                forall|j: int|
                    0 <= j < out@.len() ==> entity_wf(#[trigger] out@[j], old(self).bounds),
                dt == delta_time as int,
                0 <= delta_time <= FX_MAX,
                *self == (Model { entities: self.entities, ..*old(self) }),
                self.entities@.len() == 0,
            decreases src@.len(),
        {
            let mut e = src.remove(0);
            proof {
                assert(e == orig[i]);
                assert(entity_wf(old(self).entities@[i], old(self).bounds));
                assert(orig.take(i + 1).drop_last() =~= orig.take(i));
                assert(orig.take(i + 1).last() == e);
            }
            let ghost e0 = e;
            e.rigidbody.movement(delta_time);
            let speed: i64 = e.rigidbody.velocity.length();
            if speed > e.movement_speed {
                e.rigidbody.drag(delta_time);
            }
            let chases: bool = match &e.entity_type {
                EntityType::Enemy { enemy_type } => match enemy_type {
                    EnemyType::Crawler => true,
                    EnemyType::Attacker { .. } => true,
                    _ => false,
                },
                EntityType::Player => false,
            };
            if chases {
                let target_direction = player_pos.sub(e.rigidbody.position);
                let target_velocity = target_direction.normalize().scale(e.movement_speed);
                let correction = target_velocity.sub(e.rigidbody.velocity).scale(delta_time);
                e.rigidbody.velocity = e.rigidbody.velocity.add(correction);
            }
            proof {
                assert(e == enemy_move_step(e0, ppos, dt));
            }
            out.push(e);
            proof {
                i = i + 1;
            }
        }
        proof {
            assert(orig.take(orig.len() as int) =~= orig);
        }
        self.entities = out;
    }

    /// Move the player pair: integrate, steer the head toward the aim
    /// point while alive, and keep the head on its chain.
    pub fn move_player(&mut self, delta_time: i64)
        requires
            model_wf(*old(self)),
            0 <= delta_time <= FX_MAX,
        ensures
            model_wf(*final(self)),
            final(self).player == player_move_s(old(self).player, delta_time as int),
            *final(self) == (Model { player: final(self).player, ..*old(self) }),
    {
        let ghost dt = delta_time as int;
        self.player.body.movement(delta_time);
        self.player.head.movement(delta_time);
        let ghost p1 = self.player;
        if self.player.health.is_alive() {
            let direction = self.player.head.position.sub(self.player.body.position);
            let target = self.player.head_target.sub(self.player.body.position);
            let perp = Vec2 { x: direction.y, y: fx_neg(direction.x) };
            let perpn = perp.normalize();
            let targn = target.normalize();
            let swing: i64 = perpn.dot(targn);
            let mag_abs: i64 = if swing < 0 {
                fx_neg(swing)
            } else {
                swing
            };
            let mag: i64 = if mag_abs > 200 {
                200
            } else {
                mag_abs
            };
            let rate: i64 = crate::fx::fx_div(mag, 200);
            let signed_rate: i64 = if swing < 0 {
                fx_neg(rate)
            } else {
                rate
            };
            let thv = perpn.scale(signed_rate).scale(HEAD_SPEED).add(self.player.body.velocity);
            self.player.target_head_velocity = thv;
            proof {
                assert(thv == head_tracking_velocity(p1));
            }
            let target_change = self.player.target_body_velocity.sub(self.player.body.velocity);
            self.player.body.velocity = self.player.body.velocity.add(
                target_change.scale(BODY_ACCELERATION).scale(delta_time),
            );
            let target_change_head = thv.sub(self.player.head.velocity);
            self.player.head.velocity = self.player.head.velocity.add(
                target_change_head.scale(HEAD_ACCELERATION).scale(delta_time),
            );
        }
        let ghost p2 = self.player;
        let offset = self.player.head.position.sub(self.player.body.position);
        if !(offset.x == 0 && offset.y == 0) {
            let len: i64 = offset.length();
            let dist: i64 = crate::vec2::sat_exec(len - self.player.chain_length);
            let pull = offset.normalize().scale(dist);
            self.player.head.position = self.player.head.position.sub(pull);
        }
        proof {
            assert(self.player == chain_clamp(p2));
            assert(self.player == player_move_s(old(self).player, dt));
        }
    }

    /// The collision pass, in fixed order: bounds for the player pair and
    /// every entity (a bounce cues a sound, and kills a projectile), then
    /// live enemies against the player body with fixed game-feel impulses,
    /// then against the head with physical impulses. Dead enemies neither
    /// deal nor take damage; the death cue fires exactly when the player
    /// crosses from alive to dead, and only then.
    #[verifier::rlimit(100)]
    pub fn collide(&mut self, commands: &mut Commands)
        requires
            model_wf(*old(self)),
        ensures
            model_wf(*final(self)),
            final(self).player == collide_pass(
                old(self).bounds,
                old(self).player,
                old(self).entities@,
            ).0,
            final(self).entities@ == collide_pass(
                old(self).bounds,
                old(self).player,
                old(self).entities@,
            ).1,
            final(self).events@ == old(self).events@ + collide_pass(
                old(self).bounds,
                old(self).player,
                old(self).entities@,
            ).2,
            final(commands).commands@ == old(commands).commands@ + collide_pass(
                old(self).bounds,
                old(self).player,
                old(self).entities@,
            ).3,
            final(self).entities@.len() == old(self).entities@.len(),
            forall|j: int|
                0 <= j < old(self).entities@.len() && old(self).entities@[j].health.current == 0
                    ==> final(self).entities@[j].health == old(self).entities@[j].health,
            forall|j: int|
                0 <= j < old(self).entities@.len() ==> (#[trigger] final(self).entities@[j]).health.current
                    <= old(self).entities@[j].health.current
                    && final(self).entities@[j].health.max == old(self).entities@[j].health.max,
            final(self).events@.len() >= old(self).events@.len(),
            final(self).events@.take(old(self).events@.len() as int) == old(self).events@,
            final(commands).commands@.len() >= old(commands).commands@.len(),
            final(commands).commands@.take(old(commands).commands@.len() as int) == old(
                commands,
            ).commands@,
            forall|j: int|
                old(commands).commands@.len() <= j < final(commands).commands@.len()
                    ==> crate::events::command_wf(#[trigger] final(commands).commands@[j],
                old(self).bounds),
            final(self).player.health.max == old(self).player.health.max,
            final(self).player.health.current <= old(self).player.health.current,
            final(self).player.body.position == crate::physics::bounce_s(
                old(self).player.body,
                old(self).bounds,
            ).position,
            final(self).player.head.position == crate::physics::bounce_s(
                old(self).player.head,
                old(self).bounds,
            ).position,
            count_death(final(self).events@) == count_death(old(self).events@) + if old(
                self,
            ).player.health.current > 0 && final(self).player.health.current == 0 {
                1int
            } else {
                0int
            },
            *final(self) == (Model {
                player: final(self).player,
                entities: final(self).entities,
                events: final(self).events,
                ..*old(self)
            }),
    {
        let ghost ev0 = self.events@;
        let ghost cmds0 = commands.commands@;
        let ghost en0 = self.entities@;
        let ghost palive0 = self.player.health.current > 0;
        let ghost pa = (Player {
            body: crate::physics::bounce_s(old(self).player.body, old(self).bounds),
            head: crate::physics::bounce_s(old(self).player.head, old(self).bounds),
            ..old(self).player
        });
        // bounds: player body, player head, every entity; a bounds bounce
        // always cues a sound
        if self.player.body.bounce_bounds(&self.bounds) {
            let ghost evb = self.events@;
            self.events.push(Event::Sound { sound: EventSound::Bounce });
            proof {
                lemma_count_death_push(evb, Event::Sound { sound: EventSound::Bounce });
                assert(self.events@.take(ev0.len() as int) =~= ev0);
            }
        }
        if self.player.head.bounce_bounds(&self.bounds) {
            let ghost evb = self.events@;
            self.events.push(Event::Sound { sound: EventSound::Bounce });
            proof {
                lemma_count_death_push(evb, Event::Sound { sound: EventSound::Bounce });
                assert(self.events@.take(ev0.len() as int) =~= ev0);
            }
        }
        proof {
            assert(self.player == pa);
            assert(self.events@ =~= ev0 + player_bounce_events(
                old(self).player,
                old(self).bounds,
            ));
        }
        let mut src: Vec<Entity> = Vec::new();
        core::mem::swap(&mut src, &mut self.entities);
        let mut out: Vec<Entity> = Vec::new();
        let ghost mut i: int = 0;
        while src.len() > 0
            invariant
                model_wf(*old(self)),
                en0 == old(self).entities@,
                ev0 == old(self).events@,
                0 <= i <= en0.len(),
                src@ == en0.subrange(i, en0.len() as int),
                out@.len() == i,
                forall|j: int|
                    0 <= j < out@.len() ==> (#[trigger] out@[j]).health == en0[j].health,
                forall|j: int|
                    0 <= j < out@.len() ==> entity_wf(#[trigger] out@[j], old(self).bounds),
                self.events@.len() >= ev0.len(),
                self.events@.take(ev0.len() as int) == ev0,
                count_death(self.events@) == count_death(ev0),
                out@ == bounce_pass(en0.take(i), old(self).bounds),
                self.events@ == ev0 + player_bounce_events(old(self).player, old(self).bounds)
                    + bounce_pass_events(en0.take(i), old(self).bounds),
                pa == (Player {
                    body: crate::physics::bounce_s(old(self).player.body, old(self).bounds),
                    head: crate::physics::bounce_s(old(self).player.head, old(self).bounds),
                    ..old(self).player
                }),
                self.player == pa,
                player_wf(self.player, old(self).bounds),
                self.player.body.position == crate::physics::bounce_s(
                    old(self).player.body,
                    old(self).bounds,
                ).position,
                self.player.head.position == crate::physics::bounce_s(
                    old(self).player.head,
                    old(self).bounds,
                ).position,
                self.player.health == old(self).player.health,
                *self == (Model {
                    player: self.player,
                    entities: self.entities,
                    events: self.events,
                    ..*old(self)
                }),
                self.entities@.len() == 0,
            decreases src@.len(),
        {
            let mut e = src.remove(0);
            proof {
                assert(e == en0[i]);
                assert(entity_wf(old(self).entities@[i], old(self).bounds));
                assert(en0.take(i + 1).drop_last() =~= en0.take(i));
                assert(en0.take(i + 1).last() == e);
            }
            let ghost e0 = e;
            let ghost ev_before = self.events@;
            let bounced: bool = e.rigidbody.bounce_bounds(&self.bounds);
            if bounced {
                match &mut e.entity_type {
                    EntityType::Enemy { enemy_type } => match enemy_type {
                        EnemyType::Projectile { lifetime } => {
                            lifetime.kill();
                        },
                        _ => {},
                    },
                    _ => {},
                }
                let ghost evb = self.events@;
                self.events.push(Event::Sound { sound: EventSound::Bounce });
                proof {
                    lemma_count_death_push(evb, Event::Sound { sound: EventSound::Bounce });
                    assert(self.events@.take(ev0.len() as int) =~= ev0);
                }
            }
            proof {
                assert(e == bounce_step(e0, old(self).bounds));
                assert(bounced == rb_bounced(e0.rigidbody, old(self).bounds));
                if bounced {
                    assert(self.events@ =~= ev_before + seq![
                        Event::Sound { sound: EventSound::Bounce },
                    ]);
                } else {
                    assert(self.events@ =~= ev_before + Seq::<Event>::empty());
                }
                assert(self.events@ =~= ev0 + player_bounce_events(
                    old(self).player,
                    old(self).bounds,
                ) + bounce_pass_events(en0.take(i + 1), old(self).bounds));
            }
            out.push(e);
            proof {
                assert(out@ == bounce_pass(en0.take(i + 1), old(self).bounds));
                i = i + 1;
            }
        }
        self.entities = out;
        proof {
            assert(en0.take(en0.len() as int) =~= en0);
        }
        // live enemies against the player body: fixed game-feel impulses
        let ghost en1 = self.entities@;
        let ghost eva = self.events@;
        let ghost pcur1 = self.player.health.current;
        let mut src2: Vec<Entity> = Vec::new();
        core::mem::swap(&mut src2, &mut self.entities);
        let mut out2: Vec<Entity> = Vec::new();
        let ghost mut i2: int = 0;
        proof {
            assert(Seq::<Entity>::empty() + body_pass(en1, pa).0 =~= body_pass(en1, pa).0);
            assert(eva + body_pass(en1, pa).2 =~= self.events@ + body_pass(en1, pa).2);
            assert(cmds0 + body_pass(en1, pa).3 =~= commands.commands@ + body_pass(en1, pa).3);
        }
        while src2.len() > 0
            invariant
                model_wf(*old(self)),
                en0 == old(self).entities@,
                ev0 == old(self).events@,
                pa == (Player {
                    body: crate::physics::bounce_s(old(self).player.body, old(self).bounds),
                    head: crate::physics::bounce_s(old(self).player.head, old(self).bounds),
                    ..old(self).player
                }),
                en1 == bounce_pass(en0, old(self).bounds),
                eva == ev0 + player_bounce_events(old(self).player, old(self).bounds)
                    + bounce_pass_events(en0, old(self).bounds),
                body_pass(en1, pa).0 == out2@ + body_pass(src2@, self.player).0,
                body_pass(en1, pa).1 == body_pass(src2@, self.player).1,
                eva + body_pass(en1, pa).2 == self.events@ + body_pass(src2@, self.player).2,
                cmds0 + body_pass(en1, pa).3 == commands.commands@ + body_pass(
                    src2@,
                    self.player,
                ).3,
                en1.len() == en0.len(),
                forall|j: int|
                    0 <= j < en1.len() ==> (#[trigger] en1[j]).health == en0[j].health,
                forall|j: int| 0 <= j < en1.len() ==> entity_wf(#[trigger] en1[j], old(self).bounds),
                0 <= i2 <= en1.len(),
                src2@ == en1.subrange(i2, en1.len() as int),
                out2@.len() == i2,
                forall|j: int|
                    0 <= j < out2@.len() && en0[j].health.current == 0 ==> (
                    #[trigger] out2@[j]).health == en0[j].health,
                forall|j: int|
                    0 <= j < out2@.len() ==> (#[trigger] out2@[j]).health.current
                        <= en0[j].health.current && out2@[j].health.max == en0[j].health.max,
                forall|j: int|
                    0 <= j < out2@.len() ==> entity_wf(#[trigger] out2@[j], old(self).bounds),
                self.events@.len() >= ev0.len(),
                self.events@.take(ev0.len() as int) == ev0,
                commands.commands@.len() >= cmds0.len(),
                commands.commands@.take(cmds0.len() as int) == cmds0,
                forall|j: int|
                    cmds0.len() <= j < commands.commands@.len() ==> crate::events::command_wf(
                        #[trigger] commands.commands@[j],
                        old(self).bounds,
                    ),
                player_wf(self.player, old(self).bounds),
                self.player.body.position == crate::physics::bounce_s(
                    old(self).player.body,
                    old(self).bounds,
                ).position,
                self.player.head.position == crate::physics::bounce_s(
                    old(self).player.head,
                    old(self).bounds,
                ).position,
                self.player.health.max == old(self).player.health.max,
                self.player.health.current <= old(self).player.health.current,
                palive0 == (old(self).player.health.current > 0),
                pcur1 == old(self).player.health.current,
                count_death(self.events@) == count_death(ev0) + if palive0
                    && self.player.health.current == 0 {
                    1int
                } else {
                    0int
                },
                *self == (Model {
                    player: self.player,
                    entities: self.entities,
                    events: self.events,
                    ..*old(self)
                }),
                self.entities@.len() == 0,
            decreases src2@.len(),
        {
            let ghost sb = src2@;
            let ghost pb = self.player;
            let ghost evb0 = self.events@;
            let ghost cb0 = commands.commands@;
            let ghost out2b = out2@;
            let mut e = src2.remove(0);
            proof {
                assert(e == sb.first());
                assert(src2@ == sb.skip(1));
                assert(e == en1[i2]);
                assert(en1[i2].health == en0[i2].health);
                assert(entity_wf(en1[i2], old(self).bounds));
            }
            let ghost e0 = e;
            if e.is_alive() {
                let maybe = e.rigidbody.collision(&self.player.body);
                match maybe {
                    Some(collision) => {
                        e.rigidbody.position = e.rigidbody.position.add(
                            collision.normal.scale(collision.penetration),
                        );
                        let relative_velocity = self.player.body.velocity.sub(
                            e.rigidbody.velocity,
                        );
                        let d: i64 = collision.normal.dot(relative_velocity);
                        let hit_strength: i64 = if d < 0 {
                            fx_neg(d)
                        } else {
                            d
                        };
                        let ratio_e: i64 = crate::fx::fx_div(
                            self.player.body.mass,
                            e.rigidbody.mass,
                        );
                        e.rigidbody.velocity = e.rigidbody.velocity.add(
                            collision.normal.scale(BODY_HIT_SPEED).scale(ratio_e),
                        );
                        let ratio_p: i64 = crate::fx::fx_div(
                            e.rigidbody.mass,
                            self.player.body.mass,
                        );
                        self.player.body.velocity = self.player.body.velocity.sub(
                            collision.normal.scale(BODY_IMPACT).scale(ratio_p),
                        );
                        let contact = self.player.body.position.add(
                            collision.normal.scale(collision.penetration),
                        );
                        let player_alive: bool = self.player.health.is_alive();
                        self.player.health.change(fx_neg(hit_strength));
                                        commands.spawn_particles(
                            contact,
                            fx_mul(hit_strength, 5 * SCALE),
                            player_color(),
                        );
                        proof {
                            assert(commands.commands@.take(cmds0.len() as int) =~= cmds0);
                        }
                        e.health.change(fx_neg(hit_strength));
                                        commands.spawn_particles(contact, hit_strength, e.color);
                        proof {
                            assert(commands.commands@.take(cmds0.len() as int) =~= cmds0);
                        }
                        let ghost evb = self.events@;
                        self.events.push(Event::Sound { sound: EventSound::BodyHit });
                        proof {
                            lemma_count_death_push(
                                evb,
                                Event::Sound { sound: EventSound::BodyHit },
                            );
                            assert(self.events@.take(ev0.len() as int) =~= ev0);
                        }
                        if player_alive && !self.player.health.is_alive() {
                            let ghost evd = self.events@;
                            self.events.push(Event::Sound { sound: EventSound::Death });
                            proof {
                                lemma_count_death_push(
                                    evd,
                                    Event::Sound { sound: EventSound::Death },
                                );
                                assert(self.events@.take(ev0.len() as int) =~= ev0);
                            }
                        }
                    },
                    None => {},
                }
            }
            proof {
                assert(e == body_step_entity(e0, pb));
                assert(self.player == body_step_player(e0, pb));
                assert(self.events@ =~= evb0 + body_step_events(e0, pb));
                assert(commands.commands@ =~= cb0 + body_step_cmds(e0, pb));
            }
            out2.push(e);
            proof {
                assert(body_pass(sb, pb).0 == seq![body_step_entity(sb.first(), pb)] + body_pass(
                    sb.skip(1),
                    body_step_player(sb.first(), pb),
                ).0);
                assert(body_pass(sb, pb).1 == body_pass(
                    sb.skip(1),
                    body_step_player(sb.first(), pb),
                ).1);
                assert(body_pass(sb, pb).2 == body_step_events(sb.first(), pb) + body_pass(
                    sb.skip(1),
                    body_step_player(sb.first(), pb),
                ).2);
                assert(body_pass(sb, pb).3 == body_step_cmds(sb.first(), pb) + body_pass(
                    sb.skip(1),
                    body_step_player(sb.first(), pb),
                ).3);
                assert(body_pass(en1, pa).0 =~= out2@ + body_pass(src2@, self.player).0);
                assert(eva + body_pass(en1, pa).2 =~= self.events@ + body_pass(
                    src2@,
                    self.player,
                ).2);
                assert(cmds0 + body_pass(en1, pa).3 =~= commands.commands@ + body_pass(
                    src2@,
                    self.player,
                ).3);
                i2 = i2 + 1;
            }
        }
        self.entities = out2;
        proof {
            assert(body_pass(Seq::<Entity>::empty(), self.player).0 =~= Seq::<Entity>::empty());
            assert(out2@ + Seq::<Entity>::empty() =~= out2@);
            assert(self.events@ + Seq::<Event>::empty() =~= self.events@);
            assert(commands.commands@ + Seq::<Command>::empty() =~= commands.commands@);
            assert(self.entities@ == body_pass(en1, pa).0);
            assert(self.player == body_pass(en1, pa).1);
            assert(self.events@ == eva + body_pass(en1, pa).2);
            assert(commands.commands@ == cmds0 + body_pass(en1, pa).3);
        }
        // live enemies against the player head: physical impulses
        let ghost en2 = self.entities@;
        let ghost evbt = self.events@;
        let ghost cbt = commands.commands@;
        let ghost pbt = self.player;
        let mut src3: Vec<Entity> = Vec::new();
        core::mem::swap(&mut src3, &mut self.entities);
        let mut out3: Vec<Entity> = Vec::new();
        let ghost mut i3: int = 0;
        proof {
            assert(Seq::<Entity>::empty() + head_pass(en2, pbt).0 =~= head_pass(en2, pbt).0);
            assert(evbt + head_pass(en2, pbt).2 =~= self.events@ + head_pass(en2, pbt).2);
            assert(cbt + head_pass(en2, pbt).3 =~= commands.commands@ + head_pass(en2, pbt).3);
        }
        while src3.len() > 0
            invariant
                model_wf(*old(self)),
                en0 == old(self).entities@,
                ev0 == old(self).events@,
                pa == (Player {
                    body: crate::physics::bounce_s(old(self).player.body, old(self).bounds),
                    head: crate::physics::bounce_s(old(self).player.head, old(self).bounds),
                    ..old(self).player
                }),
                en1 == bounce_pass(en0, old(self).bounds),
                eva == ev0 + player_bounce_events(old(self).player, old(self).bounds)
                    + bounce_pass_events(en0, old(self).bounds),
                en2 == body_pass(en1, pa).0,
                pbt == body_pass(en1, pa).1,
                evbt == eva + body_pass(en1, pa).2,
                cbt == cmds0 + body_pass(en1, pa).3,
                head_pass(en2, pbt).0 == out3@ + head_pass(src3@, self.player).0,
                head_pass(en2, pbt).1 == head_pass(src3@, self.player).1,
                evbt + head_pass(en2, pbt).2 == self.events@ + head_pass(src3@, self.player).2,
                cbt + head_pass(en2, pbt).3 == commands.commands@ + head_pass(
                    src3@,
                    self.player,
                ).3,
                en2.len() == en0.len(),
                forall|j: int|
                    0 <= j < en2.len() && en0[j].health.current == 0 ==> (
                    #[trigger] en2[j]).health == en0[j].health,
                forall|j: int|
                    0 <= j < en2.len() ==> (#[trigger] en2[j]).health.current
                        <= en0[j].health.current && en2[j].health.max == en0[j].health.max,
                forall|j: int| 0 <= j < en2.len() ==> entity_wf(#[trigger] en2[j], old(self).bounds),
                0 <= i3 <= en2.len(),
                src3@ == en2.subrange(i3, en2.len() as int),
                out3@.len() == i3,
                forall|j: int|
                    0 <= j < out3@.len() && en0[j].health.current == 0 ==> (
                    #[trigger] out3@[j]).health == en0[j].health,
                forall|j: int|
                    0 <= j < out3@.len() ==> (#[trigger] out3@[j]).health.current
                        <= en0[j].health.current && out3@[j].health.max == en0[j].health.max,
                forall|j: int|
                    0 <= j < out3@.len() ==> entity_wf(#[trigger] out3@[j], old(self).bounds),
                self.events@.len() >= ev0.len(),
                self.events@.take(ev0.len() as int) == ev0,
                commands.commands@.len() >= cmds0.len(),
                commands.commands@.take(cmds0.len() as int) == cmds0,
                forall|j: int|
                    cmds0.len() <= j < commands.commands@.len() ==> crate::events::command_wf(
                        #[trigger] commands.commands@[j],
                        old(self).bounds,
                    ),
                player_wf(self.player, old(self).bounds),
                self.player.body.position == crate::physics::bounce_s(
                    old(self).player.body,
                    old(self).bounds,
                ).position,
                self.player.head.position == crate::physics::bounce_s(
                    old(self).player.head,
                    old(self).bounds,
                ).position,
                self.player.health.max == old(self).player.health.max,
                self.player.health.current <= old(self).player.health.current,
                palive0 == (old(self).player.health.current > 0),
                count_death(self.events@) == count_death(ev0) + if palive0
                    && self.player.health.current == 0 {
                    1int
                } else {
                    0int
                },
                *self == (Model {
                    player: self.player,
                    entities: self.entities,
                    events: self.events,
                    ..*old(self)
                }),
                self.entities@.len() == 0,
            decreases src3@.len(),
        {
            let ghost sc = src3@;
            let ghost pc = self.player;
            let ghost evc0 = self.events@;
            let ghost cc0 = commands.commands@;
            let mut e = src3.remove(0);
            proof {
                assert(e == sc.first());
                assert(src3@ == sc.skip(1));
                assert(e == en2[i3]);
                assert(entity_wf(en2[i3], old(self).bounds));
                if en0[i3].health.current == 0 {
                    assert(en2[i3].health == en0[i3].health);
                }
            }
            let ghost e0 = e;
            if e.is_alive() {
                let maybe = e.rigidbody.collision(&self.player.head);
                match maybe {
                    Some(collision) => {
                        e.rigidbody.position = e.rigidbody.position.add(
                            collision.normal.scale(collision.penetration),
                        );
                        let relative_velocity = self.player.head.velocity.sub(
                            e.rigidbody.velocity,
                        );
                        let d: i64 = collision.normal.dot(relative_velocity);
                        let hit_strength: i64 = if d < 0 {
                            fx_neg(d)
                        } else {
                            d
                        };
                        let ratio_e: i64 = crate::fx::fx_div(
                            self.player.head.mass,
                            e.rigidbody.mass,
                        );
                        e.rigidbody.velocity = e.rigidbody.velocity.add(
                            collision.normal.scale(hit_strength).scale(ratio_e),
                        );
                        let ratio_h: i64 = crate::fx::fx_div(
                            e.rigidbody.mass,
                            self.player.head.mass,
                        );
                        self.player.head.velocity = self.player.head.velocity.sub(
                            collision.normal.scale(hit_strength).scale(ratio_h),
                        );
                        let contact = self.player.head.position.add(
                            collision.normal.scale(collision.penetration),
                        );
                        e.health.change(fx_neg(hit_strength));
                        commands.spawn_particles(contact, hit_strength, e.color);
                        proof {
                            assert(commands.commands@.take(cmds0.len() as int) =~= cmds0);
                        }
                        let ghost evb = self.events@;
                        self.events.push(Event::Sound { sound: EventSound::HeadHit });
                        proof {
                            lemma_count_death_push(
                                evb,
                                Event::Sound { sound: EventSound::HeadHit },
                            );
                            assert(self.events@.take(ev0.len() as int) =~= ev0);
                        }
                    },
                    None => {},
                }
            }
            proof {
                assert(e == head_step_entity(e0, pc));
                assert(self.player == head_step_player(e0, pc));
                assert(self.events@ =~= evc0 + head_step_events(e0, pc));
                assert(commands.commands@ =~= cc0 + head_step_cmds(e0, pc));
            }
            out3.push(e);
            proof {
                assert(head_pass(sc, pc).0 == seq![head_step_entity(sc.first(), pc)] + head_pass(
                    sc.skip(1),
                    head_step_player(sc.first(), pc),
                ).0);
                assert(head_pass(sc, pc).1 == head_pass(
                    sc.skip(1),
                    head_step_player(sc.first(), pc),
                ).1);
                assert(head_pass(sc, pc).2 == head_step_events(sc.first(), pc) + head_pass(
                    sc.skip(1),
                    head_step_player(sc.first(), pc),
                ).2);
                assert(head_pass(sc, pc).3 == head_step_cmds(sc.first(), pc) + head_pass(
                    sc.skip(1),
                    head_step_player(sc.first(), pc),
                ).3);
                assert(head_pass(en2, pbt).0 =~= out3@ + head_pass(src3@, self.player).0);
                assert(evbt + head_pass(en2, pbt).2 =~= self.events@ + head_pass(
                    src3@,
                    self.player,
                ).2);
                assert(cbt + head_pass(en2, pbt).3 =~= commands.commands@ + head_pass(
                    src3@,
                    self.player,
                ).3);
                i3 = i3 + 1;
            }
        }
        self.entities = out3;
        proof {
            assert(head_pass(Seq::<Entity>::empty(), self.player).0 =~= Seq::<Entity>::empty());
            assert(out3@ + Seq::<Entity>::empty() =~= out3@);
            assert(self.events@ + Seq::<Event>::empty() =~= self.events@);
            assert(commands.commands@ + Seq::<Command>::empty() =~= commands.commands@);
            assert(self.entities@ == head_pass(en2, pbt).0);
            assert(self.player == head_pass(en2, pbt).1);
            assert(self.events@ == evbt + head_pass(en2, pbt).2);
            assert(commands.commands@ == cbt + head_pass(en2, pbt).3);
            let cp = collide_pass(old(self).bounds, old(self).player, en0);
            assert(self.player == cp.0);
            assert(self.entities@ == cp.1);
            assert(self.events@ =~= ev0 + cp.2);
            assert(commands.commands@ =~= cmds0 + cp.3);
        }
    }

    /// Age, move and bounce every particle, then prune the expired ones.
    pub fn update_particles(&mut self, delta_time: i64)
        requires
            model_wf(*old(self)),
            0 <= delta_time <= FX_MAX,
        ensures
            model_wf(*final(self)),
            final(self).particles@ == particles_pass(
                old(self).particles@,
                old(self).bounds,
                delta_time as int,
            ),
            *final(self) == (Model { particles: final(self).particles, ..*old(self) }),
    {
        let ghost dt = delta_time as int;
        let ghost orig = self.particles@;
        let mut src: Vec<Particle> = Vec::new();
        core::mem::swap(&mut src, &mut self.particles);
        let mut kept: Vec<Particle> = Vec::new();
        let ghost mut i: int = 0;
        while src.len() > 0
            invariant
                model_wf(*old(self)),
                orig == old(self).particles@,
                0 <= i <= orig.len(),
                src@ == orig.subrange(i, orig.len() as int),
                kept@ == particles_pass(orig.take(i), old(self).bounds, dt),
                forall|j: int|
                    0 <= j < kept@.len() ==> particle_wf(#[trigger] kept@[j], old(self).bounds),
                dt == delta_time as int,
                0 <= delta_time <= FX_MAX,
                *self == (Model { particles: self.particles, ..*old(self) }),
                self.particles@.len() == 0,
            decreases src@.len(),
        {
            let mut p = src.remove(0);
            proof {
                assert(p == orig[i]);
                assert(particle_wf(old(self).particles@[i], old(self).bounds));
                assert(orig.take(i + 1).drop_last() =~= orig.take(i));
                assert(orig.take(i + 1).last() == p);
            }
            let ghost p0 = p;
            p.rigidbody.movement(delta_time);
            p.rigidbody.bounce_bounds(&self.bounds);
            p.rigidbody.drag(delta_time);
            p.lifetime.change(-delta_time);
            let frac: i64 = p.lifetime.hp_frac();
            let alpha: i64 = fx_mul(frac, 500);
            proof {
                assert(0 <= alpha <= SCALE) by (nonlinear_arith)
                    requires
                        alpha == sat(tdiv(frac * 500, SCALE as int)),
                        0 <= frac <= SCALE,
                ;
            }
            p.color = Color { a: alpha, ..p.color };
            proof {
                assert(p == particle_step(p0, old(self).bounds, dt));
            }
            if p.lifetime.is_alive() {
                kept.push(p);
            }
            proof {
                i = i + 1;
            }
        }
        proof {
            assert(orig.take(orig.len() as int) =~= orig);
        }
        self.particles = kept;
    }

    /// Consume the front wave, if any: every group becomes a spawner at a
    /// random position inside the bounds, with its full countdown.
    pub fn next_wave(&mut self)
        requires
            model_wf(*old(self)),
        ensures
            model_wf(*final(self)),
            old(self).waves@.len() == 0 ==> *final(self) == *old(self),
            old(self).waves@.len() > 0 ==> final(self).waves@ == old(self).waves@.skip(1)
                && final(self).spawners@.len() == old(self).spawners@.len() + old(
                self,
            ).waves@[0].groups@.len() && (forall|k: int|
                0 <= k < old(self).waves@[0].groups@.len() ==> {
                    let sp = #[trigger] final(self).spawners@[old(self).spawners@.len() + k];
                    &&& sp.spawn_group == old(self).waves@[0].groups@[k]
                    &&& sp.time_left == old(self).waves@[0].groups@[k].spawn_time
                    &&& sp.time_left_max == old(self).waves@[0].groups@[k].spawn_time
                }) && final(self).spawners@.take(old(self).spawners@.len() as int) == old(
                self,
            ).spawners@,
            *final(self) == (Model {
                waves: final(self).waves,
                spawners: final(self).spawners,
                ..*old(self)
            }),
    {
        if self.waves.len() == 0 {
            return ;
        }
        let wave = self.waves.remove(0);
        let ghost groups = wave.groups@;
        let ghost orig_sp = self.spawners@;
        let mut rest = wave.groups;
        let ghost mut k: int = 0;
        while rest.len() > 0
            invariant
                model_wf(*old(self)),
                0 <= k <= groups.len(),
                rest@ == groups.subrange(k, groups.len() as int),
                forall|j: int|
                    0 <= j < groups.len() ==> wave_group_wf(#[trigger] groups[j], old(self).bounds),
                orig_sp == old(self).spawners@,
                self.spawners@.len() == orig_sp.len() + k,
                self.spawners@.take(orig_sp.len() as int) == orig_sp,
                forall|j: int|
                    0 <= j < k ==> {
                        let sp = #[trigger] self.spawners@[orig_sp.len() + j];
                        &&& sp.spawn_group == groups[j]
                        &&& sp.time_left == groups[j].spawn_time
                        &&& sp.time_left_max == groups[j].spawn_time
                    },
                forall|j: int|
                    0 <= j < self.spawners@.len() ==> spawner_wf(
                        #[trigger] self.spawners@[j],
                        old(self).bounds,
                    ),
                self.waves@ == old(self).waves@.skip(1),
                *self == (Model { waves: self.waves, spawners: self.spawners, ..*old(self) }),
            decreases rest@.len(),
        {
            let group = rest.remove(0);
            proof {
                assert(group == groups[k]);
                assert(wave_group_wf(groups[k], old(self).bounds));
            }
            let x: i64 = crate::rng::rand_range(self.bounds.min.x, self.bounds.max.x);
            let y: i64 = crate::rng::rand_range(self.bounds.min.y, self.bounds.max.y);
            let time: i64 = group.spawn_time;
            let ghost before = self.spawners@;
            self.spawners.push(
                Spawner {
                    position: Vec2 { x, y },
                    spawn_group: group,
                    time_left: time,
                    time_left_max: time,
                },
            );
            proof {
                assert(self.spawners@.take(orig_sp.len() as int) =~= orig_sp);
                k = k + 1;
            }
        }
    }

    /// The variable-rate tick: advance the wave when the arena is clear
    /// (the player is alive and entities and spawners are both empty, and
    /// only then), then run spawners and particles.
    pub fn update(&mut self, delta_time: i64)
        requires
            model_wf(*old(self)),
            0 <= delta_time <= FX_MAX,
        ensures
            model_wf(*final(self)),
            final(self).waves@ == if old(self).player.health.current > 0 && old(
                self,
            ).entities@.len() == 0 && old(self).spawners@.len() == 0 && old(self).waves@.len() > 0 {
                old(self).waves@.skip(1)
            } else {
                old(self).waves@
            },
            final(self).player == old(self).player,
            final(self).events@ == old(self).events@,
            final(self).area_effects@ == old(self).area_effects@,
            final(self).bounds == old(self).bounds,
            final(self).particles@ == particles_pass(
                old(self).particles@,
                old(self).bounds,
                delta_time as int,
            ),
            !(old(self).player.health.current > 0 && old(self).entities@.len() == 0 && old(
                self,
            ).spawners@.len() == 0) ==> final(self).spawners@ == spawners_after(
                old(self).spawners@,
                delta_time as int,
            ) && final(self).entities@ == old(self).entities@ + fired_entities(
                fired_list(old(self).spawners@, delta_time as int),
            ),
            (old(self).player.health.current > 0 && old(self).entities@.len() == 0 && old(
                self,
            ).spawners@.len() == 0 && old(self).waves@.len() > 0) ==> (exists|sp1: Seq<Spawner>|
                {
                    &&& sp1.len() == old(self).waves@[0].groups@.len()
                    &&& (forall|k: int|
                        0 <= k < sp1.len() ==> (#[trigger] sp1[k]).spawn_group == old(
                            self,
                        ).waves@[0].groups@[k] && sp1[k].time_left == old(
                            self,
                        ).waves@[0].groups@[k].spawn_time && sp1[k].time_left_max == old(
                            self,
                        ).waves@[0].groups@[k].spawn_time)
                    &&& final(self).spawners@ == #[trigger] spawners_after(
                        sp1,
                        delta_time as int,
                    )
                    &&& final(self).entities@ == old(self).entities@ + fired_entities(
                        fired_list(sp1, delta_time as int),
                    )
                }),
    {
        if self.player.health.is_alive() && self.entities.len() == 0 && self.spawners.len() == 0 {
            self.next_wave();
        }
        let ghost sp_mid = self.spawners@;
        self.update_spawners(delta_time);
        self.update_particles(delta_time);
        proof {
            let dt = delta_time as int;
            if old(self).player.health.current > 0 && old(self).entities@.len() == 0 && old(
                self,
            ).spawners@.len() == 0 && old(self).waves@.len() > 0 {
                assert(sp_mid.len() == old(self).waves@[0].groups@.len());
                assert forall|k: int| 0 <= k < sp_mid.len() implies (#[trigger] sp_mid[k]).spawn_group
                    == old(self).waves@[0].groups@[k] && sp_mid[k].time_left == old(
                    self,
                ).waves@[0].groups@[k].spawn_time && sp_mid[k].time_left_max == old(
                    self,
                ).waves@[0].groups@[k].spawn_time by {
                    assert(sp_mid[old(self).spawners@.len() + k] == sp_mid[k]);
                }
                assert(self.spawners@ == spawners_after(sp_mid, dt));
                assert(self.entities@ == old(self).entities@ + fired_entities(
                    fired_list(sp_mid, dt),
                ));
            }
        }
    }

    /// Remove flagged and fully dead entities and convert freshly dead
    /// ones to corpses, preserving the relative order of the survivors.
    pub fn check_dead(&mut self, delta_time: i64)
        requires
            model_wf(*old(self)),
            0 <= delta_time <= FX_MAX,
        ensures
            model_wf(*final(self)),
            final(self).entities@ == dead_pass(old(self).entities@, delta_time as int),
            *final(self) == (Model { entities: final(self).entities, ..*old(self) }),
    {
        let ghost orig = self.entities@;
        let mut src: Vec<Entity> = Vec::new();
        core::mem::swap(&mut src, &mut self.entities);
        let mut kept: Vec<Entity> = Vec::new();
        let ghost mut i: int = 0;
        while src.len() > 0
            invariant
                model_wf(*old(self)),
                orig == old(self).entities@,
                0 <= i <= orig.len(),
                src@ == orig.subrange(i, orig.len() as int),
                kept@ == dead_pass(orig.take(i), delta_time as int),
                *self == (Model { entities: self.entities, ..*old(self) }),
                self.entities@.len() == 0,
                0 <= delta_time <= FX_MAX,
                forall|j: int|
                    0 <= j < kept@.len() ==> entity_wf(#[trigger] kept@[j], old(self).bounds),
            decreases src@.len(),
        {
            let e = src.remove(0);
            proof {
                assert(e == orig[i]);
                assert(orig == old(self).entities@);
                assert(entity_wf(old(self).entities@[i], old(self).bounds));
                assert(orig.take(i + 1) =~= orig.take(i).push(e));
            }
            let ghost kept0 = kept@;
            let Entity { rigidbody, health, movement_speed, color, destroy, entity_type } = e;
            if destroy {
                // removed this tick, unconditionally
                proof {
                    assert(!dead_keep(e, delta_time as int));
                }
            } else if health.current > 0 {
                kept.push(
                    Entity { rigidbody, health, movement_speed, color, destroy, entity_type },
                );
                proof {
                    assert(dead_keep(e, delta_time as int));
                    assert(dead_step(e, delta_time as int) == e);
                    assert(kept@ == kept0.push(e));
                }
            } else {
                match entity_type {
                    EntityType::Enemy { enemy_type } => {
                        match enemy_type {
                            EnemyType::Corpse { lifetime } => {
                                let mut faded = lifetime;
                                faded.change(-delta_time);
                                let frac: i64 = faded.hp_frac();
                                let alpha: i64 = fx_mul(frac, 500);
                                proof {
                                    assert(0 <= alpha <= SCALE) by (nonlinear_arith)
                                        requires
                                            alpha == sat(tdiv(frac * 500, SCALE as int)),
                                            0 <= frac <= SCALE,
                                    ;
                                }
                                let stepped = Entity {
                                    rigidbody,
                                    health,
                                    movement_speed,
                                    color: Color { a: alpha, ..color },
                                    destroy,
                                    entity_type: EntityType::Enemy {
                                        enemy_type: EnemyType::Corpse { lifetime: faded },
                                    },
                                };
                                if faded.is_alive() {
                                    kept.push(stepped);
                                    proof {
                                        assert(dead_keep(e, delta_time as int));
                                        assert(kept@ == kept0.push(
                                            dead_step(e, delta_time as int),
                                        ));
                                    }
                                } else {
                                    proof {
                                        assert(!dead_keep(e, delta_time as int));
                                    }
                                }
                            },
                            EnemyType::Attacker { attack } => {
                                if !attack.attack_time.is_alive() {
                                    match attack.attack_type {
                                        AttackType::Bomb { .. } => {
                                            // exploded: removed immediately
                                            proof {
                                                assert(!dead_keep(e, delta_time as int));
                                            }
                                        },
                                        AttackType::Shoot { .. } => {
                                            // a spent shooter dies like anything else:
                                            // it fades as a fresh corpse
                                            kept.push(
                                                Entity {
                                                    rigidbody,
                                                    health,
                                                    movement_speed,
                                                    color,
                                                    destroy,
                                                    entity_type: EntityType::Enemy {
                                                        enemy_type: EnemyType::Corpse {
                                                            lifetime: Health::new(CORPSE_LIFETIME),
                                                        },
                                                    },
                                                },
                                            );
                                            proof {
                                                assert(dead_keep(e, delta_time as int));
                                                assert(kept@ == kept0.push(
                                                    dead_step(e, delta_time as int),
                                                ));
                                            }
                                        },
                                    }
                                } else {
                                    kept.push(
                                        Entity {
                                            rigidbody,
                                            health,
                                            movement_speed,
                                            color,
                                            destroy,
                                            entity_type: EntityType::Enemy {
                                                enemy_type: EnemyType::Corpse {
                                                    lifetime: Health::new(CORPSE_LIFETIME),
                                                },
                                            },
                                        },
                                    );
                                    proof {
                                        assert(dead_keep(e, delta_time as int));
                                        assert(kept@ == kept0.push(
                                            dead_step(e, delta_time as int),
                                        ));
                                    }
                                }
                            },
                            EnemyType::Crawler => {
                                kept.push(
                                    Entity {
                                        rigidbody,
                                        health,
                                        movement_speed,
                                        color,
                                        destroy,
                                        entity_type: EntityType::Enemy {
                                            enemy_type: EnemyType::Corpse {
                                                lifetime: Health::new(CORPSE_LIFETIME),
                                            },
                                        },
                                    },
                                );
                                proof {
                                    assert(dead_keep(e, delta_time as int));
                                    assert(kept@ == kept0.push(dead_step(e, delta_time as int)));
                                }
                            },
                            EnemyType::Projectile { .. } => {
                                kept.push(
                                    Entity {
                                        rigidbody,
                                        health,
                                        movement_speed,
                                        color,
                                        destroy,
                                        entity_type: EntityType::Enemy {
                                            enemy_type: EnemyType::Corpse {
                                                lifetime: Health::new(CORPSE_LIFETIME),
                                            },
                                        },
                                    },
                                );
                                proof {
                                    assert(dead_keep(e, delta_time as int));
                                    assert(kept@ == kept0.push(dead_step(e, delta_time as int)));
                                }
                            },
                        }
                    },
                    EntityType::Player => {
                        kept.push(
                            Entity {
                                rigidbody,
                                health,
                                movement_speed,
                                color,
                                destroy,
                                entity_type: EntityType::Player,
                            },
                        );
                        proof {
                            assert(dead_keep(e, delta_time as int));
                            assert(dead_step(e, delta_time as int) == e);
                            assert(kept@ == kept0.push(e));
                        }
                    },
                }
            }
            proof {
                let dt = delta_time as int;
                assert(orig.take(i + 1).drop_last() =~= orig.take(i));
                assert(orig.take(i + 1).last() == e);
                assert(dead_pass(orig.take(i + 1), dt) == if dead_keep(e, dt) {
                    dead_pass(orig.take(i), dt).push(dead_step(e, dt))
                } else {
                    dead_pass(orig.take(i), dt)
                });
                i = i + 1;
            }
        }
        proof {
            assert(orig.take(orig.len() as int) =~= orig);
        }
        self.entities = kept;
    }

    /// Drain the deferred command buffer in order: spawn queued entities,
    /// open queued area effects, and scatter queued particle bursts.
    pub fn perform_commands(&mut self, commands: Commands)
        requires
            model_wf(*old(self)),
            forall|j: int|
                0 <= j < commands.commands@.len() ==> crate::events::command_wf(
                    #[trigger] commands.commands@[j],
                    old(self).bounds,
                ),
        ensures
            model_wf(*final(self)),
            final(self).entities@ == old(self).entities@ + cmd_entities(commands.commands@),
            final(self).area_effects@ == old(self).area_effects@ + cmd_areas(commands.commands@),
            final(self).particles@.len() >= old(self).particles@.len(),
            final(self).particles@.take(old(self).particles@.len() as int) == old(self).particles@,
            *final(self) == (Model {
                entities: final(self).entities,
                area_effects: final(self).area_effects,
                particles: final(self).particles,
                ..*old(self)
            }),
    {
        let ghost full = commands.commands@;
        let ghost en0 = self.entities@;
        let ghost ar0 = self.area_effects@;
        let ghost pa0 = self.particles@;
        let mut rest = commands.commands;
        while rest.len() > 0
            invariant
                model_wf(*self),
                model_wf(*old(self)),
                en0 == old(self).entities@,
                ar0 == old(self).area_effects@,
                pa0 == old(self).particles@,
                forall|j: int|
                    0 <= j < rest@.len() ==> crate::events::command_wf(
                        #[trigger] rest@[j],
                        old(self).bounds,
                    ),
                en0 + cmd_entities(full) == self.entities@ + cmd_entities(rest@),
                ar0 + cmd_areas(full) == self.area_effects@ + cmd_areas(rest@),
                self.particles@.len() >= pa0.len(),
                self.particles@.take(pa0.len() as int) == pa0,
                *self == (Model {
                    entities: self.entities,
                    area_effects: self.area_effects,
                    particles: self.particles,
                    ..*old(self)
                }),
            decreases rest@.len(),
        {
            let ghost rest_before = rest@;
            let c = rest.remove(0);
            proof {
                assert(c == rest_before.first());
                assert(rest@ == rest_before.skip(1));
                assert(crate::events::command_wf(rest_before[0], old(self).bounds));
            }
            match c {
                Command::SpawnParticles { position, intensity, color } => {
                    self.spawn_particles_hit(position, intensity, color);
                    proof {
                        assert(self.particles@.take(pa0.len() as int) =~= pa0);
                        assert(cmd_entities(rest_before) == cmd_entities(rest@));
                        assert(cmd_areas(rest_before) == cmd_areas(rest@));
                    }
                },
                Command::SpawnEntity { position, velocity, info } => {
                    let ghost ginfo = info;
                    let mut ent = Entity::new(position, info, generic_material());
                    ent.rigidbody.velocity = velocity;
                    proof {
                        assert(ent == cmd_spawn_of(position, velocity, ginfo));
                    }
                    let ghost eb = self.entities@;
                    self.entities.push(ent);
                    proof {
                        assert(entity_wf(ent, old(self).bounds));
                        assert(cmd_entities(rest_before) =~= seq![ent] + cmd_entities(rest@));
                        assert(eb + cmd_entities(rest_before) =~= self.entities@ + cmd_entities(
                            rest@,
                        ));
                        assert(en0 + cmd_entities(full) =~= self.entities@ + cmd_entities(rest@));
                    }
                },
                Command::SpawnAreaEffect { position, radius, heal, duration } => {
                    let effect = AreaEffect {
                        position,
                        radius,
                        lifetime: Health::new(duration),
                        effect: Effect::Heal { heal },
                    };
                    let ghost ab = self.area_effects@;
                    self.area_effects.push(effect);
                    proof {
                        assert(area_effect_wf(effect));
                        assert(cmd_areas(rest_before) =~= seq![effect] + cmd_areas(rest@));
                        assert(ab + cmd_areas(rest_before) =~= self.area_effects@ + cmd_areas(
                            rest@,
                        ));
                        assert(ar0 + cmd_areas(full) =~= self.area_effects@ + cmd_areas(rest@));
                    }
                },
            }
        }
        proof {
            assert(cmd_entities(Seq::<Command>::empty()) =~= Seq::<Entity>::empty());
            assert(cmd_areas(Seq::<Command>::empty()) =~= Seq::<AreaEffect>::empty());
            assert(self.entities@ + Seq::<Entity>::empty() =~= self.entities@);
            assert(self.area_effects@ + Seq::<AreaEffect>::empty() =~= self.area_effects@);
            assert(en0 + cmd_entities(full) =~= self.entities@);
            assert(ar0 + cmd_areas(full) =~= self.area_effects@);
        }
    }

    /// The fixed-rate tick, in order: combat timers, area effects, player
    /// movement, enemy movement, collision resolution, the death pass,
    /// then the deferred commands queued along the way — every command a
    /// pass queued is applied before the tick returns, and no buffer
    /// persists across ticks.
    #[verifier::rlimit(100)]
    pub fn fixed_update(&mut self, delta_time: i64)
        requires
            model_wf(*old(self)),
            0 <= delta_time <= FX_MAX,
        ensures
            model_wf(*final(self)),
            final(self).waves@ == old(self).waves@,
            final(self).bounds == old(self).bounds,
            final(self).spawners@ == old(self).spawners@,
            final(self).events@.len() >= old(self).events@.len(),
            final(self).events@.take(old(self).events@.len() as int) == old(self).events@,
            ({
                let dt = delta_time as int;
                let en1 = attack_pass(old(self).entities@, old(self).player.body.position, dt);
                let cmds1 = attack_pass_cmds(
                    old(self).entities@,
                    old(self).player.body.position,
                    dt,
                );
                let ar = area_pass(old(self).area_effects@, old(self).player, dt);
                let p3 = player_move_s(ar.1, dt);
                let en3 = enemy_move_pass(en1, p3.body.position, dt);
                let cp = collide_pass(old(self).bounds, p3, en3);
                let cmds_all = cmds1 + cp.3;
                &&& final(self).player == cp.0
                &&& final(self).entities@ == dead_pass(cp.1, dt) + cmd_entities(cmds_all)
                &&& final(self).area_effects@ == ar.0 + cmd_areas(cmds_all)
                &&& final(self).events@ == old(self).events@ + cp.2
                &&& final(self).particles@.take(old(self).particles@.len() as int) == old(
                    self,
                ).particles@
                &&& final(self).particles@.len() >= old(self).particles@.len()
            }),
    {
        let ghost dt = delta_time as int;
        let mut commands = Commands::new();
        self.attack(delta_time, &mut commands);
        proof {
            assert(commands.commands@ =~= attack_pass_cmds(
                old(self).entities@,
                old(self).player.body.position,
                dt,
            ));
        }
        self.area_effects(delta_time);
        self.move_player(delta_time);
        self.move_enemies(delta_time);
        let ghost ev0 = old(self).events@;
        proof {
            assert(self.events@ == ev0);
        }
        let ghost c1 = commands.commands@;
        self.collide(&mut commands);
        proof {
            assert(self.events@.take(ev0.len() as int) == ev0);
        }
        self.check_dead(delta_time);
        proof {
            assert(self.bounds == old(self).bounds);
            assert forall|j: int| 0 <= j < commands.commands@.len() implies
                crate::events::command_wf(#[trigger] commands.commands@[j], self.bounds) by {
                if j < c1.len() {
                    assert(commands.commands@.take(c1.len() as int)[j] == commands.commands@[j]);
                    assert(commands.commands@[j] == c1[j]);
                    assert(crate::events::command_wf(c1[j], old(self).bounds));
                }
            }
        }
        self.perform_commands(commands);
    }
}

} // verus!
