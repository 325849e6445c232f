use arena_core::area::{AreaEffect, Effect};
use arena_core::entity::{Attack, AttackType, Color, EnemyInfo, EnemyType, Entity, EntityType};
use arena_core::events::{Command, Commands, Event, EventSound};
use arena_core::fx::SCALE;
use arena_core::health::Health;
use arena_core::model::{generic_material, Model, PARTICLE_LIFETIME, PLAYER_SPEED};
use arena_core::spawner::{Spawner, Wave, WaveGroup};
use arena_core::vec2::Vec2;

fn red() -> Color {
    Color { r: SCALE, g: 0, b: 0, a: SCALE }
}

fn crawler_info() -> EnemyInfo {
    EnemyInfo::new(150_000, 5_000, 2_000, 25_000, red(), EnemyType::Crawler)
}

fn crawler_at(x: i64, y: i64) -> Entity {
    Entity::new(Vec2 { x, y }, crawler_info(), generic_material())
}

#[test]
fn new_model_queues_one_wave() {
    let m = Model::new();
    assert_eq!(m.waves.len(), 1);
    assert_eq!(m.entities.len(), 0);
    assert_eq!(m.spawners.len(), 0);
    assert!(m.player.health.is_alive());
}

#[test]
fn wave_fires_only_on_cleared_arena() {
    // cleared arena, live player: the wave converts into spawners
    let mut m = Model::new();
    m.update(16);
    assert_eq!(m.waves.len(), 0);
    assert_eq!(m.spawners.len(), 1);

    // an entity on the field holds the wave back
    let mut m2 = Model::new();
    m2.entities.push(crawler_at(0, 30_000));
    m2.update(16);
    assert_eq!(m2.waves.len(), 1);
    assert_eq!(m2.spawners.len(), 0);

    // a pending spawner holds the wave back too
    let mut m3 = Model::new();
    m3.spawners.push(Spawner {
        position: Vec2 { x: 0, y: 0 },
        spawn_group: WaveGroup { enemies: vec![crawler_info()], radius: 5_000, spawn_time: 9_000 },
        time_left: 9_000,
        time_left_max: 9_000,
    });
    m3.update(16);
    assert_eq!(m3.waves.len(), 1);

    // a dead player holds the wave back
    let mut m4 = Model::new();
    m4.player.health.kill();
    m4.update(16);
    assert_eq!(m4.waves.len(), 1);
}

#[test]
fn spawner_fires_once_and_leaves_in_the_same_tick() {
    let mut m = Model::new();
    m.waves.clear();
    m.spawners.push(Spawner {
        position: Vec2 { x: 10_000, y: 20_000 },
        spawn_group: WaveGroup { enemies: vec![crawler_info()], radius: 5_000, spawn_time: 1_000 },
        time_left: 10,
        time_left_max: 1_000,
    });
    m.update_spawners(20);
    assert_eq!(m.spawners.len(), 0);
    assert_eq!(m.entities.len(), 1);
    assert_eq!(m.entities[0].rigidbody.position, Vec2 { x: 10_000, y: 20_000 });
    assert_eq!(m.entities[0].health.current, 150_000);
    // a second tick spawns nothing more
    m.update_spawners(20);
    assert_eq!(m.entities.len(), 1);
}

#[test]
fn spawner_waits_for_its_countdown() {
    let mut m = Model::new();
    m.waves.clear();
    m.spawners.push(Spawner {
        position: Vec2 { x: 0, y: 0 },
        spawn_group: WaveGroup { enemies: vec![crawler_info()], radius: 5_000, spawn_time: 1_000 },
        time_left: 1_000,
        time_left_max: 1_000,
    });
    m.update_spawners(20);
    assert_eq!(m.spawners.len(), 1);
    assert_eq!(m.spawners[0].time_left, 980);
    assert_eq!(m.entities.len(), 0);
}

#[test]
fn destroy_flag_removes_regardless_of_health() {
    let mut m = Model::new();
    let mut e = crawler_at(0, 30_000);
    e.destroy = true;
    assert!(e.health.is_alive());
    m.entities.push(e);
    m.check_dead(16);
    assert_eq!(m.entities.len(), 0);
}

#[test]
fn corpse_leaves_exactly_when_its_lifetime_ends() {
    let mut m = Model::new();
    let mut e = crawler_at(0, 30_000);
    e.health.kill();
    e.entity_type = EntityType::Enemy {
        enemy_type: EnemyType::Corpse { lifetime: Health::new(30) },
    };
    m.entities.push(e);
    // still fading: kept
    m.check_dead(20);
    assert_eq!(m.entities.len(), 1);
    match &m.entities[0].entity_type {
        EntityType::Enemy { enemy_type: EnemyType::Corpse { lifetime } } => {
            assert_eq!(lifetime.current, 10);
        }
        _ => panic!("corpse expected"),
    }
    // lifetime runs out: removed
    m.check_dead(20);
    assert_eq!(m.entities.len(), 0);
}

#[test]
fn freshly_dead_crawler_becomes_a_corpse() {
    let mut m = Model::new();
    let mut e = crawler_at(0, 30_000);
    e.health.kill();
    m.entities.push(e);
    m.check_dead(16);
    assert_eq!(m.entities.len(), 1);
    assert!(matches!(
        m.entities[0].entity_type,
        EntityType::Enemy { enemy_type: EnemyType::Corpse { .. } }
    ));
}

#[test]
fn removal_keeps_survivor_order() {
    let mut m = Model::new();
    for (i, doomed) in [(1i64, false), (2, true), (3, false), (4, true), (5, false)] {
        let mut e = crawler_at(i * 10_000, 30_000);
        e.destroy = doomed;
        m.entities.push(e);
    }
    m.check_dead(16);
    let xs: Vec<i64> = m.entities.iter().map(|e| e.rigidbody.position.x).collect();
    assert_eq!(xs, vec![10_000, 30_000, 50_000]);
}

#[test]
fn hit_particles_are_bounded_and_short_lived() {
    let mut m = Model::new();
    m.spawn_particles_hit(Vec2 { x: 0, y: 0 }, 50_000, red());
    let n = m.particles.len();
    assert!(n >= 1 && n <= 4, "unexpected particle count {n}");
    for p in &m.particles {
        assert_eq!(p.lifetime.current, PARTICLE_LIFETIME);
        assert_eq!(p.lifetime.max, PARTICLE_LIFETIME);
        assert_eq!(p.rigidbody.position, Vec2 { x: 0, y: 0 });
    }
}

#[test]
fn tiny_hit_still_spawns_one_particle() {
    let mut m = Model::new();
    m.spawn_particles_hit(Vec2 { x: 0, y: 0 }, 5_000, red());
    assert_eq!(m.particles.len(), 1);
}

#[test]
fn particles_age_and_vanish() {
    let mut m = Model::new();
    m.waves.clear();
    m.spawn_particles_hit(Vec2 { x: 0, y: 0 }, 50_000, red());
    assert!(m.particles.len() >= 1);
    m.update(400);
    assert!(m.particles.len() >= 1);
    m.update(200);
    assert_eq!(m.particles.len(), 0);
}

#[test]
fn move_direction_sets_clamped_target_velocity() {
    let mut m = Model::new();
    m.move_direction(Vec2 { x: SCALE, y: 0 });
    assert_eq!(m.player.target_body_velocity, Vec2 { x: PLAYER_SPEED, y: 0 });
    // a long input direction is clamped to unit length first
    m.move_direction(Vec2 { x: 3000, y: 4000 });
    assert_eq!(m.player.target_body_velocity, Vec2 { x: 30_000, y: 40_000 });
}

#[test]
fn head_target_is_last_write_wins() {
    let mut m = Model::new();
    m.head_target(Vec2 { x: 1, y: 2 });
    m.head_target(Vec2 { x: 7, y: 8 });
    assert_eq!(m.player.head_target, Vec2 { x: 7, y: 8 });
}

#[test]
fn heal_zone_heals_the_player_in_reach() {
    let mut m = Model::new();
    m.player.health.change(-100_000);
    assert_eq!(m.player.health.current, 400_000);
    m.area_effects.push(AreaEffect {
        position: m.player.body.position,
        radius: 5_000,
        lifetime: Health::new(1_000),
        effect: Effect::Heal { heal: 10_000 },
    });
    m.area_effects(100);
    assert_eq!(m.player.health.current, 401_000);
    assert_eq!(m.area_effects.len(), 1);
    assert_eq!(m.area_effects[0].lifetime.current, 900);
}

#[test]
fn heal_zone_out_of_reach_does_nothing() {
    let mut m = Model::new();
    m.player.health.change(-100_000);
    m.area_effects.push(AreaEffect {
        position: Vec2 { x: 90_000, y: 70_000 },
        radius: 5_000,
        lifetime: Health::new(1_000),
        effect: Effect::Heal { heal: 10_000 },
    });
    m.area_effects(100);
    assert_eq!(m.player.health.current, 400_000);
}

#[test]
fn expired_zone_is_pruned() {
    let mut m = Model::new();
    m.area_effects.push(AreaEffect {
        position: Vec2 { x: 90_000, y: 70_000 },
        radius: 5_000,
        lifetime: Health::new(50),
        effect: Effect::Heal { heal: 10_000 },
    });
    m.area_effects(100);
    assert_eq!(m.area_effects.len(), 0);
}

fn shooter_at(x: i64, y: i64, cooldown_left: i64) -> Entity {
    let projectile = EnemyInfo::new(
        1_000,
        1_000,
        1_000,
        40_000,
        red(),
        EnemyType::Projectile { lifetime: Health::new(2_000) },
    );
    let mut attack_time = Health::new(500);
    attack_time.change(cooldown_left - 500);
    let info = EnemyInfo::new(
        100_000,
        5_000,
        2_000,
        0,
        red(),
        EnemyType::Attacker {
            attack: Attack {
                attack_time,
                attack_type: AttackType::Shoot {
                    target_pos: Vec2 { x: 0, y: 0 },
                    projectile: Box::new(projectile),
                },
            },
        },
    );
    Entity::new(Vec2 { x, y }, info, generic_material())
}

#[test]
fn expired_cooldown_fires_a_projectile_and_resets() {
    let mut m = Model::new();
    m.entities.push(shooter_at(40_000, 0, 10));
    let mut commands = Commands::new();
    m.attack(20, &mut commands);
    assert_eq!(commands.commands.len(), 1);
    match &commands.commands[0] {
        Command::SpawnEntity { position, info, .. } => {
            assert_eq!(*position, Vec2 { x: 40_000, y: 0 });
            assert!(matches!(info.enemy_type, EnemyType::Projectile { .. }));
        }
        _ => panic!("projectile spawn expected"),
    }
    match &m.entities[0].entity_type {
        EntityType::Enemy { enemy_type: EnemyType::Attacker { attack } } => {
            assert_eq!(attack.attack_time.current, 500);
            // the shot keeps tracking the player
            match &attack.attack_type {
                AttackType::Shoot { target_pos, .. } => {
                    assert_eq!(*target_pos, m.player.body.position)
                }
                _ => panic!("shot expected"),
            }
        }
        _ => panic!("attacker expected"),
    }
    m.perform_commands(commands);
    assert_eq!(m.entities.len(), 2);
    assert!(matches!(
        m.entities[1].entity_type,
        EntityType::Enemy { enemy_type: EnemyType::Projectile { .. } }
    ));
}

#[test]
fn running_cooldown_does_not_fire() {
    let mut m = Model::new();
    m.entities.push(shooter_at(40_000, 0, 400));
    let mut commands = Commands::new();
    m.attack(20, &mut commands);
    assert_eq!(commands.commands.len(), 0);
}

#[test]
fn body_hit_cues_sound_and_hurts_both() {
    let mut m = Model::new();
    let mut e = crawler_at(5_000, 0);
    e.rigidbody.velocity = Vec2 { x: -10_000, y: 0 };
    m.entities.push(e);
    let mut commands = Commands::new();
    m.collide(&mut commands);
    assert!(m.events.contains(&Event::Sound { sound: EventSound::BodyHit }));
    assert!(m.player.health.current < 500_000);
    assert!(m.entities[0].health.current < 150_000);
    // two particle bursts queued, one per party
    let bursts = commands
        .commands
        .iter()
        .filter(|c| matches!(c, Command::SpawnParticles { .. }))
        .count();
    assert_eq!(bursts, 2);
}

#[test]
fn dead_enemy_neither_deals_nor_takes_damage() {
    let mut m = Model::new();
    let mut e = crawler_at(5_000, 0);
    e.rigidbody.velocity = Vec2 { x: -10_000, y: 0 };
    e.health.kill();
    m.entities.push(e);
    let mut commands = Commands::new();
    m.collide(&mut commands);
    assert_eq!(m.player.health.current, 500_000);
    assert_eq!(m.entities[0].health.current, 0);
    assert!(!m.events.contains(&Event::Sound { sound: EventSound::BodyHit }));
}

#[test]
fn bounds_bounce_cues_sound_and_kills_projectile() {
    let mut m = Model::new();
    let projectile = EnemyInfo::new(
        1_000,
        1_000,
        1_000,
        40_000,
        red(),
        EnemyType::Projectile { lifetime: Health::new(2_000) },
    );
    let mut e = Entity::new(Vec2 { x: 99_900, y: 50_000 }, projectile, generic_material());
    e.rigidbody.velocity = Vec2 { x: 10_000, y: 0 };
    m.entities.push(e);
    let mut commands = Commands::new();
    m.collide(&mut commands);
    assert!(m.events.contains(&Event::Sound { sound: EventSound::Bounce }));
    match &m.entities[0].entity_type {
        EntityType::Enemy { enemy_type: EnemyType::Projectile { lifetime } } => {
            assert!(!lifetime.is_alive());
        }
        _ => panic!("projectile expected"),
    }
}

#[test]
fn death_cue_fires_exactly_once_at_the_crossing() {
    let mut m = Model::new();
    m.player.health.change(-499_999);
    assert!(m.player.health.is_alive());
    let mut e1 = crawler_at(5_000, 0);
    e1.rigidbody.velocity = Vec2 { x: -10_000, y: 0 };
    let mut e2 = crawler_at(-5_000, 0);
    e2.rigidbody.velocity = Vec2 { x: 10_000, y: 0 };
    m.entities.push(e1);
    m.entities.push(e2);
    let mut commands = Commands::new();
    m.collide(&mut commands);
    assert!(!m.player.health.is_alive());
    let deaths = m
        .events
        .iter()
        .filter(|e| **e == Event::Sound { sound: EventSound::Death })
        .count();
    assert_eq!(deaths, 1);
}

#[test]
fn projectile_lifetime_expiry_kills_it() {
    let mut m = Model::new();
    let projectile = EnemyInfo::new(
        1_000,
        1_000,
        1_000,
        40_000,
        red(),
        EnemyType::Projectile { lifetime: Health::new(10) },
    );
    let e = Entity::new(Vec2 { x: 0, y: 30_000 }, projectile, generic_material());
    m.entities.push(e);
    let mut commands = Commands::new();
    m.attack(20, &mut commands);
    assert!(!m.entities[0].health.is_alive());
    // the standard death transition then turns it into a corpse
    m.check_dead(20);
    assert!(matches!(
        m.entities[0].entity_type,
        EntityType::Enemy { enemy_type: EnemyType::Corpse { .. } }
    ));
}

#[test]
fn bomb_detonation_leaves_a_zone_and_is_reclaimed() {
    let mut m = Model::new();
    let mut attack_time = Health::new(500);
    attack_time.change(-500);
    let info = EnemyInfo::new(
        100_000,
        5_000,
        2_000,
        0,
        red(),
        EnemyType::Attacker {
            attack: Attack {
                attack_time,
                attack_type: AttackType::Bomb { radius: 8_000, heal: 5_000, duration: 2_000 },
            },
        },
    );
    let mut e = Entity::new(Vec2 { x: 40_000, y: 0 }, info, generic_material());
    e.health.kill();
    m.entities.push(e);
    // a dead bomb attacker with a spent timer is removed outright
    m.check_dead(16);
    assert_eq!(m.entities.len(), 0);
}

#[test]
fn fixed_update_runs_a_full_tick() {
    let mut m = Model::new();
    m.entities.push(crawler_at(40_000, 0));
    m.move_direction(Vec2 { x: SCALE, y: 0 });
    for _ in 0..10 {
        m.fixed_update(16);
    }
    assert!(m.player.health.is_alive());
    assert_eq!(m.entities.len(), 1);
    // the crawler chased: it moved toward the player
    assert!(m.entities[0].rigidbody.position.x < 40_000);
}

#[test]
fn whole_wave_cycle_produces_enemies() {
    let mut m = Model::new();
    m.update(16);
    assert_eq!(m.spawners.len(), 1);
    // let the spawner count down and fire
    for _ in 0..200 {
        m.update(16);
    }
    assert_eq!(m.spawners.len(), 0);
    assert_eq!(m.entities.len(), 1);
}

#[test]
fn move_player_keeps_the_head_on_its_chain() {
    let mut m = Model::new();
    m.head_target(Vec2 { x: 0, y: 50_000 });
    m.move_direction(Vec2 { x: SCALE, y: 0 });
    for _ in 0..30 {
        m.move_player(16);
    }
    let dx = m.player.head.position.x - m.player.body.position.x;
    let dy = m.player.head.position.y - m.player.body.position.y;
    let dist_sq = dx * dx + dy * dy;
    let chain = m.player.chain_length;
    // on the chain circle, up to fixed-point truncation
    assert!(dist_sq <= (chain + 10) * (chain + 10), "head flew off: {dist_sq}");
    assert!(dist_sq >= (chain - 10) * (chain - 10), "head collapsed: {dist_sq}");
}

#[test]
fn dead_player_body_still_integrates_but_does_not_steer() {
    let mut m = Model::new();
    m.player.health.kill();
    m.player.body.velocity = Vec2 { x: 1000, y: 0 };
    let before = m.player.target_head_velocity;
    m.move_player(16);
    assert_eq!(m.player.body.position.x, 16);
    assert_eq!(m.player.target_head_velocity, before);
}

#[test]
fn long_soak_keeps_the_simulation_sane() {
    let mut m = Model::new();
    m.move_direction(Vec2 { x: 700, y: 700 });
    m.head_target(Vec2 { x: -30_000, y: 10_000 });
    for _ in 0..2_000 {
        m.update(16);
        m.fixed_update(16);
        m.events.clear();
    }
    assert_eq!(m.player.health.max, 500_000);
    assert!(m.player.body.position.x.abs() <= 100_000);
    assert!(m.player.body.position.y.abs() <= 100_000);
}

#[test]
fn dead_shooter_with_spent_timer_fades_as_a_corpse() {
    let mut m = Model::new();
    let mut e = shooter_at(40_000, 0, 0);
    e.health.kill();
    m.entities.push(e);
    m.check_dead(16);
    assert_eq!(m.entities.len(), 1);
    assert!(matches!(
        m.entities[0].entity_type,
        EntityType::Enemy { enemy_type: EnemyType::Corpse { .. } }
    ));
}

#[test]
fn head_bounce_cues_a_sound() {
    let mut m = Model::new();
    m.player.head.position = Vec2 { x: 99_000, y: 0 };
    m.player.head.velocity = Vec2 { x: 5_000, y: 0 };
    let mut commands = Commands::new();
    m.collide(&mut commands);
    assert!(m.events.contains(&Event::Sound { sound: EventSound::Bounce }));
    // the head bounced back inside and its velocity flipped
    assert!(m.player.head.position.x + 3_000 <= 100_000);
    assert!(m.player.head.velocity.x < 0);
}

#[test]
fn random_directions_are_near_unit() {
    for _ in 0..100 {
        let d = Model::get_random_direction();
        let len_sq = d.x * d.x + d.y * d.y;
        assert!(
            (SCALE - 3) * (SCALE - 3) < len_sq && len_sq < (SCALE + 1) * (SCALE + 1),
            "direction off the unit circle: ({}, {})",
            d.x,
            d.y
        );
    }
}
