use arena_core::fx::{fx_add, fx_div, fx_mul, fx_sub, isqrt, FX_MAX, SCALE};
use arena_core::health::Health;
use arena_core::physics::{Bounds, Collider, PhysicsMaterial, RigidBody};
use arena_core::vec2::Vec2;

#[test]
fn fx_mul_rescales_exactly() {
    assert_eq!(fx_mul(1500, 2000), 3000);
    assert_eq!(fx_mul(-1500, 2000), -3000);
    assert_eq!(fx_mul(1, 1), 0);
    assert_eq!(fx_mul(999, 999), 998);
}

#[test]
fn fx_div_rescales_exactly() {
    assert_eq!(fx_div(3000, 2000), 1500);
    assert_eq!(fx_div(-3000, 2000), -1500);
    assert_eq!(fx_div(1, 3), 333);
}

#[test]
fn fx_add_saturates() {
    assert_eq!(fx_add(FX_MAX, FX_MAX), FX_MAX);
    assert_eq!(fx_sub(-FX_MAX, FX_MAX), -FX_MAX);
    assert_eq!(fx_add(2, 3), 5);
}

#[test]
fn isqrt_exact_values() {
    assert_eq!(isqrt(0), 0);
    assert_eq!(isqrt(1), 1);
    assert_eq!(isqrt(63), 7);
    assert_eq!(isqrt(64), 8);
    assert_eq!(isqrt(1_000_000), 1000);
}

#[test]
fn health_new_is_full_and_alive() {
    let h = Health::new(100);
    assert_eq!(h.current, 100);
    assert_eq!(h.max, 100);
    assert!(h.is_alive());
}

#[test]
fn health_overkill_clamps_to_zero_and_dies() {
    let mut h = Health::new(100);
    h.change(-150);
    assert_eq!(h.current, 0);
    assert!(!h.is_alive());
}

#[test]
fn health_change_clamps_at_max() {
    let mut h = Health::new(100);
    h.change(-30);
    assert_eq!(h.current, 70);
    h.change(50);
    assert_eq!(h.current, 100);
}

#[test]
fn health_kill_empties_the_pool() {
    let mut h = Health::new(250);
    h.kill();
    assert_eq!(h.current, 0);
    assert!(!h.is_alive());
}

#[test]
fn health_fraction_is_fixed_point() {
    let mut h = Health::new(100);
    h.change(-50);
    assert_eq!(h.hp_frac(), 500);
    let full = Health::new(77);
    assert_eq!(full.hp_frac(), SCALE);
}

#[test]
fn normalize_is_exact_on_pythagorean_triples() {
    let v = Vec2 { x: 3000, y: 4000 };
    assert_eq!(v.length(), 5000);
    let n = v.normalize();
    assert_eq!(n, Vec2 { x: 600, y: 800 });
}

#[test]
fn normalize_zero_falls_back_to_x_axis() {
    let n = Vec2 { x: 0, y: 0 }.normalize();
    assert_eq!(n, Vec2 { x: SCALE, y: 0 });
}

#[test]
fn clamp_length_keeps_short_vectors() {
    let v = Vec2 { x: 300, y: 400 };
    assert_eq!(v.clamp_length_max(SCALE), v);
    let w = Vec2 { x: 3000, y: 4000 };
    assert_eq!(w.clamp_length_max(SCALE), Vec2 { x: 600, y: 800 });
}

fn material() -> PhysicsMaterial {
    PhysicsMaterial::new(1000, 500)
}

#[test]
fn collision_reports_penetration_and_normal() {
    // masses one and two, radii five and five, eight units apart
    let b1 = RigidBody::new(Vec2 { x: 0, y: 0 }, 1000, Collider::new(5000), material());
    let b2 = RigidBody::new(Vec2 { x: 8000, y: 0 }, 2000, Collider::new(5000), material());
    let col = b1.collision(&b2).unwrap();
    assert_eq!(col.penetration, 2000);
    assert_eq!(col.normal, Vec2 { x: -SCALE, y: 0 });
    let col_back = b2.collision(&b1).unwrap();
    assert_eq!(col_back.penetration, 2000);
    assert_eq!(col_back.normal, Vec2 { x: SCALE, y: 0 });
}

#[test]
fn collision_none_when_apart() {
    let b1 = RigidBody::new(Vec2 { x: 0, y: 0 }, 1000, Collider::new(5000), material());
    let b2 = RigidBody::new(Vec2 { x: 11000, y: 0 }, 2000, Collider::new(5000), material());
    assert!(b1.collision(&b2).is_none());
    // touching exactly still collides
    let b3 = RigidBody::new(Vec2 { x: 10000, y: 0 }, 2000, Collider::new(5000), material());
    assert!(b1.collision(&b3).is_some());
}

#[test]
fn collide_separates_bodies_by_radii_sum() {
    let mut b1 = RigidBody::new(Vec2 { x: 0, y: 0 }, 1000, Collider::new(5000), material());
    let mut b2 = RigidBody::new(Vec2 { x: 8000, y: 0 }, 2000, Collider::new(5000), material());
    b1.velocity = Vec2 { x: 1000, y: 0 };
    b2.velocity = Vec2 { x: -1000, y: 0 };
    let hit = b1.collide(&mut b2, None, None).unwrap();
    assert_eq!(b1.position, Vec2 { x: -2000, y: 0 });
    assert_eq!(b2.position, Vec2 { x: 8000, y: 0 });
    assert_eq!(b2.position.x - b1.position.x, 10000);
    assert_eq!(hit.hit_strength, 2000);
}

fn arena() -> Bounds {
    Bounds {
        min: Vec2 { x: -100_000, y: -75_000 },
        max: Vec2 { x: 100_000, y: 75_000 },
    }
}

#[test]
fn bounce_flips_velocity_and_contains_collider() {
    let mut b = RigidBody::new(Vec2 { x: 99_000, y: 0 }, 1000, Collider::new(5000), material());
    b.velocity = Vec2 { x: 2000, y: 100 };
    let bounced = b.bounce_bounds(&arena());
    assert!(bounced);
    assert_eq!(b.velocity, Vec2 { x: -1000, y: 100 });
    assert_eq!(b.position, Vec2 { x: 95_000, y: 0 });
    assert!(b.position.x - 5000 >= -100_000 && b.position.x + 5000 <= 100_000);
    assert!(b.position.y - 5000 >= -75_000 && b.position.y + 5000 <= 75_000);
}

#[test]
fn bounce_false_when_inside() {
    let mut b = RigidBody::new(Vec2 { x: 0, y: 0 }, 1000, Collider::new(5000), material());
    b.velocity = Vec2 { x: 2000, y: 100 };
    assert!(!b.bounce_bounds(&arena()));
    assert_eq!(b.velocity, Vec2 { x: 2000, y: 100 });
}

#[test]
fn clamp_bounds_pulls_position_inside() {
    let mut b = RigidBody::new(Vec2 { x: 150_000, y: -80_000 }, 1000, Collider::new(5000),
        material());
    b.clamp_bounds(&arena());
    assert_eq!(b.position, Vec2 { x: 95_000, y: -70_000 });
}

#[test]
fn drag_scales_velocity_exactly() {
    let mut b = RigidBody::new(Vec2 { x: 0, y: 0 }, 1000, Collider::new(5000), material());
    b.velocity = Vec2 { x: 1000, y: -2000 };
    // drag one per second over a tenth of a second
    b.drag(100);
    assert_eq!(b.velocity, Vec2 { x: 900, y: -1800 });
}

#[test]
fn movement_integrates_position() {
    let mut b = RigidBody::new(Vec2 { x: 100, y: 200 }, 1000, Collider::new(5000), material());
    b.velocity = Vec2 { x: 1000, y: 2000 };
    b.movement(500);
    assert_eq!(b.position, Vec2 { x: 600, y: 1200 });
}

#[test]
fn normalize_diagonal_is_near_unit() {
    let n = Vec2 { x: 1000, y: 1000 }.normalize();
    assert_eq!(n, Vec2 { x: 707, y: 707 });
    let len_sq = n.x * n.x + n.y * n.y;
    assert!((SCALE - 3) * (SCALE - 3) < len_sq && len_sq < (SCALE + 1) * (SCALE + 1));
}

#[test]
fn dot_product_is_fixed_point() {
    let a = Vec2 { x: 2000, y: 3000 };
    let b = Vec2 { x: 4000, y: -1000 };
    // (2*4 + 3*(-1)) = 5 in world units
    assert_eq!(a.dot(b), 5000);
}
