//! Spawning: counts, fresh-particle fields, and per-shape geometry.

use particles::emitter::{Direction, Emitter, Spawn};
use particles::math::Vec3;

fn origin() -> Vec3 {
    Vec3 { x: 0, y: 0, z: 0 }
}

fn check_fresh(out: &[particles::particle::Particle]) {
    for p in out {
        assert_eq!(p.energy, 1000);
        assert_eq!(p.size, 100);
        assert_eq!(p.position, p.prev_position);
    }
}

#[test]
fn spawn_count_point() {
    let e = Emitter::Point { position: origin(), direction: Direction::Random, spread: 300 };
    for n in [0usize, 1, 2, 7, 100] {
        let out = e.spawn(n);
        assert_eq!(out.len(), n);
        check_fresh(&out);
    }
}

#[test]
fn spawn_count_sphere() {
    let e = Emitter::Sphere { position: origin(), size: 500_000, spawn_type: Spawn::Volume };
    let out = e.spawn(50);
    assert_eq!(out.len(), 50);
    check_fresh(&out);
    let e = Emitter::Sphere { position: origin(), size: 500_000, spawn_type: Spawn::Surface };
    let out = e.spawn(50);
    assert_eq!(out.len(), 50);
    check_fresh(&out);
}

#[test]
fn spawn_count_cube() {
    let e = Emitter::Cube { position: origin(), size: 1_000_000, spawn_type: Spawn::Volume };
    let out = e.spawn(50);
    assert_eq!(out.len(), 50);
    check_fresh(&out);
    let e = Emitter::Cube { position: origin(), size: 1_000_000, spawn_type: Spawn::Surface };
    let out = e.spawn(50);
    assert_eq!(out.len(), 50);
    check_fresh(&out);
}

#[test]
fn spawn_zero_is_empty() {
    let e = Emitter::Sphere { position: origin(), size: 1000, spawn_type: Spawn::Surface };
    assert!(e.spawn(0).is_empty());
}

#[test]
fn point_spawns_colocated() {
    let pos = Vec3 { x: 5_000, y: -2_000, z: 777 };
    let e = Emitter::Point { position: pos, direction: Direction::Random, spread: 1000 };
    for p in e.spawn(40) {
        assert_eq!(p.position, pos);
        assert_eq!(p.prev_position, pos);
    }
}

#[test]
fn point_fixed_direction_no_spread() {
    // Spread zero adds a zero perturbation, so the velocity is the
    // fixed direction normalized and scaled to speed 2.0 exactly.
    let e = Emitter::Point {
        position: origin(),
        direction: Direction::Fixed(Vec3 { x: 1000, y: 0, z: 0 }),
        spread: 0,
    };
    for p in e.spawn(10) {
        assert_eq!(p.velocity, Vec3 { x: 2000, y: 0, z: 0 });
    }
    // A non-axis direction: (3, 4, 0) normalizes to (600, 800, 0).
    let e = Emitter::Point {
        position: origin(),
        direction: Direction::Fixed(Vec3 { x: 3000, y: 4000, z: 0 }),
        spread: 0,
    };
    for p in e.spawn(10) {
        assert_eq!(p.velocity, Vec3 { x: 1200, y: 1600, z: 0 });
    }
}

#[test]
fn point_zero_direction_stays_zero() {
    // The zero vector has no direction: the engine leaves it zero
    // rather than inventing an axis, so these particles only fall.
    let e = Emitter::Point {
        position: origin(),
        direction: Direction::Fixed(Vec3 { x: 0, y: 0, z: 0 }),
        spread: 0,
    };
    for p in e.spawn(10) {
        assert_eq!(p.velocity, Vec3 { x: 0, y: 0, z: 0 });
    }
}

#[test]
fn cube_volume_within_box() {
    let c = Vec3 { x: 10_000, y: 20_000, z: -30_000 };
    let size: i64 = 600_000;
    let h = size / 2;
    let e = Emitter::Cube { position: c, size, spawn_type: Spawn::Volume };
    for p in e.spawn(300) {
        assert!((p.position.x - c.x).abs() <= h);
        assert!((p.position.y - c.y).abs() <= h);
        assert!((p.position.z - c.z).abs() <= h);
    }
}

#[test]
fn cube_surface_on_face() {
    let c = Vec3 { x: -5_000, y: 0, z: 9_000 };
    let size: i64 = 800_000;
    let h = size / 2;
    let e = Emitter::Cube { position: c, size, spawn_type: Spawn::Surface };
    for p in e.spawn(300) {
        let dx = p.position.x - c.x;
        let dy = p.position.y - c.y;
        let dz = p.position.z - c.z;
        assert!(dx.abs() <= h && dy.abs() <= h && dz.abs() <= h);
        assert!(dx.abs() == h || dy.abs() == h || dz.abs() == h);
    }
}

#[test]
fn sphere_volume_stays_in_ball() {
    let c = Vec3 { x: 1_000, y: 2_000, z: 3_000 };
    let radius: i64 = 400_000;
    let e = Emitter::Sphere { position: c, size: radius, spawn_type: Spawn::Volume };
    for p in e.spawn(300) {
        let dx = p.position.x - c.x;
        let dy = p.position.y - c.y;
        let dz = p.position.z - c.z;
        // Never outside the ball, in the Euclidean sense.
        assert!(dx * dx + dy * dy + dz * dz <= radius * radius);
    }
}

#[test]
fn sphere_surface_in_thin_shell() {
    let radius: i64 = 500_000;
    let e = Emitter::Sphere { position: origin(), size: radius, spawn_type: Spawn::Surface };
    for p in e.spawn(300) {
        let n2 = p.position.x * p.position.x + p.position.y * p.position.y
            + p.position.z * p.position.z;
        // Never beyond the boundary, and at most a fraction of a
        // percent inside it.
        assert!(n2 <= radius * radius);
        assert!(1_000_000 * n2 >= 993_996 * radius * radius - 6_000_000 * radius);
        // The velocity points outward, along the offset.
        assert!(p.velocity.x as f64 * p.position.x as f64 >= 0.0);
        assert!(p.velocity.y as f64 * p.position.y as f64 >= 0.0);
        assert!(p.velocity.z as f64 * p.position.z as f64 >= 0.0);
    }
}

#[test]
fn degenerate_extents_collapse_to_centre() {
    let c = Vec3 { x: 42, y: -42, z: 0 };
    for e in [
        Emitter::Sphere { position: c, size: 0, spawn_type: Spawn::Volume },
        Emitter::Sphere { position: c, size: 0, spawn_type: Spawn::Surface },
        Emitter::Cube { position: c, size: 0, spawn_type: Spawn::Volume },
        Emitter::Cube { position: c, size: 0, spawn_type: Spawn::Surface },
        Emitter::Cube { position: c, size: 1, spawn_type: Spawn::Volume },
    ] {
        for p in e.spawn(20) {
            assert_eq!(p.position, c);
        }
    }
}

#[test]
fn extreme_configuration_stays_bounded() {
    let c = Vec3 { x: 1_000_000_000, y: -1_000_000_000, z: 1_000_000_000 };
    let e = Emitter::Cube { position: c, size: 1_000_000, spawn_type: Spawn::Surface };
    for p in e.spawn(50) {
        assert!((p.position.x - c.x).abs() <= 500_000);
        let v2 = p.velocity.x * p.velocity.x + p.velocity.y * p.velocity.y
            + p.velocity.z * p.velocity.z;
        // Spawn speed 2.0, never exceeded and nearly reached.
        assert!(v2 <= 4_000_000);
        assert!(v2 >= 3_980_000);
    }
}

#[test]
fn random_direction_near_unit_length() {
    let mut seen_distinct = false;
    let first = particles::rng::random_direction();
    for _ in 0..50 {
        let d = particles::rng::random_direction();
        assert!(d.x.abs() <= 1000 && d.y.abs() <= 1000 && d.z.abs() <= 1000);
        let n2 = d.x * d.x + d.y * d.y + d.z * d.z;
        assert!(n2 <= 1_000_000);
        assert!(n2 >= 993_000);
        if d != first {
            seen_distinct = true;
        }
    }
    assert!(seen_distinct);
}
