//! Statistical shape of the samplers.  Tolerances are wide: the point
//! is to catch a sampler that ignores its draw, not to certify the
//! distribution.

use particles::emitter::{Direction, Emitter, Spawn};
use particles::math::Vec3;

fn origin() -> Vec3 {
    Vec3 { x: 0, y: 0, z: 0 }
}

#[test]
fn sphere_volume_radius_follows_cube_law() {
    // Uniform-in-volume means the radius r satisfies
    // P(r <= R * t) = t^3.  Half the mass should lie within
    // R * 2^(-1/3) ~ 0.7937 R, and only about 12.5% within R / 2.
    let radius: i64 = 800_000;
    let e = Emitter::Sphere { position: origin(), size: radius, spawn_type: Spawn::Volume };
    let n = 8000usize;
    let out = e.spawn(n);
    let mut within_half = 0usize;
    let mut within_median = 0usize;
    let median = 0.7937 * radius as f64;
    for p in &out {
        let r = ((p.position.x as f64).powi(2) + (p.position.y as f64).powi(2)
            + (p.position.z as f64).powi(2))
            .sqrt();
        if r <= radius as f64 / 2.0 {
            within_half += 1;
        }
        if r <= median {
            within_median += 1;
        }
    }
    let frac_half = within_half as f64 / n as f64;
    let frac_median = within_median as f64 / n as f64;
    assert!(frac_half > 0.08 && frac_half < 0.18, "within half radius: {frac_half}");
    assert!(frac_median > 0.40 && frac_median < 0.60, "within median radius: {frac_median}");
}

#[test]
fn cube_surface_covers_all_faces_evenly() {
    let size: i64 = 1_000_000;
    let h = size / 2;
    let e = Emitter::Cube { position: origin(), size, spawn_type: Spawn::Surface };
    let n = 6000usize;
    let out = e.spawn(n);
    let mut counts = [0usize; 6];
    for p in &out {
        // Classify by the first coordinate pinned to a face; an edge
        // hit (astronomically rare) lands in the first matching bin.
        if p.position.x == h {
            counts[0] += 1;
        } else if p.position.x == -h {
            counts[1] += 1;
        } else if p.position.y == h {
            counts[2] += 1;
        } else if p.position.y == -h {
            counts[3] += 1;
        } else if p.position.z == h {
            counts[4] += 1;
        } else {
            assert_eq!(p.position.z, -h);
            counts[5] += 1;
        }
    }
    for (face, &c) in counts.iter().enumerate() {
        assert!(c > 700 && c < 1300, "face {face} got {c} of {n}");
    }
}

#[test]
fn point_spread_scatters_velocities() {
    let e = Emitter::Point {
        position: origin(),
        direction: Direction::Fixed(Vec3 { x: 1000, y: 0, z: 0 }),
        spread: 1000,
    };
    let out = e.spawn(100);
    let first = out[0].velocity;
    assert!(out.iter().any(|p| p.velocity != first));
    // Every velocity leaves at spawn speed 2.0, never above it and at
    // most a fraction of a percent below — unless the perturbation
    // cancelled the aim exactly, which leaves the zero vector.
    for p in &out {
        let v2 = p.velocity.x * p.velocity.x + p.velocity.y * p.velocity.y
            + p.velocity.z * p.velocity.z;
        assert!(v2 <= 4_000_000);
        if p.velocity != (Vec3 { x: 0, y: 0, z: 0 }) {
            assert!(v2 >= 3_980_000);
        }
    }
}

#[test]
fn cube_volume_fills_both_halves() {
    let size: i64 = 1_000_000;
    let e = Emitter::Cube { position: origin(), size, spawn_type: Spawn::Volume };
    let out = e.spawn(2000);
    let pos_x = out.iter().filter(|p| p.position.x > 0).count();
    assert!(pos_x > 600 && pos_x < 1400, "positive x half got {pos_x} of 2000");
}
