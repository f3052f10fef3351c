//! Emitters: the geometric samplers that produce fresh particles.

use vstd::prelude::*;

use crate::math::{
    in_box, is_cbrt, is_scaled_frac, is_scaled_unit, is_vec_sum, icbrt, lemma_cbrt_le,
    lemma_tdiv_mag, norm2, scale_frac, scale_to_length, tdiv, vec_add, vec_diff, Vec3,
    COORD_LIMIT, EXTENT_LIMIT, SCALE,
};
use crate::particle::{particle_wf, Particle, ENERGY_FULL, PARTICLE_SIZE, SPAWN_SPEED};
use crate::rng::{is_sampled_dir, random_dir, sample_in};

verus! {

/// How a point emitter aims its particles.
#[derive(Clone, Copy, PartialEq, Eq, Structural, Debug)]
pub enum Direction {
    /// Use the given direction, normalized at spawn time.
    Fixed(Vec3),
    /// Draw a fresh random direction for every particle.
    Random,
}

/// Whether a solid emitter fills its interior or its boundary.
#[derive(Clone, Copy, PartialEq, Eq, Structural, Debug)]
pub enum Spawn {
    Volume,
    Surface,
}

/// Four corners of a particle's billboard, for renderers that expand
/// particles into camera-facing quads.
#[derive(Clone, Copy, PartialEq, Eq, Structural, Debug)]
pub struct ParticleQuad(pub Vec3, pub Vec3, pub Vec3, pub Vec3);

/// A configured spawn source.  An emitter holds only shape parameters;
/// reconfiguration replaces the whole value.
#[derive(Clone, Copy, PartialEq, Eq, Structural, Debug)]
pub enum Emitter {
    /// All particles spawn at `position`, aimed by `direction` and
    /// scattered by `spread`.
    Point { position: Vec3, direction: Direction, spread: i64 },
    /// Particles spawn in or on a ball of radius `size` around
    /// `position`.
    Sphere { position: Vec3, size: i64, spawn_type: Spawn },
    /// Particles spawn in or on an axis-aligned cube of edge `size`
    /// around `position`.
    Cube { position: Vec3, size: i64, spawn_type: Spawn },
}

impl Emitter {
    /// Configuration bounds: the centre within the world box, extents
    /// non-negative and bounded.
    pub open spec fn wf(self) -> bool {
        match self {
            Emitter::Point { position, direction, spread } => {
                &&& in_box(position, COORD_LIMIT as int)
                &&& 0 <= spread <= EXTENT_LIMIT
                &&& match direction {
                    Direction::Fixed(v) => in_box(v, EXTENT_LIMIT as int),
                    Direction::Random => true,
                }
            },
            Emitter::Sphere { position, size, spawn_type } => {
                &&& in_box(position, COORD_LIMIT as int)
                &&& 0 <= size <= EXTENT_LIMIT
            },
            Emitter::Cube { position, size, spawn_type } => {
                &&& in_box(position, COORD_LIMIT as int)
                &&& 0 <= size <= EXTENT_LIMIT
            },
        }
    }
}

/// What every fresh particle looks like: full energy, default size,
/// not yet moved.
pub open spec fn fresh_common(p: Particle) -> bool {
    &&& p.energy == ENERGY_FULL
    &&& p.size == PARTICLE_SIZE
    &&& p.position == p.prev_position
}

/// The base aim of a point emitter: the fixed direction normalized, or
/// a random draw.
pub open spec fn base_dir_ok(direction: Direction, base: Vec3) -> bool {
    match direction {
        Direction::Fixed(v) => is_scaled_unit(v, SCALE as int, base),
        Direction::Random => is_sampled_dir(SCALE as int, base),
    }
}

/// `vel` is `base` perturbed by `off_unit` scaled down to `spread`,
/// renormalized to spawn speed.
pub open spec fn perturbed_ok(base: Vec3, off_unit: Vec3, spread: int, vel: Vec3) -> bool {
    exists|sum: Vec3|
        {
            &&& #[trigger] is_scaled_unit(sum, SPAWN_SPEED as int, vel)
            &&& sum.x == base.x + tdiv(off_unit.x * spread, SCALE as int)
            &&& sum.y == base.y + tdiv(off_unit.y * spread, SCALE as int)
            &&& sum.z == base.z + tdiv(off_unit.z * spread, SCALE as int)
        }
}

/// The velocity a point emitter hands out: some admissible base aim,
/// perturbed by some random unit draw.
pub open spec fn point_velocity_ok(direction: Direction, spread: int, vel: Vec3) -> bool {
    exists|base: Vec3, off_unit: Vec3|
        {
            &&& #[trigger] perturbed_ok(base, off_unit, spread, vel)
            &&& base_dir_ok(direction, base)
            &&& in_box(base, SCALE as int)
            &&& is_sampled_dir(SCALE as int, off_unit)
            &&& in_box(off_unit, SCALE as int)
        }
}

/// A particle fresh from inside a ball: the spawn offset is a random
/// direction scaled by a radius whose cube was drawn uniformly (so the
/// point is uniform in volume, not in radius), and it never leaves the
/// ball; the velocity is an independent random direction at spawn
/// speed.
pub open spec fn sphere_volume_fresh(center: Vec3, radius: int, p: Particle) -> bool {
    &&& norm2(vec_diff(p.position, center)) <= radius * radius
    &&& exists|dir: Vec3, w: int, rad: int|
        #![trigger is_cbrt(w, rad), is_sampled_dir(SCALE as int, dir)]
        {
            &&& is_sampled_dir(SCALE as int, dir)
            &&& in_box(dir, SCALE as int)
            &&& 0 <= w <= radius * radius * radius
            &&& is_cbrt(w, rad)
            &&& p.position.x == center.x + tdiv(dir.x * rad, SCALE as int)
            &&& p.position.y == center.y + tdiv(dir.y * rad, SCALE as int)
            &&& p.position.z == center.z + tdiv(dir.z * rad, SCALE as int)
        }
    &&& is_sampled_dir(SPAWN_SPEED as int, p.velocity)
}

/// A particle fresh from a ball's boundary: the spawn offset is a
/// random direction scaled by the radius, so it sits in a thin shell
/// just inside the boundary, and the velocity points outward, along
/// the offset, at spawn speed.
pub open spec fn sphere_surface_fresh(center: Vec3, radius: int, p: Particle) -> bool {
    &&& norm2(vec_diff(p.position, center)) <= radius * radius
    &&& 1_000_000 * norm2(vec_diff(p.position, center)) >= 993_996 * (radius * radius)
        - 6_000_000 * radius
    &&& exists|dir: Vec3|
        {
            &&& #[trigger] is_sampled_dir(SCALE as int, dir)
            &&& in_box(dir, SCALE as int)
            &&& p.position.x == center.x + tdiv(dir.x * radius, SCALE as int)
            &&& p.position.y == center.y + tdiv(dir.y * radius, SCALE as int)
            &&& p.position.z == center.z + tdiv(dir.z * radius, SCALE as int)
        }
    &&& is_scaled_unit(vec_diff(p.position, center), SPAWN_SPEED as int, p.velocity)
}

/// A particle fresh from inside a cube of half-edge `h` around the
/// centre, with an independent random velocity at spawn speed.
pub open spec fn cube_volume_fresh(center: Vec3, size: int, p: Particle) -> bool {
    let h = size / 2;
    &&& -h <= p.position.x - center.x <= h
    &&& -h <= p.position.y - center.y <= h
    &&& -h <= p.position.z - center.z <= h
    &&& is_sampled_dir(SPAWN_SPEED as int, p.velocity)
}

/// The offset `(dx, dy, dz)` lies on the boundary of the cube of
/// half-edge `h`: within the cube, with at least one coordinate pinned
/// to a face.  (A free coordinate can also land on `+-h`, so "exactly
/// one" holds only almost surely.)
pub open spec fn on_cube_face(dx: int, dy: int, dz: int, h: int) -> bool {
    &&& -h <= dx <= h
    &&& -h <= dy <= h
    &&& -h <= dz <= h
    &&& (dx == h || dx == -h || dy == h || dy == -h || dz == h || dz == -h)
}

/// A particle fresh from a cube's boundary: the offset sits on a face,
/// and the velocity points away from the centre, along the offset, at
/// spawn speed (the exact face normal only at face centres).
pub open spec fn cube_surface_fresh(center: Vec3, size: int, p: Particle) -> bool {
    &&& on_cube_face(
        p.position.x - center.x,
        p.position.y - center.y,
        p.position.z - center.z,
        size / 2,
    )
    &&& is_scaled_unit(vec_diff(p.position, center), SPAWN_SPEED as int, p.velocity)
}

/// All the fresh-particle facts a population cares about, bundled:
/// `is_fresh` plus the shared invariant.
pub open spec fn fresh_ok(e: Emitter, p: Particle) -> bool {
    &&& is_fresh(e, p)
    &&& particle_wf(p)
}

/// `p` is a particle the emitter `e` can have produced.
pub open spec fn is_fresh(e: Emitter, p: Particle) -> bool {
    &&& fresh_common(p)
    &&& match e {
        Emitter::Point { position, direction, spread } => {
            &&& p.position == position
            &&& point_velocity_ok(direction, spread as int, p.velocity)
        },
        Emitter::Sphere { position, size, spawn_type } => match spawn_type {
            Spawn::Volume => sphere_volume_fresh(position, size as int, p),
            Spawn::Surface => sphere_surface_fresh(position, size as int, p),
        },
        Emitter::Cube { position, size, spawn_type } => match spawn_type {
            Spawn::Volume => cube_volume_fresh(position, size as int, p),
            Spawn::Surface => cube_surface_fresh(position, size as int, p),
        },
    }
}

impl Emitter {
    /// Produce `count` fresh particles by this emitter's sampling
    /// rule: exactly `count` of them, each with full energy, default
    /// size, its previous position equal to its position, and a
    /// position and velocity admissible for this emitter's shape.
    pub fn spawn(&self, count: usize) -> (out: Vec<Particle>)
        requires
            self.wf(),
        ensures
            out@.len() == count as int,
            forall|i: int| 0 <= i < count as int ==> fresh_ok(*self, #[trigger] out@[i]),
    {
        let mut out: Vec<Particle> = Vec::new();
        let mut i: usize = 0;
        while i < count
            invariant
                self.wf(),
                i <= count,
                out@.len() == i as int,
                forall|j: int| 0 <= j < i as int ==> fresh_ok(*self, #[trigger] out@[j]),
            decreases count - i,
        {
            let p = self.spawn_one();
            out.push(p);
            i = i + 1;
        }
        out
    }

    /// Sample one fresh particle.
    fn spawn_one(&self) -> (p: Particle)
        requires
            self.wf(),
        ensures
            fresh_ok(*self, p),
    {
        match *self {
            Emitter::Point { position, direction, spread } => {
                let base = match direction {
                    Direction::Fixed(v) => scale_to_length(v, SCALE),
                    Direction::Random => random_dir(SCALE),
                };
                let off_unit = random_dir(SCALE);
                let off = scale_frac(off_unit, spread);
                let sum = vec_add(base, off);
                let vel = scale_to_length(sum, SPAWN_SPEED);
                let p = Particle {
                    position,
                    prev_position: position,
                    velocity: vel,
                    energy: ENERGY_FULL,
                    size: PARTICLE_SIZE,
                };
                proof {
                    assert(is_scaled_unit(sum, SPAWN_SPEED as int, vel));
                    assert(perturbed_ok(base, off_unit, spread as int, vel));
                    assert(point_velocity_ok(direction, spread as int, vel));
                }
                p
            },
            Emitter::Sphere { position, size, spawn_type } => {
                let dir = random_dir(SCALE);
                match spawn_type {
                    Spawn::Volume => {
                        proof {
                            assert(0 <= size * size <= 1_000_000i64 * 1_000_000) by (nonlinear_arith)
                                requires
                                    0 <= size <= 1_000_000,
                            ;
                            assert(0 <= size * size * size <= 1_000_000i64 * 1_000_000 * 1_000_000)
                                by (nonlinear_arith)
                                requires
                                    0 <= size <= 1_000_000,
                            ;
                        }
                        let w = sample_in(0, size * size * size);
                        let rad = icbrt(w);
                        proof {
                            lemma_cbrt_le(w as int, rad as int, size as int);
                        }
                        let off = scale_frac(dir, rad);
                        let pos = vec_add(position, off);
                        let vel = random_dir(SPAWN_SPEED);
                        let p = Particle {
                            position: pos,
                            prev_position: pos,
                            velocity: vel,
                            energy: ENERGY_FULL,
                            size: PARTICLE_SIZE,
                        };
                        proof {
                            assert(is_cbrt(w as int, rad as int));
                            assert(is_sampled_dir(SCALE as int, dir));
                            assert(vec_diff(p.position, position) == off);
                            assert(rad * rad <= size * size) by (nonlinear_arith)
                                requires
                                    0 <= rad <= size,
                            ;
                            assert(sphere_volume_fresh(position, size as int, p));
                        }
                        p
                    },
                    Spawn::Surface => {
                        let off = scale_frac(dir, size);
                        let pos = vec_add(position, off);
                        let vel = scale_to_length(off, SPAWN_SPEED);
                        let p = Particle {
                            position: pos,
                            prev_position: pos,
                            velocity: vel,
                            energy: ENERGY_FULL,
                            size: PARTICLE_SIZE,
                        };
                        proof {
                            assert(vec_diff(p.position, position) == off);
                            assert(is_sampled_dir(SCALE as int, dir));
                            assert(norm2(dir) >= 993_996);
                            assert((size * size) * norm2(dir) >= (size * size) * 993_996)
                                by (nonlinear_arith)
                                requires
                                    norm2(dir) >= 993_996,
                                    0 <= size,
                            ;
                            assert(sphere_surface_fresh(position, size as int, p));
                        }
                        p
                    },
                }
            },
            Emitter::Cube { position, size, spawn_type } => {
                let h = size / 2;
                match spawn_type {
                    Spawn::Volume => {
                        let off = Vec3 {
                            x: sample_in(-h, h),
                            y: sample_in(-h, h),
                            z: sample_in(-h, h),
                        };
                        let pos = vec_add(position, off);
                        let vel = random_dir(SPAWN_SPEED);
                        Particle {
                            position: pos,
                            prev_position: pos,
                            velocity: vel,
                            energy: ENERGY_FULL,
                            size: PARTICLE_SIZE,
                        }
                    },
                    Spawn::Surface => {
                        let face = sample_in(0, 5);
                        let off = if face == 0 {
                            Vec3 { x: h, y: sample_in(-h, h), z: sample_in(-h, h) }
                        } else if face == 1 {
                            Vec3 { x: -h, y: sample_in(-h, h), z: sample_in(-h, h) }
                        } else if face == 2 {
                            Vec3 { x: sample_in(-h, h), y: h, z: sample_in(-h, h) }
                        } else if face == 3 {
                            Vec3 { x: sample_in(-h, h), y: -h, z: sample_in(-h, h) }
                        } else if face == 4 {
                            Vec3 { x: sample_in(-h, h), y: sample_in(-h, h), z: h }
                        } else {
                            Vec3 { x: sample_in(-h, h), y: sample_in(-h, h), z: -h }
                        };
                        let pos = vec_add(position, off);
                        let vel = scale_to_length(off, SPAWN_SPEED);
                        let p = Particle {
                            position: pos,
                            prev_position: pos,
                            velocity: vel,
                            energy: ENERGY_FULL,
                            size: PARTICLE_SIZE,
                        };
                        proof {
                            assert(vec_diff(p.position, position) == off);
                            assert(cube_surface_fresh(position, size as int, p));
                        }
                        p
                    },
                }
            },
        }
    }
}

/// A particle fresh from a cube surface emitter sits on the cube's
/// boundary: every offset coordinate within the half-edge, at least
/// one pinned to a face.
pub proof fn lemma_cube_surface_on_face(center: Vec3, size: i64, p: Particle)
    requires
        is_fresh(Emitter::Cube { position: center, size, spawn_type: Spawn::Surface }, p),
    ensures
        on_cube_face(
            p.position.x - center.x,
            p.position.y - center.y,
            p.position.z - center.z,
            size as int / 2,
        ),
{
}

/// A particle fresh from a sphere volume emitter sits within the
/// ball: its squared distance to the centre is at most the squared
/// radius, and every offset coordinate is within the radius.
pub proof fn lemma_sphere_volume_in_ball(center: Vec3, radius: i64, p: Particle)
    requires
        0 <= radius <= EXTENT_LIMIT,
        is_fresh(Emitter::Sphere { position: center, size: radius, spawn_type: Spawn::Volume }, p),
    ensures
        norm2(vec_diff(p.position, center)) <= radius * radius,
        -radius <= p.position.x - center.x <= radius,
        -radius <= p.position.y - center.y <= radius,
        -radius <= p.position.z - center.z <= radius,
{
    let (dir, w, rad) = choose|dir: Vec3, w: int, rad: int|
        #![trigger is_cbrt(w, rad), is_sampled_dir(SCALE as int, dir)]
        {
            &&& is_sampled_dir(SCALE as int, dir)
            &&& in_box(dir, SCALE as int)
            &&& 0 <= w <= radius * radius * radius
            &&& is_cbrt(w, rad)
            &&& p.position.x == center.x + tdiv(dir.x * rad, SCALE as int)
            &&& p.position.y == center.y + tdiv(dir.y * rad, SCALE as int)
            &&& p.position.z == center.z + tdiv(dir.z * rad, SCALE as int)
        };
    lemma_cbrt_le(w, rad, radius as int);
    assert(-(rad * SCALE) <= dir.x * rad <= rad * SCALE) by (nonlinear_arith)
        requires
            -SCALE <= dir.x <= SCALE,
            0 <= rad,
    ;
    assert(-(rad * SCALE) <= dir.y * rad <= rad * SCALE) by (nonlinear_arith)
        requires
            -SCALE <= dir.y <= SCALE,
            0 <= rad,
    ;
    assert(-(rad * SCALE) <= dir.z * rad <= rad * SCALE) by (nonlinear_arith)
        requires
            -SCALE <= dir.z <= SCALE,
            0 <= rad,
    ;
    lemma_tdiv_mag(dir.x * rad, SCALE as int, rad);
    lemma_tdiv_mag(dir.y * rad, SCALE as int, rad);
    lemma_tdiv_mag(dir.z * rad, SCALE as int, rad);
}

/// A particle fresh from a sphere surface emitter sits in a thin
/// shell just inside the boundary: its squared distance to the centre
/// is at most `radius * radius`, and at least the `993996 / 1000000`
/// fraction of it, less `6 * radius`.
pub proof fn lemma_sphere_surface_shell(center: Vec3, radius: i64, p: Particle)
    requires
        is_fresh(Emitter::Sphere { position: center, size: radius, spawn_type: Spawn::Surface }, p),
    ensures
        norm2(vec_diff(p.position, center)) <= radius * radius,
        1_000_000 * norm2(vec_diff(p.position, center)) >= 993_996 * (radius * radius)
            - 6_000_000 * radius,
{
}

} // verus!
