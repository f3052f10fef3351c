//! The simulated unit: a particle, its well-formedness bounds, and one
//! integration step.

use vstd::math::abs;
use vstd::prelude::*;

use crate::math::{div_trunc, lemma_tdiv_abs, tdiv, Vec3, COORD_LIMIT, EXTENT_LIMIT, SCALE};

verus! {

/// A fresh particle's energy: one full second of life.
pub const ENERGY_FULL: i64 = 1000;

/// A fresh particle's visual size: a tenth of a world unit.
pub const PARTICLE_SIZE: i64 = 100;

/// Downward acceleration, 9.8 world units per second squared.
pub const GRAVITY: i64 = 9800;

/// A fresh particle's speed: two world units per second.
pub const SPAWN_SPEED: i64 = 2000;

/// Largest frame delta `update` accepts: a thousand seconds.
pub const DELTA_LIMIT: i64 = 1_000_000;

/// Largest velocity coordinate a live particle can reach: spawn speed
/// plus what gravity adds over at most one second of life.
pub const VEL_LIMIT: i64 = 12_000;

/// Largest position coordinate a live particle can reach: emitter
/// centre plus extent plus at most one second of drift.
pub const POS_LIMIT: i64 = COORD_LIMIT + EXTENT_LIMIT + VEL_LIMIT;

/// The atomic simulated unit.
#[derive(Clone, Copy, PartialEq, Eq, Structural, Debug)]
pub struct Particle {
    /// Current world-space position.
    pub position: Vec3,
    /// Position before the last integration step, kept for trail or
    /// interpolation rendering.
    pub prev_position: Vec3,
    /// World-space velocity; gravity pulls its `y` down each step.
    pub velocity: Vec3,
    /// Remaining lifetime; the particle is culled once it reaches zero.
    pub energy: i64,
    /// Visual scale, fixed at spawn time.
    pub size: i64,
}

/// A velocity coordinate stays within what gravity can have added over
/// the life the particle has already burned: the bound loosens as
/// `energy` falls.
pub open spec fn vel_comp_ok(c: int, e: int) -> bool {
    SCALE * abs(c) + GRAVITY * e <= SCALE * VEL_LIMIT
}

/// A position coordinate stays within what the velocity bound allows
/// over the life already burned.
pub open spec fn pos_comp_ok(c: int, e: int) -> bool {
    SCALE * abs(c) + VEL_LIMIT * e <= SCALE * POS_LIMIT
}

/// The invariant every particle in a population satisfies.
pub open spec fn particle_wf(p: Particle) -> bool {
    &&& 0 <= p.energy <= ENERGY_FULL
    &&& 0 <= p.size <= SCALE
    &&& vel_comp_ok(p.velocity.x as int, p.energy as int)
    &&& vel_comp_ok(p.velocity.y as int, p.energy as int)
    &&& vel_comp_ok(p.velocity.z as int, p.energy as int)
    &&& pos_comp_ok(p.position.x as int, p.energy as int)
    &&& pos_comp_ok(p.position.y as int, p.energy as int)
    &&& pos_comp_ok(p.position.z as int, p.energy as int)
    &&& pos_comp_ok(p.prev_position.x as int, p.energy as int)
    &&& pos_comp_ok(p.prev_position.y as int, p.energy as int)
    &&& pos_comp_ok(p.prev_position.z as int, p.energy as int)
}

/// A particle with energy left survives the cull.
pub open spec fn alive(p: Particle) -> bool {
    p.energy > 0
}

/// One integration step: remember the position, drift by velocity,
/// burn `d` of energy, and pull the vertical velocity down by gravity.
pub open spec fn integrate(p: Particle, d: int) -> Particle {
    Particle {
        prev_position: p.position,
        position: Vec3 {
            x: (p.position.x + tdiv(p.velocity.x * d, SCALE as int)) as i64,
            y: (p.position.y + tdiv(p.velocity.y * d, SCALE as int)) as i64,
            z: (p.position.z + tdiv(p.velocity.z * d, SCALE as int)) as i64,
        },
        velocity: Vec3 {
            x: p.velocity.x,
            y: (p.velocity.y - tdiv(GRAVITY as int * d, SCALE as int)) as i64,
            z: p.velocity.z,
        },
        energy: (p.energy - d) as i64,
        size: p.size,
    }
}

/// `integrate` on a well-formed particle never truncates: each field of
/// the result is the exact integer it was computed from, the energy
/// falls by exactly `d`, and a surviving particle is well-formed again.
pub proof fn lemma_integrate(p: Particle, d: int)
    requires
        particle_wf(p),
        0 <= d <= DELTA_LIMIT,
    ensures
        integrate(p, d).prev_position == p.position,
        integrate(p, d).position.x == p.position.x + tdiv(p.velocity.x * d, SCALE as int),
        integrate(p, d).position.y == p.position.y + tdiv(p.velocity.y * d, SCALE as int),
        integrate(p, d).position.z == p.position.z + tdiv(p.velocity.z * d, SCALE as int),
        integrate(p, d).velocity.x == p.velocity.x,
        integrate(p, d).velocity.y == p.velocity.y - tdiv(GRAVITY as int * d, SCALE as int),
        integrate(p, d).velocity.z == p.velocity.z,
        integrate(p, d).energy == p.energy - d,
        integrate(p, d).size == p.size,
        alive(integrate(p, d)) ==> particle_wf(integrate(p, d)),
{
    lemma_integrate_drift(p.velocity.x as int, d);
    lemma_integrate_drift(p.velocity.y as int, d);
    lemma_integrate_drift(p.velocity.z as int, d);
    lemma_tdiv_abs(GRAVITY as int * d, SCALE as int);
}

/// The drift a velocity coordinate contributes in one step is bounded
/// by `VEL_LIMIT * d`, scaled back down.
proof fn lemma_integrate_drift(c: int, d: int)
    requires
        -VEL_LIMIT <= c <= VEL_LIMIT,
        0 <= d <= DELTA_LIMIT,
    ensures
        SCALE * abs(tdiv(c * d, SCALE as int)) <= VEL_LIMIT * d,
        abs(tdiv(c * d, SCALE as int)) <= 12_000_000,
{
    lemma_tdiv_abs(c * d, SCALE as int);
    assert(-(VEL_LIMIT * d) <= c * d <= VEL_LIMIT * d) by (nonlinear_arith)
        requires
            -VEL_LIMIT <= c <= VEL_LIMIT,
            0 <= d,
    ;
    assert(VEL_LIMIT * d <= 12_000i64 * 1_000_000) by (nonlinear_arith)
        requires
            0 <= d <= 1_000_000,
    ;
}

/// Perform one integration step, exactly as `integrate` specifies.
pub(crate) fn integrate_particle(p: Particle, delta: i64) -> (q: Particle)
    requires
        particle_wf(p),
        0 <= delta <= DELTA_LIMIT,
    ensures
        q == integrate(p, delta as int),
{
    proof {
        lemma_integrate(p, delta as int);
        lemma_integrate_drift(p.velocity.x as int, delta as int);
        lemma_integrate_drift(p.velocity.y as int, delta as int);
        lemma_integrate_drift(p.velocity.z as int, delta as int);
        assert(-(VEL_LIMIT * delta) <= p.velocity.x * delta <= VEL_LIMIT * delta) by (nonlinear_arith)
            requires
                -VEL_LIMIT <= p.velocity.x <= VEL_LIMIT,
                0 <= delta,
        ;
        assert(-(VEL_LIMIT * delta) <= p.velocity.y * delta <= VEL_LIMIT * delta) by (nonlinear_arith)
            requires
                -VEL_LIMIT <= p.velocity.y <= VEL_LIMIT,
                0 <= delta,
        ;
        assert(-(VEL_LIMIT * delta) <= p.velocity.z * delta <= VEL_LIMIT * delta) by (nonlinear_arith)
            requires
                -VEL_LIMIT <= p.velocity.z <= VEL_LIMIT,
                0 <= delta,
        ;
        assert(VEL_LIMIT * delta <= 12_000i64 * 1_000_000) by (nonlinear_arith)
            requires
                0 <= delta <= 1_000_000,
        ;
    }
    let dx = div_trunc(p.velocity.x * delta, SCALE);
    let dy = div_trunc(p.velocity.y * delta, SCALE);
    let dz = div_trunc(p.velocity.z * delta, SCALE);
    let gdrop = div_trunc(GRAVITY * delta, SCALE);
    proof {
        lemma_tdiv_abs(GRAVITY as int * delta, SCALE as int);
    }
    Particle {
        prev_position: p.position,
        position: Vec3 { x: p.position.x + dx, y: p.position.y + dy, z: p.position.z + dz },
        velocity: Vec3 { x: p.velocity.x, y: p.velocity.y - gdrop, z: p.velocity.z },
        energy: p.energy - delta,
        size: p.size,
    }
}

} // verus!
