//! The particle system: a population, one emitter, one style, and the
//! per-frame update that drives them.

use vstd::prelude::*;

use crate::emitter::{is_fresh, Direction, Emitter};
use crate::math::{in_box, tdiv, Vec3, COORD_LIMIT, EXTENT_LIMIT, SCALE};
use crate::particle::{
    alive, integrate, integrate_particle, lemma_integrate, particle_wf, Particle, DELTA_LIMIT,
    GRAVITY,
};
use crate::style::{style_wf, ParticleStyle};

verus! {

/// The ghost model of a particle system: what its contracts speak of.
#[verifier::ext_equal]
pub struct SystemModel {
    pub style: Option<ParticleStyle>,
    pub particles: Seq<Particle>,
    pub bounding_box: Option<(Vec3, Vec3)>,
    pub emitter: Emitter,
    pub spawn_per_update: nat,
}

/// Between frames every system satisfies this: a well-formed emitter,
/// a well-formed style if any, and a population of well-formed live
/// particles.
pub open spec fn model_wf(m: SystemModel) -> bool {
    &&& m.emitter.wf()
    &&& match m.style {
        Some(s) => style_wf(s),
        None => true,
    }
    &&& forall|i: int|
        0 <= i < m.particles.len() ==> particle_wf(#[trigger] m.particles[i]) && alive(
            m.particles[i],
        )
}

/// The model after replacing the style.
pub open spec fn with_style(m: SystemModel, s: ParticleStyle) -> SystemModel {
    SystemModel { style: Some(s), ..m }
}

/// The model after replacing the emitter.
pub open spec fn with_emitter(m: SystemModel, e: Emitter) -> SystemModel {
    SystemModel { emitter: e, ..m }
}

/// The model after replacing the spawn rate.
pub open spec fn with_spawn_rate(m: SystemModel, n: nat) -> SystemModel {
    SystemModel { spawn_per_update: n, ..m }
}

/// The model after replacing the advisory bounding box.
pub open spec fn with_bounding_box(m: SystemModel, bb: (Vec3, Vec3)) -> SystemModel {
    SystemModel { bounding_box: Some(bb), ..m }
}

/// Every particle advanced by one integration step of `d`.
pub open spec fn advanced(pop: Seq<Particle>, d: int) -> Seq<Particle> {
    Seq::new(pop.len(), |i: int| integrate(pop[i], d))
}

/// The survivors of a cull, in order: the particles with energy left.
pub open spec fn culled(pop: Seq<Particle>) -> Seq<Particle>
    decreases pop.len(),
{
    if pop.len() == 0 {
        Seq::empty()
    } else if alive(pop.last()) {
        culled(pop.drop_last()).push(pop.last())
    } else {
        culled(pop.drop_last())
    }
}

/// One frame's effect on the existing population: advance, then cull.
/// (What the emitter spawns is appended after this.)
pub open spec fn stepped(pop: Seq<Particle>, d: int) -> Seq<Particle> {
    culled(advanced(pop, d))
}

proof fn lemma_culled_push(s: Seq<Particle>, q: Particle)
    ensures
        culled(s.push(q)) == if alive(q) {
            culled(s).push(q)
        } else {
            culled(s)
        },
{
    assert(s.push(q).drop_last() =~= s);
    assert(s.push(q).last() == q);
}

/// Only live particles survive the cull.
pub proof fn lemma_culled_alive(s: Seq<Particle>)
    ensures
        forall|i: int| 0 <= i < culled(s).len() ==> alive(#[trigger] culled(s)[i]),
    decreases s.len(),
{
    if s.len() > 0 {
        lemma_culled_alive(s.drop_last());
        lemma_culled_push(s.drop_last(), s.last());
        assert(s.drop_last().push(s.last()) =~= s);
    }
}

/// A particle out of energy appears nowhere after a cull.
pub proof fn lemma_dead_absent(s: Seq<Particle>, p: Particle)
    requires
        !alive(p),
    ensures
        !culled(s).contains(p),
{
    lemma_culled_alive(s);
    if culled(s).contains(p) {
        let i = choose|i: int| 0 <= i < culled(s).len() && culled(s)[i] == p;
        assert(alive(culled(s)[i]));
    }
}

proof fn lemma_advanced_push(pop: Seq<Particle>, d: int, i: int)
    requires
        0 <= i < pop.len(),
    ensures
        advanced(pop.subrange(0, i + 1), d) == advanced(pop.subrange(0, i), d).push(
            integrate(pop[i], d),
        ),
{
    assert(advanced(pop.subrange(0, i + 1), d) =~= advanced(pop.subrange(0, i), d).push(
        integrate(pop[i], d),
    ));
}

/// Population decay, over one frame: every existing particle's energy
/// falls by exactly `d`, only particles with energy left survive the
/// cull, and a particle whose energy was not above `d` is gone.
pub proof fn lemma_population_decay(pop: Seq<Particle>, d: int)
    requires
        0 <= d <= DELTA_LIMIT,
        forall|i: int| 0 <= i < pop.len() ==> particle_wf(#[trigger] pop[i]),
    ensures
        forall|i: int|
            0 <= i < pop.len() ==> (#[trigger] advanced(pop, d)[i]).energy == pop[i].energy - d,
        forall|i: int| 0 <= i < stepped(pop, d).len() ==> alive(#[trigger] stepped(pop, d)[i]),
        forall|i: int|
            0 <= i < pop.len() && pop[i].energy <= d ==> !stepped(pop, d).contains(
                #[trigger] advanced(pop, d)[i],
            ),
{
    assert forall|i: int|
        0 <= i < pop.len() implies (#[trigger] advanced(pop, d)[i]).energy == pop[i].energy
        - d by {
        lemma_integrate(pop[i], d);
    }
    lemma_culled_alive(advanced(pop, d));
    assert forall|i: int|
        0 <= i < pop.len() && pop[i].energy <= d implies !stepped(pop, d).contains(
        #[trigger] advanced(pop, d)[i],
    ) by {
        lemma_dead_absent(advanced(pop, d), advanced(pop, d)[i]);
    }
}

/// A particle after `k` equal integration steps, as `k` spawn-free
/// updates of delta `d` leave it.
pub open spec fn integrate_steps(p: Particle, d: int, k: nat) -> Particle
    decreases k,
{
    if k == 0 {
        p
    } else {
        integrate(integrate_steps(p, d, (k - 1) as nat), d)
    }
}

/// Gravity integration: while a particle stays alive, `k` updates of
/// step `d` pull its vertical velocity down by exactly
/// `k * (GRAVITY * d / SCALE)`, burn exactly `k * d` of energy, and
/// leave the horizontal velocity untouched.
pub proof fn lemma_gravity_integration(p: Particle, d: int, k: nat)
    requires
        particle_wf(p),
        0 <= d <= DELTA_LIMIT,
        k * d < p.energy,
    ensures
        integrate_steps(p, d, k).energy == p.energy - k * d,
        integrate_steps(p, d, k).velocity.y == p.velocity.y - k * tdiv(
            GRAVITY as int * d,
            SCALE as int,
        ),
        integrate_steps(p, d, k).velocity.x == p.velocity.x,
        integrate_steps(p, d, k).velocity.z == p.velocity.z,
        particle_wf(integrate_steps(p, d, k)),
        alive(integrate_steps(p, d, k)),
    decreases k,
{
    if k == 0 {
        assert(0 * d == 0) by (nonlinear_arith);
    } else {
        assert((k - 1) as nat * d == k * d - d && (k - 1) as nat * d >= 0) by (nonlinear_arith)
            requires
                k >= 1,
                d >= 0,
                k * d < p.energy,
        ;
        lemma_gravity_integration(p, d, (k - 1) as nat);
        let q = integrate_steps(p, d, (k - 1) as nat);
        lemma_integrate(q, d);
        let g = tdiv(GRAVITY as int * d, SCALE as int);
        assert((k - 1) as nat * g + g == k * g) by (nonlinear_arith)
            requires
                k >= 1,
        ;
    }
}

/// A cull fires on nothing when everything is alive.
proof fn lemma_culled_identity(s: Seq<Particle>)
    requires
        forall|i: int| 0 <= i < s.len() ==> alive(#[trigger] s[i]),
    ensures
        culled(s) == s,
    decreases s.len(),
{
    if s.len() > 0 {
        assert forall|i: int| 0 <= i < s.drop_last().len() implies alive(
            #[trigger] s.drop_last()[i],
        ) by {
            assert(alive(s[i]));
        }
        lemma_culled_identity(s.drop_last());
        assert(s.drop_last().push(s.last()) =~= s);
    }
}

/// A population after `k` spawn-free frames: the per-frame step
/// composed `k` times.
pub open spec fn stepped_frames(pop: Seq<Particle>, d: int, k: nat) -> Seq<Particle>
    decreases k,
{
    if k == 0 {
        pop
    } else {
        stepped(stepped_frames(pop, d, (k - 1) as nat), d)
    }
}

/// With no spawning, frames compose pointwise: while every particle
/// holds the energy to outlive all `k` frames, no cull fires, and the
/// particle under each index after `k` updates is exactly its own
/// `k`-step integration — so the gravity law extends from single
/// particles to whole populations across updates.
pub proof fn lemma_spawnless_frames(pop: Seq<Particle>, d: int, k: nat)
    requires
        0 <= d <= DELTA_LIMIT,
        forall|i: int|
            0 <= i < pop.len() ==> particle_wf(#[trigger] pop[i]) && k * d < pop[i].energy,
    ensures
        stepped_frames(pop, d, k).len() == pop.len(),
        forall|i: int|
            0 <= i < pop.len() ==> stepped_frames(pop, d, k)[i] == integrate_steps(pop[i], d, k),
    decreases k,
{
    if k > 0 {
        assert((k - 1) as nat * d == k * d - d) by (nonlinear_arith)
            requires
                k >= 1,
        ;
        assert forall|i: int|
            0 <= i < pop.len() implies particle_wf(#[trigger] pop[i]) && (k - 1) as nat * d
            < pop[i].energy by {
            assert(k * d < pop[i].energy);
        }
        lemma_spawnless_frames(pop, d, (k - 1) as nat);
        let q = stepped_frames(pop, d, (k - 1) as nat);
        assert forall|i: int| 0 <= i < q.len() implies alive(#[trigger] advanced(q, d)[i])
            && advanced(q, d)[i] == integrate_steps(pop[i], d, k) by {
            lemma_gravity_integration(pop[i], d, (k - 1) as nat);
            lemma_integrate(q[i], d);
        }
        lemma_culled_identity(advanced(q, d));
    }
}

/// Setting the same style twice is setting it once; the population is
/// untouched either way.
pub proof fn lemma_style_idempotent(m: SystemModel, s: ParticleStyle)
    ensures
        with_style(with_style(m, s), s) == with_style(m, s),
        with_style(m, s).particles == m.particles,
{
    assert(with_style(with_style(m, s), s) =~= with_style(m, s));
}

/// Setting the same emitter twice is setting it once; the population
/// is untouched either way.
pub proof fn lemma_emitter_idempotent(m: SystemModel, e: Emitter)
    ensures
        with_emitter(with_emitter(m, e), e) == with_emitter(m, e),
        with_emitter(m, e).particles == m.particles,
{
    assert(with_emitter(with_emitter(m, e), e) =~= with_emitter(m, e));
}

/// Setting the same spawn rate twice is setting it once; the
/// population is untouched either way.
pub proof fn lemma_spawn_rate_idempotent(m: SystemModel, n: nat)
    ensures
        with_spawn_rate(with_spawn_rate(m, n), n) == with_spawn_rate(m, n),
        with_spawn_rate(m, n).particles == m.particles,
{
    assert(with_spawn_rate(with_spawn_rate(m, n), n) =~= with_spawn_rate(m, n));
}

/// Setting the same bounding box twice is setting it once; the
/// population is untouched either way.
pub proof fn lemma_bounding_box_idempotent(m: SystemModel, bb: (Vec3, Vec3))
    ensures
        with_bounding_box(with_bounding_box(m, bb), bb) == with_bounding_box(m, bb),
        with_bounding_box(m, bb).particles == m.particles,
{
    assert(with_bounding_box(with_bounding_box(m, bb), bb) =~= with_bounding_box(m, bb));
}

/// A population of particles driven by one emitter and drawn with one
/// style.
pub struct ParticleSystem {
    style: Option<ParticleStyle>,
    particles: Vec<Particle>,
    bounding_box: Option<(Vec3, Vec3)>,
    emitter: Emitter,
    spawn_per_update: usize,
}

impl View for ParticleSystem {
    type V = SystemModel;

    closed spec fn view(&self) -> SystemModel {
        SystemModel {
            style: self.style,
            particles: self.particles@,
            bounding_box: self.bounding_box,
            emitter: self.emitter,
            spawn_per_update: self.spawn_per_update as nat,
        }
    }
}

impl ParticleSystem {
    /// A new system: a point emitter at the origin with a zero fixed
    /// direction and 0.3 spread, two particles per update, no style,
    /// no bounding box, and an empty population.
    pub fn new() -> (s: Self)
        ensures
            s@.emitter == (Emitter::Point {
                position: (Vec3 { x: 0, y: 0, z: 0 }),
                direction: Direction::Fixed((Vec3 { x: 0, y: 0, z: 0 })),
                spread: 300,
            }),
            s@.style == None::<ParticleStyle>,
            s@.bounding_box == None::<(Vec3, Vec3)>,
            s@.particles == Seq::<Particle>::empty(),
            s@.spawn_per_update == 2,
            model_wf(s@),
    {
        ParticleSystem {
            emitter: Emitter::Point {
                position: Vec3 { x: 0, y: 0, z: 0 },
                direction: Direction::Fixed(Vec3 { x: 0, y: 0, z: 0 }),
                spread: 300,
            },
            bounding_box: None,
            particles: Vec::new(),
            style: None,
            spawn_per_update: 2,
        }
    }

    /// Replace how many particles each update spawns.
    pub fn spawn_rate(self, per_update: usize) -> (r: Self)
        ensures
            r@ == with_spawn_rate(self@, per_update as nat),
            model_wf(self@) ==> model_wf(r@),
    {
        let r = ParticleSystem { spawn_per_update: per_update, ..self };
        proof {
            assert(r@ =~= with_spawn_rate(self@, per_update as nat));
        }
        r
    }

    /// Replace the emitter with a point source.
    pub fn point(self, position: Vec3, direction: Direction, spread: i64) -> (r: Self)
        requires
            in_box(position, COORD_LIMIT as int),
            0 <= spread <= EXTENT_LIMIT,
            direction matches Direction::Fixed(v) ==> in_box(v, EXTENT_LIMIT as int),
        ensures
            r@ == with_emitter(self@, Emitter::Point { position, direction, spread }),
            model_wf(self@) ==> model_wf(r@),
    {
        let r = ParticleSystem {
            emitter: Emitter::Point { position, direction, spread },
            ..self
        };
        proof {
            assert(r@ =~= with_emitter(self@, Emitter::Point { position, direction, spread }));
        }
        r
    }

    /// Replace the emitter with a cube of edge `size`.
    pub fn cube(self, position: Vec3, size: i64, spawn_type: crate::emitter::Spawn) -> (r: Self)
        requires
            in_box(position, COORD_LIMIT as int),
            0 <= size <= EXTENT_LIMIT,
        ensures
            r@ == with_emitter(self@, Emitter::Cube { position, size, spawn_type }),
            model_wf(self@) ==> model_wf(r@),
    {
        let r = ParticleSystem { emitter: Emitter::Cube { position, size, spawn_type }, ..self };
        proof {
            assert(r@ =~= with_emitter(self@, Emitter::Cube { position, size, spawn_type }));
        }
        r
    }

    /// Replace the emitter with a sphere of radius `size`.
    pub fn sphere(self, position: Vec3, size: i64, spawn_type: crate::emitter::Spawn) -> (r: Self)
        requires
            in_box(position, COORD_LIMIT as int),
            0 <= size <= EXTENT_LIMIT,
        ensures
            r@ == with_emitter(self@, Emitter::Sphere { position, size, spawn_type }),
            model_wf(self@) ==> model_wf(r@),
    {
        let r = ParticleSystem { emitter: Emitter::Sphere { position, size, spawn_type }, ..self };
        proof {
            assert(r@ =~= with_emitter(self@, Emitter::Sphere { position, size, spawn_type }));
        }
        r
    }

    /// Replace the style.
    pub fn style(self, style: ParticleStyle) -> (r: Self)
        requires
            style_wf(style),
        ensures
            r@ == with_style(self@, style),
            model_wf(self@) ==> model_wf(r@),
    {
        let r = ParticleSystem { style: Some(style), ..self };
        proof {
            assert(r@ =~= with_style(self@, style));
        }
        r
    }

    /// Replace the advisory bounding box.  The box is configuration
    /// only: the simulation neither clips nor re-spawns against it.
    pub fn bounding_box(self, bounding_box: (Vec3, Vec3)) -> (r: Self)
        ensures
            r@ == with_bounding_box(self@, bounding_box),
            model_wf(self@) ==> model_wf(r@),
    {
        let r = ParticleSystem { bounding_box: Some(bounding_box), ..self };
        proof {
            assert(r@ =~= with_bounding_box(self@, bounding_box));
        }
        r
    }

    /// The live population, read-only, for the renderer.
    pub fn particles(&self) -> (r: &Vec<Particle>)
        ensures
            r@ == self@.particles,
    {
        &self.particles
    }

    /// The current style, if one was configured.
    pub fn current_style(&self) -> (r: Option<ParticleStyle>)
        ensures
            r == self@.style,
    {
        self.style
    }

    /// The colour the renderer draws the particle under `idx` with:
    /// the style evaluated at that particle's remaining energy, or
    /// nothing when no style is configured (nothing is drawn then).
    pub fn particle_color(&self, idx: usize) -> (c: Option<crate::style::Color>)
        requires
            model_wf(self@),
            idx < self@.particles.len(),
        ensures
            c == (match self@.style {
                Some(s) => Some(
                    crate::style::display_color_spec(s, self@.particles[idx as int].energy as int),
                ),
                None => None::<crate::style::Color>,
            }),
    {
        match self.style {
            Some(style) => {
                let p = self.particles[idx];
                Some(style.display_color(p.energy))
            },
            None => None,
        }
    }

    /// One frame: advance every existing particle (drift by velocity,
    /// burn `delta` of energy, pull the vertical velocity down by
    /// gravity), append what the emitter spawns, and drop everything
    /// out of energy.  Spawned particles are not integrated on the
    /// frame that spawned them, and always survive its cull.
    pub fn update(&mut self, delta: i64)
        requires
            model_wf(old(self)@),
            0 <= delta <= DELTA_LIMIT,
        ensures
            model_wf(final(self)@),
            final(self)@.style == old(self)@.style,
            final(self)@.emitter == old(self)@.emitter,
            final(self)@.bounding_box == old(self)@.bounding_box,
            final(self)@.spawn_per_update == old(self)@.spawn_per_update,
            final(self)@.particles.len() == stepped(old(self)@.particles, delta as int).len()
                + old(self)@.spawn_per_update,
            final(self)@.particles.subrange(
                0,
                stepped(old(self)@.particles, delta as int).len() as int,
            ) == stepped(old(self)@.particles, delta as int),
            forall|j: int|
                stepped(old(self)@.particles, delta as int).len() <= j
                    < final(self)@.particles.len() ==> is_fresh(
                    old(self)@.emitter,
                    #[trigger] final(self)@.particles[j],
                ),
    {
        let ghost pop = self.particles@;
        proof {
            assert forall|k: int| 0 <= k < pop.len() implies particle_wf(#[trigger] pop[k]) by {
                assert(particle_wf(old(self)@.particles[k]));
            }
        }
        let n = self.particles.len();
        let mut next: Vec<Particle> = Vec::new();
        let mut i: usize = 0;
        while i < n
            invariant
                i <= n,
                n == pop.len(),
                self.particles@ == pop,
                0 <= delta <= DELTA_LIMIT,
                forall|k: int| 0 <= k < pop.len() ==> particle_wf(#[trigger] pop[k]),
                next@ == culled(advanced(pop.subrange(0, i as int), delta as int)),
                forall|k: int|
                    0 <= k < next@.len() ==> particle_wf(#[trigger] next@[k]) && alive(next@[k]),
            decreases n - i,
        {
            let p = self.particles[i];
            let q = integrate_particle(p, delta);
            proof {
                lemma_integrate(p, delta as int);
                lemma_advanced_push(pop, delta as int, i as int);
                lemma_culled_push(
                    advanced(pop.subrange(0, i as int), delta as int),
                    integrate(pop[i as int], delta as int),
                );
            }
            if q.energy > 0 {
                next.push(q);
            }
            i = i + 1;
        }
        proof {
            assert(pop.subrange(0, n as int) =~= pop);
        }
        let ghost culled_len = next@.len();
        let mut fresh = self.emitter.spawn(self.spawn_per_update);
        next.append(&mut fresh);
        self.particles = next;
        proof {
            assert(final(self)@.particles.subrange(0, culled_len as int) =~= stepped(
                pop,
                delta as int,
            ));
        }
    }
}

} // verus!

