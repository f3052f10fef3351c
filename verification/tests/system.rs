//! The per-frame update: integration, gravity, culling, styles, and
//! the registry.

use particles::emitter::Direction;
use particles::math::Vec3;
use particles::style::{Color, ParticleStyle};
use particles::system::ParticleSystem;

fn origin() -> Vec3 {
    Vec3 { x: 0, y: 0, z: 0 }
}

fn unit_x() -> Vec3 {
    Vec3 { x: 1000, y: 0, z: 0 }
}

#[test]
fn scenario_point_emitter() {
    // A point emitter at the origin aimed along +x with no spread and
    // one particle per update.  The first update only spawns: the
    // particle appears unintegrated, at the emitter, with speed 2.0
    // along x and full energy.
    let mut sys = ParticleSystem::new().point(origin(), Direction::Fixed(unit_x()), 0).spawn_rate(1);
    sys.update(500);
    {
        let pop = sys.particles();
        assert_eq!(pop.len(), 1);
        assert_eq!(pop[0].energy, 1000);
        assert_eq!(pop[0].position, origin());
        assert_eq!(pop[0].prev_position, origin());
        assert_eq!(pop[0].velocity, Vec3 { x: 2000, y: 0, z: 0 });
        assert_eq!(pop[0].size, 100);
    }
    // The next half-second step integrates it: it drifts 1.0 along x,
    // burns half its energy, and gravity pulls its vertical velocity
    // down by 9.8 * 0.5.
    let mut sys = sys.spawn_rate(0);
    sys.update(500);
    {
        let pop = sys.particles();
        assert_eq!(pop.len(), 1);
        assert_eq!(pop[0].energy, 500);
        assert_eq!(pop[0].position, Vec3 { x: 1000, y: 0, z: 0 });
        assert_eq!(pop[0].prev_position, origin());
        assert_eq!(pop[0].velocity, Vec3 { x: 2000, y: -4900, z: 0 });
    }
}

#[test]
fn gravity_integration_steps() {
    // After k spawn-free updates of step dt, velocity.y has fallen by
    // exactly k * (9800 * dt / 1000).
    let mut sys = ParticleSystem::new().point(origin(), Direction::Fixed(unit_x()), 0).spawn_rate(1);
    sys.update(100);
    let v0y = sys.particles()[0].velocity.y;
    assert_eq!(v0y, 0);
    let mut sys = sys.spawn_rate(0);
    for _ in 0..9 {
        sys.update(100);
    }
    let pop = sys.particles();
    assert_eq!(pop.len(), 1);
    assert_eq!(pop[0].energy, 100);
    assert_eq!(pop[0].velocity.y, v0y - 9 * 980);
    assert_eq!(pop[0].velocity.x, 2000);
    assert_eq!(pop[0].velocity.z, 0);
}

#[test]
fn update_burns_exactly_delta() {
    let mut sys = ParticleSystem::new().point(origin(), Direction::Random, 300).spawn_rate(3);
    sys.update(0);
    let energies: Vec<i64> = sys.particles().iter().map(|p| p.energy).collect();
    assert_eq!(energies, vec![1000, 1000, 1000]);
    let mut sys = sys.spawn_rate(0);
    sys.update(123);
    let energies: Vec<i64> = sys.particles().iter().map(|p| p.energy).collect();
    assert_eq!(energies, vec![877, 877, 877]);
}

#[test]
fn update_culls_expired() {
    let mut sys = ParticleSystem::new().point(origin(), Direction::Random, 300).spawn_rate(2);
    sys.update(0);
    assert_eq!(sys.particles().len(), 2);
    let mut sys = sys.spawn_rate(0);
    // Energy exactly equal to the step is culled too: 1000 - 1000 = 0.
    sys.update(1000);
    assert_eq!(sys.particles().len(), 0);
}

#[test]
fn update_cull_is_strict() {
    let mut sys = ParticleSystem::new().point(origin(), Direction::Random, 300).spawn_rate(1);
    sys.update(0);
    let mut sys = sys.spawn_rate(0);
    sys.update(999);
    // 1 left: energy 1.
    assert_eq!(sys.particles().len(), 1);
    assert_eq!(sys.particles()[0].energy, 1);
    sys.update(1);
    assert_eq!(sys.particles().len(), 0);
}

#[test]
fn spawned_survive_their_first_cull() {
    // A step larger than a full life kills everything already there,
    // but the particles spawned this frame are appended after the
    // integration and survive with full energy.
    let mut sys = ParticleSystem::new().point(origin(), Direction::Random, 300).spawn_rate(2);
    sys.update(0);
    sys.update(2000);
    let pop = sys.particles();
    assert_eq!(pop.len(), 2);
    assert!(pop.iter().all(|p| p.energy == 1000));
}

#[test]
fn default_system_spawns_two() {
    let mut sys = ParticleSystem::new();
    sys.update(16);
    assert_eq!(sys.particles().len(), 2);
}

#[test]
fn zero_delta_is_a_valid_step() {
    let mut sys = ParticleSystem::new().point(origin(), Direction::Fixed(unit_x()), 0).spawn_rate(1);
    sys.update(0);
    let before = sys.particles().clone();
    let mut sys = sys.spawn_rate(0);
    sys.update(0);
    let after = sys.particles();
    assert_eq!(after.len(), before.len());
    assert_eq!(after[0].position, before[0].position);
    assert_eq!(after[0].velocity, before[0].velocity);
    assert_eq!(after[0].energy, before[0].energy);
}

#[test]
fn reconfigure_style_is_idempotent() {
    let mut sys = ParticleSystem::new().point(origin(), Direction::Random, 300).spawn_rate(5);
    sys.update(100);
    let before = sys.particles().clone();
    let style = ParticleStyle::Color(Color { r: 0, g: 1000, b: 0, a: 1000 });
    let sys = sys.style(style).style(style);
    assert_eq!(sys.particles().as_slice(), before.as_slice());
    assert_eq!(sys.current_style(), Some(style));
}

#[test]
fn reconfigure_keeps_population() {
    let mut sys = ParticleSystem::new().point(origin(), Direction::Random, 300).spawn_rate(4);
    sys.update(50);
    let before = sys.particles().clone();
    let sys = sys
        .sphere(origin(), 1000, particles::emitter::Spawn::Volume)
        .spawn_rate(9)
        .bounding_box((Vec3 { x: -1, y: -1, z: -1 }, Vec3 { x: 1, y: 1, z: 1 }));
    assert_eq!(sys.particles().as_slice(), before.as_slice());
}

#[test]
fn display_color_solid_is_constant() {
    // A solid colour is drawn the same at every energy.
    let green = Color { r: 0, g: 1000, b: 0, a: 1000 };
    let style = ParticleStyle::Color(green);
    assert_eq!(style.display_color(1000), green);
    assert_eq!(style.display_color(500), green);
    assert_eq!(style.display_color(0), green);
}

#[test]
fn display_color_gradient_interpolates() {
    let start = Color { r: 200, g: 400, b: 600, a: 1000 };
    let end = Color { r: 1000, g: 0, b: 600, a: 0 };
    let style = ParticleStyle::ColorGradient(start, end);
    assert_eq!(style.display_color(1000), start);
    assert_eq!(style.display_color(0), end);
    assert_eq!(style.display_color(750), Color { r: 400, g: 300, b: 600, a: 750 });
    // Energy above a full life clamps the ramp at zero.
    assert_eq!(style.display_color(5000), start);
}

#[test]
fn display_color_texture_keeps_tint() {
    let tint = Color { r: 1000, g: 1000, b: 1000, a: 500 };
    let style = ParticleStyle::Texture { texture: 7, color: tint };
    assert_eq!(style.display_color(250), tint);
}

#[test]
fn particle_color_follows_energy() {
    let green = Color { r: 0, g: 1000, b: 0, a: 1000 };
    let red = Color { r: 1000, g: 0, b: 0, a: 1000 };
    let mut sys = ParticleSystem::new()
        .point(origin(), Direction::Fixed(unit_x()), 0)
        .spawn_rate(1)
        .style(ParticleStyle::ColorGradient(green, red));
    sys.update(0);
    assert_eq!(sys.particle_color(0), Some(green));
    let mut sys = sys.spawn_rate(0);
    sys.update(500);
    assert_eq!(sys.particle_color(0), Some(Color { r: 500, g: 500, b: 0, a: 1000 }));
    // A solid style stays solid as the particle ages.
    let solid = sys.style(ParticleStyle::Color(green));
    assert_eq!(solid.particle_color(0), Some(green));
    // Without a style nothing is drawn.
    let mut bare = ParticleSystem::new().spawn_rate(1);
    bare.update(0);
    assert_eq!(bare.particle_color(0), None);
}

#[test]
fn manager_handles_are_dense() {
    let mut mgr = particles::manager::ParticleManager::new();
    assert_eq!(mgr.len(), 0);
    let a = mgr.add_system(ParticleSystem::new());
    let b = mgr.add_system(ParticleSystem::new());
    let c = mgr.add_system(ParticleSystem::new());
    assert_eq!((a, b, c), (0, 1, 2));
    assert_eq!(mgr.len(), 3);
}

#[test]
fn manager_remove_swaps_last_into_slot() {
    let mut mgr = particles::manager::ParticleManager::new();
    let style_a = ParticleStyle::Color(Color { r: 100, g: 0, b: 0, a: 1000 });
    let style_c = ParticleStyle::Color(Color { r: 300, g: 0, b: 0, a: 1000 });
    mgr.add_system(ParticleSystem::new().style(style_a));
    mgr.add_system(ParticleSystem::new());
    mgr.add_system(ParticleSystem::new().style(style_c));
    mgr.remove_system(0);
    assert_eq!(mgr.len(), 2);
    // The last system moved into slot 0: handles are not stable.
    assert_eq!(mgr.system(0).current_style(), Some(style_c));
    assert_eq!(mgr.system(1).current_style(), None);
}
