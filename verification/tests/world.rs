use particle_sandbox::gizmos::eater::{Dormant, Eater, DORMANCY};
use particle_sandbox::gizmos::emitter::{Emitter, ParticleLimit, EMITTER_INTERVAL};
use particle_sandbox::gizmos::{spawn_gizmo, GizmoComponent, GizmoType};
use particle_sandbox::input::{Action, ActionState, ButtonState};
use particle_sandbox::movement::{Inertia, Movement};
use particle_sandbox::heading::Heading;
use particle_sandbox::particle::{spawn_burst, spawn_particle_at_location, Batch};
use particle_sandbox::time::{SECOND, TIMESTEP};
use particle_sandbox::topology::WrappingForce;
use particle_sandbox::vector::{Vec2, UNIT};
use particle_sandbox::world::World;

fn spawn(world: &mut World, x: i64, y: i64, positive: bool) {
    spawn_particle_at_location(&mut world.particles, &mut world.next_batch, Vec2::new(x, y), positive);
}

#[test]
fn new_world_is_empty_with_the_defaults() {
    let world = World::new();
    assert!(world.particles.is_empty() && world.gizmos.is_empty());
    assert_eq!(world.window_dimensions.get(), Vec2::new(1600 * UNIT, 900 * UNIT));
    assert_eq!(world.wrapping, WrappingForce(true));
    assert_eq!(world.inertia, Inertia(false));
    assert_eq!(world.limit, ParticleLimit(1_200));
}

#[test]
fn opposite_charges_two_units_apart_are_gone_after_one_tick() {
    let mut world = World::new();
    spawn(&mut world, 100 * UNIT, 100 * UNIT, true);
    spawn(&mut world, 102 * UNIT, 100 * UNIT, false);
    spawn(&mut world, 800 * UNIT, 450 * UNIT, true);
    let bursts = world.fixed_tick(&ActionState::new());
    assert!(bursts.is_empty());
    assert_eq!(world.particles.len(), 1);
    assert!(world.particles[0].positive);
}

#[test]
fn opposite_charges_cancel_with_forces_suspended_too() {
    let mut world = World::new();
    spawn(&mut world, 100 * UNIT, 100 * UNIT, false);
    spawn(&mut world, 100 * UNIT, 102 * UNIT, true);
    let mut actions = ActionState::new();
    actions.set(Action::SuspendRepulsion, ButtonState::Held);
    world.fixed_tick(&actions);
    assert!(world.particles.is_empty());
}

#[test]
fn like_charges_push_each_other_apart() {
    let mut world = World::new();
    spawn(&mut world, 100 * UNIT, 100 * UNIT, true);
    spawn(&mut world, 150 * UNIT, 100 * UNIT, true);
    world.fixed_tick(&ActionState::new());
    assert_eq!(world.particles[0].position, Vec2::new(100 * UNIT - 4_369, 100 * UNIT));
    assert_eq!(world.particles[1].position, Vec2::new(150 * UNIT + 4_369, 100 * UNIT));
    assert_eq!(world.particles[0].movement, Movement(Vec2::zero()));
    assert_eq!(world.particles[1].batch, Batch::Two);
}

#[test]
fn suspended_repulsion_keeps_the_momentum() {
    let mut world = World::new();
    world.inertia = Inertia(true);
    spawn(&mut world, 100 * UNIT, 100 * UNIT, true);
    spawn(&mut world, 150 * UNIT, 100 * UNIT, true);
    world.fixed_tick(&ActionState::new());
    let gathered = world.particles[0].movement;
    assert_eq!(gathered, Movement(Vec2::new(-4_369, 0)));
    assert_eq!(world.particles[0].position, Vec2::new(100 * UNIT - 36, 100 * UNIT));
    let mut actions = ActionState::new();
    actions.set(Action::SuspendRepulsion, ButtonState::Held);
    world.fixed_tick(&actions);
    assert_eq!(world.particles[0].movement, gathered);
    assert_eq!(world.particles[0].position, Vec2::new(100 * UNIT - 72, 100 * UNIT));
}

#[test]
fn particles_stay_on_the_plane() {
    let mut world = World::new();
    let mut seed: u64 = 3;
    for _ in 0..60 {
        seed = seed.wrapping_mul(6364136223846793005).wrapping_add(1442695040888963407);
        let x = ((seed >> 33) % (1600 * 65_536)) as i64;
        seed = seed.wrapping_mul(6364136223846793005).wrapping_add(1442695040888963407);
        let y = ((seed >> 33) % (900 * 65_536)) as i64;
        spawn(&mut world, x, y, true);
    }
    spawn(&mut world, -5 * UNIT, 2_000 * UNIT, false);
    spawn_gizmo(&mut world.gizmos, Vec2::new(10 * UNIT, 10 * UNIT), GizmoType::Repulsor, false, false);
    spawn_gizmo(&mut world.gizmos, Vec2::new(1590 * UNIT, 890 * UNIT), GizmoType::Pusher, false, false);
    let extent = world.window_dimensions.get();
    for _ in 0..30 {
        world.fixed_tick(&ActionState::new());
        for particle in world.particles.iter() {
            assert!((0..extent.x).contains(&particle.position.x));
            assert!((0..extent.y).contains(&particle.position.y));
        }
    }
    assert_eq!(world.particles.len(), 61);
}

#[test]
fn emitter_in_a_full_world_waits_for_the_limit() {
    let mut world = World::new();
    world.limit = ParticleLimit(100);
    for step in 0..100 {
        spawn(&mut world, (10 + 15 * (step % 10)) * UNIT, (10 + 15 * (step / 10)) * UNIT, true);
    }
    spawn_gizmo(&mut world.gizmos, Vec2::new(800 * UNIT, 450 * UNIT), GizmoType::Emitter, true, false);
    assert_eq!(world.gizmos[0].component, GizmoComponent::Emitter(Emitter::new()));
    let mut idle = ActionState::new();
    idle.set(Action::SuspendRepulsion, ButtonState::Held);
    for _ in 0..60 {
        world.fixed_tick(&idle);
    }
    assert_eq!(world.particles.len(), 100);
    let mut raise = ActionState::new();
    raise.set(Action::RaiseParticleLimit, ButtonState::JustPressed);
    world.frame_update(&raise, None, None);
    assert_eq!(world.limit, ParticleLimit(200));
    world.fixed_tick(&idle);
    assert_eq!(world.particles.len(), 101);
    assert!(world.particles[100].positive);
    assert_eq!(
        world.gizmos[0].component,
        GizmoComponent::Emitter(Emitter {
            interval: EMITTER_INTERVAL,
            time_since_emitting: SECOND - EMITTER_INTERVAL,
        })
    );
}

#[test]
fn full_eater_rests_ten_seconds_and_gives_back_a_ring() {
    let mut world = World::new();
    let home = Vec2::new(800 * UNIT, 450 * UNIT);
    spawn_gizmo(&mut world.gizmos, home, GizmoType::Eater, false, false);
    world.gizmos[0].component = GizmoComponent::Eater(Eater::new(3));
    spawn(&mut world, 805 * UNIT, 450 * UNIT, true);
    spawn(&mut world, 800 * UNIT, 460 * UNIT, true);
    spawn(&mut world, 790 * UNIT, 445 * UNIT, true);
    let mut idle = ActionState::new();
    idle.set(Action::SuspendRepulsion, ButtonState::Held);
    let bursts = world.fixed_tick(&idle);
    assert!(world.particles.is_empty());
    assert_eq!(bursts.len(), 1);
    assert_eq!(bursts[0].count, 3);
    assert!(!bursts[0].positive);
    assert_eq!(bursts[0].center, home);
    assert_eq!(world.gizmos[0].dormant, Some(Dormant(DORMANCY - TIMESTEP)));
    assert_eq!(world.gizmos[0].component, GizmoComponent::Eater(Eater { eaten: 3, target: 3 }));
    let directions: Vec<Heading> = (0..bursts[0].count)
        .map(|n| {
            let angle = n as f64 * std::f64::consts::PI * 2.0 / bursts[0].count as f64;
            Heading::toward(
                Vec2::zero(),
                Vec2::new((angle.cos() * 1e9).round() as i64, (angle.sin() * 1e9).round() as i64),
            )
        })
        .collect();
    let short: Vec<Heading> = directions[..2].to_vec();
    assert!(!spawn_burst(&mut world.particles, &mut world.next_batch, &bursts[0], &short));
    assert!(world.particles.is_empty());
    assert!(spawn_burst(&mut world.particles, &mut world.next_batch, &bursts[0], &directions));
    assert_eq!(world.particles.len(), 3);
    assert!(world.particles.iter().all(|particle| !particle.positive));
    let expected = [(800.0, 475.0), (778.349, 437.5), (821.651, 437.5)];
    for (particle, place) in world.particles.iter().zip(expected.iter()) {
        assert!((particle.position.x as f64 / UNIT as f64 - place.0).abs() < 0.01);
        assert!((particle.position.y as f64 / UNIT as f64 - place.1).abs() < 0.01);
    }
    let sum_x: i64 = world.particles.iter().map(|particle| particle.position.x - home.x).sum();
    let sum_y: i64 = world.particles.iter().map(|particle| particle.position.y - home.y).sum();
    assert!(sum_x.abs() <= 50 && sum_y.abs() <= 50);
    world.particles.clear();
    for tick in 1..=600usize {
        let place = world.gizmos[0].position;
        spawn(&mut world, place.x, place.y, true);
        let bursts = world.fixed_tick(&idle);
        assert!(bursts.is_empty());
        if tick < 600 {
            assert_eq!(world.particles.len(), 1);
            world.particles.clear();
        } else {
            assert!(world.particles.is_empty());
            assert_eq!(world.gizmos[0].component, GizmoComponent::Eater(Eater { eaten: 1, target: 3 }));
            assert_eq!(world.gizmos[0].dormant, None);
        }
    }
}

#[test]
fn slow_deleter_in_the_world_deletes_after_half_a_second() {
    let mut world = World::new();
    spawn_gizmo(&mut world.gizmos, Vec2::new(800 * UNIT, 450 * UNIT), GizmoType::SlowDeleter, false, false);
    spawn(&mut world, 810 * UNIT, 450 * UNIT, true);
    spawn(&mut world, 790 * UNIT, 450 * UNIT, true);
    let mut idle = ActionState::new();
    idle.set(Action::SuspendRepulsion, ButtonState::Held);
    let mut counts = Vec::new();
    for _ in 0..65 {
        world.fixed_tick(&idle);
        counts.push(world.particles.len());
    }
    for tick in 1..=65usize {
        let expected = if tick < 30 {
            2
        } else if tick < 60 {
            1
        } else {
            0
        };
        assert_eq!(counts[tick - 1], expected);
    }
}

#[test]
fn frame_takes_the_input() {
    let mut world = World::new();
    let mut actions = ActionState::new();
    actions.set(Action::SpawnParticle, ButtonState::JustPressed);
    actions.set(Action::ToggleInertia, ButtonState::JustPressed);
    actions.set(Action::ToggleWrap, ButtonState::JustPressed);
    actions.set(Action::LowerParticleLimit, ButtonState::JustPressed);
    actions.set(Action::Attractor, ButtonState::JustPressed);
    world.frame_update(&actions, Some(Vec2::new(5, 6)), Some(Vec2::new(640, 480)));
    assert_eq!(world.window_dimensions.get(), Vec2::new(640, 480));
    assert_eq!(world.inertia, Inertia(true));
    assert_eq!(world.wrapping, WrappingForce(false));
    assert_eq!(world.limit, ParticleLimit(1_100));
    assert_eq!(world.particles.len(), 1);
    assert_eq!(world.particles[0].position, Vec2::new(5, 6));
    assert!(world.particles[0].positive);
    assert_eq!(world.gizmos.len(), 1);
    assert_eq!(world.gizmos[0].component.gizmo_type(), GizmoType::Attractor);
    world.frame_update(&actions, None, Some(Vec2::new(0, 0)));
    assert_eq!(world.window_dimensions.get(), Vec2::new(640, 480));
    assert_eq!(world.particles.len(), 1);
    assert_eq!(world.gizmos.len(), 1);
    assert_eq!(world.limit, ParticleLimit(1_000));
    let mut clear = ActionState::new();
    clear.set(Action::SpawnParticle, ButtonState::JustPressed);
    clear.set(Action::DespawnModifier, ButtonState::Held);
    world.frame_update(&clear, Some(Vec2::new(5, 6)), None);
    assert!(world.particles.is_empty());
    assert_eq!(world.gizmos.len(), 1);
}
