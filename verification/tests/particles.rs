use particle_sandbox::annihilation::{
    despawn_cancelled_particles, particles_cancelling, PARTICLE_CANCEL_DISTANCE,
};
use particle_sandbox::gizmos::eater::RingBurst;
use particle_sandbox::heading::Heading;
use particle_sandbox::input::{Action, ActionState, ButtonState};
use particle_sandbox::movement::{merge_speed, Movement, MovementBatch2};
use particle_sandbox::particle::{
    despawn_all_particles, initial_ring, spawn_burst, spawn_initial_particles, spawn_particle,
    spawn_particle_at_location, spawn_particles_at, spawn_ring, Batch, Cancelled, NextBatch,
    Particle, INITIAL_PARTICLE_COUNT,
};
use particle_sandbox::repulsion::{
    pair_force, particles_applying_forces, BASE_FORCE, PAIR_FORCE_LIMIT,
};
use particle_sandbox::topology::{within_radius, WindowDimensions, WrappingForce};
use particle_sandbox::vector::{Vec2, UNIT};

fn particle(x: i64, y: i64, positive: bool, batch: Batch) -> Particle {
    Particle {
        position: Vec2::new(x, y),
        positive,
        movement: Movement(Vec2::zero()),
        movement_batch2: MovementBatch2(Vec2::zero()),
        cancelled: Cancelled(false),
        batch,
    }
}

struct Lcg(u64);

impl Lcg {
    fn next(&mut self, bound: u64) -> u64 {
        self.0 = self.0.wrapping_mul(6364136223846793005).wrapping_add(1442695040888963407);
        (self.0 >> 33) % bound
    }
}

#[test]
fn spawned_particles_alternate_between_the_batches() {
    let mut particles = Vec::new();
    let mut next_batch = NextBatch::default();
    for step in 0..7 {
        spawn_particle_at_location(&mut particles, &mut next_batch, Vec2::new(step, 0), step % 3 == 0);
    }
    let batches: Vec<Batch> = particles.iter().map(|particle| particle.batch).collect();
    assert_eq!(
        batches,
        vec![Batch::One, Batch::Two, Batch::One, Batch::Two, Batch::One, Batch::Two, Batch::One]
    );
    assert_eq!(particles[3].position, Vec2::new(3, 0));
    assert!(particles[3].positive);
    assert!(!particles[4].positive);
    assert_eq!(particles[4].movement, Movement(Vec2::zero()));
    assert_eq!(particles[4].movement_batch2, MovementBatch2(Vec2::zero()));
    assert_eq!(particles[4].cancelled, Cancelled(false));
}

#[test]
fn batches_stay_balanced_to_within_one() {
    let mut particles = Vec::new();
    let mut next_batch = NextBatch::default();
    for count in 1..=50usize {
        spawn_particle_at_location(&mut particles, &mut next_batch, Vec2::zero(), true);
        let ones = particles.iter().filter(|particle| particle.batch == Batch::One).count();
        let twos = count - ones;
        assert!(ones == twos || ones == twos + 1);
    }
}

#[test]
fn spawning_at_points_keeps_what_was_there() {
    let mut particles = vec![particle(1, 1, false, Batch::Two)];
    let mut next_batch = NextBatch::default();
    let points = vec![Vec2::new(5, 5), Vec2::new(6, 6), Vec2::new(7, 7)];
    spawn_particles_at(&mut particles, &mut next_batch, &points, false);
    assert_eq!(particles.len(), 4);
    assert_eq!(particles[0], particle(1, 1, false, Batch::Two));
    assert_eq!(particles[1], particle(5, 5, false, Batch::One));
    assert_eq!(particles[2], particle(6, 6, false, Batch::Two));
    assert_eq!(particles[3], particle(7, 7, false, Batch::One));
    spawn_particle_at_location(&mut particles, &mut next_batch, Vec2::zero(), true);
    assert_eq!(particles[4].batch, Batch::Two);
}

#[test]
fn initial_particles_are_positive_and_on_a_ring_round_the_middle() {
    let dimensions = WindowDimensions::new(Vec2::new(1600 * UNIT, 900 * UNIT)).unwrap();
    let (center, radius) = initial_ring(&dimensions);
    assert_eq!(center, Vec2::new(800 * UNIT, 450 * UNIT));
    assert_eq!(radius, 405 * 65_536);
    assert_eq!(INITIAL_PARTICLE_COUNT, 1000);
    let tall = WindowDimensions::new(Vec2::new(101, 99_999)).unwrap();
    assert_eq!(initial_ring(&tall), (Vec2::new(50, 49_999), 45));
    let mut particles = Vec::new();
    let mut next_batch = NextBatch::default();
    let four = vec![
        Heading::default(),
        Heading::toward(Vec2::zero(), Vec2::new(0, 1)),
        Heading::toward(Vec2::zero(), Vec2::new(-1, 0)),
        Heading::toward(Vec2::zero(), Vec2::new(0, -1)),
    ];
    assert!(!spawn_initial_particles(&mut particles, &mut next_batch, &dimensions, &four));
    assert!(particles.is_empty());
    let directions: Vec<Heading> = (0..1000).map(|n| four[n % 4]).collect();
    assert!(spawn_initial_particles(&mut particles, &mut next_batch, &dimensions, &directions));
    assert_eq!(particles.len(), 1000);
    assert_eq!(
        particles[..4].to_vec(),
        vec![
            particle(800 * UNIT, 855 * UNIT, true, Batch::One),
            particle(395 * UNIT, 450 * UNIT, true, Batch::Two),
            particle(800 * UNIT, 45 * UNIT, true, Batch::One),
            particle(1205 * UNIT, 450 * UNIT, true, Batch::Two),
        ]
    );
    assert_eq!(particles[999], particle(1205 * UNIT, 450 * UNIT, true, Batch::Two));
    let mut more = directions.clone();
    more.push(four[0]);
    assert!(!spawn_initial_particles(&mut particles, &mut next_batch, &dimensions, &more));
    assert_eq!(particles.len(), 1000);
}

#[test]
fn burst_is_spawned_only_with_as_many_directions_as_it_counts() {
    let burst = RingBurst {
        center: Vec2::new(500 * UNIT, 500 * UNIT),
        radius: 25 * 65_536,
        count: 2,
        positive: true,
    };
    let up = Heading::default();
    let down = Heading::toward(Vec2::zero(), Vec2::new(-1, 0));
    let mut particles = vec![particle(1, 1, false, Batch::One)];
    let mut next_batch = NextBatch::default();
    for count in [0usize, 1, 3] {
        let directions: Vec<Heading> = (0..count).map(|_| up).collect();
        assert!(!spawn_burst(&mut particles, &mut next_batch, &burst, &directions));
        assert_eq!(particles, vec![particle(1, 1, false, Batch::One)]);
    }
    assert!(spawn_burst(&mut particles, &mut next_batch, &burst, &vec![up, down]));
    assert_eq!(
        particles,
        vec![
            particle(1, 1, false, Batch::One),
            particle(500 * UNIT, 525 * UNIT, true, Batch::One),
            particle(500 * UNIT, 475 * UNIT, true, Batch::Two),
        ]
    );
    let none = RingBurst { count: 0, ..burst };
    assert!(spawn_burst(&mut particles, &mut next_batch, &none, &Vec::new()));
    assert_eq!(particles.len(), 3);
}

#[test]
fn ring_is_spawned_around_its_midpoint() {
    let mut particles = vec![particle(1, 1, true, Batch::One)];
    let mut next_batch = NextBatch::default();
    let directions: Vec<Heading> = (0..3)
        .map(|n| {
            let angle = n as f64 * std::f64::consts::PI * 2.0 / 3.0;
            Heading::toward(
                Vec2::zero(),
                Vec2::new((angle.cos() * 1e9).round() as i64, (angle.sin() * 1e9).round() as i64),
            )
        })
        .collect();
    let home = Vec2::new(500 * UNIT, 500 * UNIT);
    spawn_ring(&mut particles, &mut next_batch, home, 25 * 65_536, &directions, false);
    assert_eq!(particles.len(), 4);
    assert_eq!(particles[0], particle(1, 1, true, Batch::One));
    assert_eq!(particles[1], particle(500 * UNIT, 525 * UNIT, false, Batch::One));
    let mut sum = Vec2::zero();
    for spawned in particles.iter().skip(1) {
        assert!(!spawned.positive);
        let arm = spawned.position.saturating_sub(home);
        assert!((arm.length() as i64 - 25 * UNIT).abs() <= 50);
        sum = sum.saturating_add(arm);
    }
    assert!(sum.x.abs() <= 50 && sum.y.abs() <= 50);
    assert_eq!(particles[2].batch, Batch::Two);
    assert!(particles[2].position.x < home.x && particles[2].position.y < home.y);
    assert!(particles[3].position.x > home.x && particles[3].position.y < home.y);
}

#[test]
fn like_charges_repel_and_unlike_attract() {
    let here = particle(100 * UNIT, 0, true, Batch::One);
    let there = particle(50 * UNIT, 0, true, Batch::One);
    assert_eq!(BASE_FORCE, 10_000 << 48);
    assert_eq!(pair_force(&here, &there, None), Vec2::new(4369, 0));
    assert_eq!(pair_force(&there, &here, None), Vec2::new(-4369, 0));
    let opposite = particle(50 * UNIT, 0, false, Batch::Two);
    assert_eq!(pair_force(&here, &opposite, None), Vec2::new(-4369, 0));
    assert_eq!(pair_force(&opposite, &here, None), Vec2::new(4369, 0));
    assert_eq!(pair_force(&here, &here, None), Vec2::zero());
}

#[test]
fn pair_force_is_capped_near_by() {
    let here = particle(0, 0, true, Batch::One);
    let near = particle(0, -UNIT, true, Batch::One);
    let at_cap = particle(0, -5 * UNIT, true, Batch::One);
    assert_eq!(PAIR_FORCE_LIMIT, 436_906);
    assert_eq!(pair_force(&here, &at_cap, None), Vec2::new(0, 436_906));
    assert_eq!(pair_force(&here, &near, None), Vec2::new(0, 436_906));
    let beyond = particle(0, -5 * UNIT - 1, true, Batch::One);
    assert_eq!(pair_force(&here, &beyond, None), Vec2::new(0, 436_904));
    let mut random = Lcg(5);
    for _ in 0..500 {
        let other = particle(
            random.next(20 * 65_536) as i64 - 10 * UNIT,
            random.next(20 * 65_536) as i64 - 10 * UNIT,
            random.next(2) == 0,
            Batch::Two,
        );
        let force = pair_force(&here, &other, None);
        assert!(force.x.unsigned_abs() <= PAIR_FORCE_LIMIT);
        assert!(force.y.unsigned_abs() <= PAIR_FORCE_LIMIT);
    }
}

#[test]
fn pair_force_wraps_when_asked() {
    let extent = Vec2::new(1000 * UNIT, 1000 * UNIT);
    let here = particle(10 * UNIT, 500 * UNIT, true, Batch::One);
    let there = particle(960 * UNIT, 500 * UNIT, true, Batch::One);
    assert_eq!(pair_force(&here, &there, Some(extent)), Vec2::new(4369, 0));
    assert_eq!(pair_force(&here, &there, None), Vec2::new(-12, 0));
}

#[test]
fn a_pass_writes_only_the_accumulator_of_its_batch() {
    let dimensions = WindowDimensions::default();
    let wrapping = WrappingForce(false);
    let mut particles = vec![
        particle(0, 0, true, Batch::One),
        particle(50 * UNIT, 0, true, Batch::Two),
        particle(100 * UNIT, 0, true, Batch::One),
    ];
    let before = particles.clone();
    particles_applying_forces(&dimensions, &wrapping, &mut particles, Batch::One);
    assert_eq!(particles[1], before[1]);
    assert_eq!(particles[0].movement, Movement(Vec2::new(-4369 - 1092, 0)));
    assert_eq!(particles[2].movement, Movement(Vec2::new(4369 + 1092, 0)));
    assert_eq!(particles[0].movement_batch2, MovementBatch2(Vec2::zero()));
    particles_applying_forces(&dimensions, &wrapping, &mut particles, Batch::Two);
    assert_eq!(particles[1].movement, Movement(Vec2::zero()));
    assert_eq!(particles[1].movement_batch2, MovementBatch2(Vec2::new(4369 - 4369, 0)));
    assert_eq!(particles[0].movement, Movement(Vec2::new(-4369 - 1092, 0)));
}

#[test]
fn batched_passes_match_the_brute_force_sum() {
    let dimensions = WindowDimensions::new(Vec2::new(400 * UNIT, 300 * UNIT)).unwrap();
    let mut random = Lcg(7);
    for (round, count) in [2usize, 3, 4, 5, 17, 64, 200].into_iter().enumerate() {
        let wrapping = WrappingForce(round % 2 == 0);
        let wrap = if wrapping.0 { Some(dimensions.get()) } else { None };
        let mut particles = Vec::new();
        let mut next_batch = NextBatch::default();
        for _ in 0..count {
            let position = Vec2::new(
                random.next(400 * 65_536) as i64,
                random.next(300 * 65_536) as i64,
            );
            spawn_particle_at_location(&mut particles, &mut next_batch, position, random.next(2) == 0);
        }
        for particle in particles.iter_mut() {
            particle.movement = Movement(Vec2::new(random.next(100) as i64 - 50, 7));
        }
        let before = particles.clone();
        particles_applying_forces(&dimensions, &wrapping, &mut particles, Batch::One);
        particles_applying_forces(&dimensions, &wrapping, &mut particles, Batch::Two);
        merge_speed(&mut particles);
        for target in 0..count {
            let mut expected = before[target].movement.0;
            for source in 0..count {
                if source != target {
                    expected = expected.saturating_add(pair_force(&before[target], &before[source], wrap));
                }
            }
            assert_eq!(particles[target].movement, Movement(expected));
            assert_eq!(particles[target].movement_batch2, MovementBatch2(Vec2::zero()));
            assert_eq!(particles[target].position, before[target].position);
        }
    }
}

#[test]
fn near_opposite_charges_cancel() {
    let dimensions = WindowDimensions::default();
    let mut particles = vec![
        particle(100 * UNIT, 100 * UNIT, true, Batch::One),
        particle(102 * UNIT, 100 * UNIT, false, Batch::Two),
    ];
    particles_cancelling(&dimensions, &mut particles);
    assert_eq!(particles[0].cancelled, Cancelled(true));
    assert_eq!(particles[1].cancelled, Cancelled(true));
    despawn_cancelled_particles(&mut particles);
    assert!(particles.is_empty());
}

#[test]
fn cancel_distance_is_four_units_and_strict() {
    assert_eq!(PARTICLE_CANCEL_DISTANCE, 4 * 65_536);
    let dimensions = WindowDimensions::default();
    let mut at_four = vec![
        particle(100 * UNIT, 100 * UNIT, true, Batch::One),
        particle(104 * UNIT, 100 * UNIT, false, Batch::Two),
    ];
    particles_cancelling(&dimensions, &mut at_four);
    assert_eq!(at_four[0].cancelled, Cancelled(false));
    assert_eq!(at_four[1].cancelled, Cancelled(false));
    let mut within = vec![
        particle(100 * UNIT, 100 * UNIT, true, Batch::One),
        particle(104 * UNIT - 1, 100 * UNIT, false, Batch::Two),
    ];
    particles_cancelling(&dimensions, &mut within);
    assert_eq!(within[0].cancelled, Cancelled(true));
    assert_eq!(within[1].cancelled, Cancelled(true));
}

#[test]
fn like_charges_do_not_cancel() {
    let dimensions = WindowDimensions::default();
    let mut particles = vec![
        particle(100 * UNIT, 100 * UNIT, true, Batch::One),
        particle(101 * UNIT, 100 * UNIT, true, Batch::Two),
        particle(300 * UNIT, 100 * UNIT, false, Batch::One),
        particle(301 * UNIT, 100 * UNIT, false, Batch::Two),
    ];
    let before = particles.clone();
    particles_cancelling(&dimensions, &mut particles);
    assert_eq!(particles, before);
}

#[test]
fn cancelling_reaches_across_the_edge() {
    let dimensions = WindowDimensions::new(Vec2::new(1000 * UNIT, 1000 * UNIT)).unwrap();
    let mut particles = vec![
        particle(999 * UNIT, 5 * UNIT, false, Batch::One),
        particle(UNIT, 5 * UNIT, true, Batch::Two),
    ];
    particles_cancelling(&dimensions, &mut particles);
    assert!(particles[0].cancelled.0 && particles[1].cancelled.0);
}

#[test]
fn a_cancelled_particle_takes_no_second_partner() {
    let dimensions = WindowDimensions::default();
    let mut particles = vec![
        particle(100 * UNIT, 100 * UNIT, true, Batch::One),
        particle(101 * UNIT, 100 * UNIT, false, Batch::Two),
        particle(99 * UNIT, 100 * UNIT, false, Batch::One),
        particle(102 * UNIT, 100 * UNIT, true, Batch::Two),
        particle(103 * UNIT, 100 * UNIT, true, Batch::One),
    ];
    particles_cancelling(&dimensions, &mut particles);
    let flags: Vec<bool> = particles.iter().map(|particle| particle.cancelled.0).collect();
    assert_eq!(flags, vec![true, true, true, true, false]);
    let again = particles.clone();
    particles_cancelling(&dimensions, &mut particles);
    assert_eq!(particles, again);
    despawn_cancelled_particles(&mut particles);
    assert_eq!(particles, vec![particle(103 * UNIT, 100 * UNIT, true, Batch::One)]);
}

#[test]
fn particles_cancelled_before_the_sweep_are_left_alone() {
    let dimensions = WindowDimensions::default();
    let mut eaten = particle(100 * UNIT, 100 * UNIT, true, Batch::One);
    eaten.cancelled = Cancelled(true);
    let mut particles = vec![eaten, particle(101 * UNIT, 100 * UNIT, false, Batch::Two)];
    particles_cancelling(&dimensions, &mut particles);
    assert_eq!(particles[0].cancelled, Cancelled(true));
    assert_eq!(particles[1].cancelled, Cancelled(false));
}

#[test]
fn cancelled_and_partners_are_as_many_of_each_charge() {
    let dimensions = WindowDimensions::new(Vec2::new(50 * UNIT, 50 * UNIT)).unwrap();
    let mut random = Lcg(99);
    let mut particles = Vec::new();
    let mut next_batch = NextBatch::default();
    for _ in 0..150 {
        let position = Vec2::new(random.next(50 * 65_536) as i64, random.next(50 * 65_536) as i64);
        spawn_particle_at_location(&mut particles, &mut next_batch, position, random.next(2) == 0);
    }
    particles_cancelling(&dimensions, &mut particles);
    let positive = particles.iter().filter(|p| p.cancelled.0 && p.positive).count();
    let negative = particles.iter().filter(|p| p.cancelled.0 && !p.positive).count();
    assert!(positive > 0);
    assert_eq!(positive, negative);
    for one in particles.iter().filter(|p| p.positive && !p.cancelled.0) {
        for other in particles.iter().filter(|p| !p.positive && !p.cancelled.0) {
            assert!(!within_radius(
                dimensions.get(),
                one.position,
                other.position,
                PARTICLE_CANCEL_DISTANCE
            ));
        }
    }
    let settled = particles.clone();
    particles_cancelling(&dimensions, &mut particles);
    assert_eq!(particles, settled);
}

#[test]
fn despawn_keeps_the_order_of_the_rest() {
    let mut particles: Vec<Particle> = (0..6).map(|x| particle(x, 0, true, Batch::One)).collect();
    particles[1].cancelled = Cancelled(true);
    particles[4].cancelled = Cancelled(true);
    despawn_cancelled_particles(&mut particles);
    let left: Vec<i64> = particles.iter().map(|particle| particle.position.x).collect();
    assert_eq!(left, vec![0, 2, 3, 5]);
}

#[test]
fn a_click_spawns_a_positive_particle_at_the_cursor() {
    let mut particles = Vec::new();
    let mut next_batch = NextBatch::default();
    let mut actions = ActionState::new();
    spawn_particle(&mut particles, &mut next_batch, &actions, Some(Vec2::new(3, 4)));
    assert!(particles.is_empty());
    actions.set(Action::SpawnParticle, ButtonState::JustPressed);
    spawn_particle(&mut particles, &mut next_batch, &actions, None);
    assert!(particles.is_empty());
    spawn_particle(&mut particles, &mut next_batch, &actions, Some(Vec2::new(3, 4)));
    assert_eq!(particles, vec![particle(3, 4, true, Batch::One)]);
    actions.set(Action::SpawnParticle, ButtonState::Held);
    spawn_particle(&mut particles, &mut next_batch, &actions, Some(Vec2::new(3, 4)));
    assert_eq!(particles.len(), 1);
    actions.set(Action::SpawnParticle, ButtonState::JustPressed);
    actions.set(Action::DespawnModifier, ButtonState::Held);
    spawn_particle(&mut particles, &mut next_batch, &actions, Some(Vec2::new(3, 4)));
    assert_eq!(particles.len(), 1);
}

#[test]
fn a_click_with_the_modifier_removes_all_particles() {
    let mut particles: Vec<Particle> = (0..6).map(|x| particle(x, 0, true, Batch::One)).collect();
    let mut actions = ActionState::new();
    actions.set(Action::SpawnParticle, ButtonState::JustPressed);
    despawn_all_particles(&mut particles, &actions);
    assert_eq!(particles.len(), 6);
    actions.set(Action::DespawnModifier, ButtonState::JustPressed);
    despawn_all_particles(&mut particles, &actions);
    assert!(particles.is_empty());
}
