//! The particles: what they hold, how they are spawned into two batches, and how the user
//! spawns and removes them.

use vstd::prelude::*;
use crate::gizmos::eater::RingBurst;
use crate::heading::{circular_point_spec, circular_points, Heading};
use crate::input::{Action, ActionState};
use crate::movement::{Movement, MovementBatch2};
use crate::topology::WindowDimensions;
use crate::vector::Vec2;

verus! {

/// How many particles the plane starts with.
pub const INITIAL_PARTICLE_COUNT: u32 = 1000;

/// One of the two halves that the particles are split into for the force passes.
#[derive(Clone, Copy, Debug, PartialEq, Eq, Structural)]
pub enum Batch {
    One,
    Two,
}

impl Batch {
    /// The other batch.
    pub open spec fn other_spec(self) -> Batch {
        match self {
            Batch::One => Batch::Two,
            Batch::Two => Batch::One,
        }
    }

    /// The other batch.
    #[verifier::when_used_as_spec(other_spec)]
    pub fn other(self) -> (other: Batch)
        ensures
            other == self.other_spec(),
    {
        match self {
            Batch::One => Batch::Two,
            Batch::Two => Batch::One,
        }
    }
}

/// Whether a particle has been cancelled and waits to be removed.
#[derive(Clone, Copy, Debug, PartialEq, Eq, Structural)]
pub struct Cancelled(pub bool);

impl Default for Cancelled {
    fn default() -> (cancelled: Cancelled)
        ensures
            !cancelled.0,
    {
        Cancelled(false)
    }
}

/// A charged point.
#[derive(Clone, Copy, Debug, PartialEq, Eq, Structural)]
pub struct Particle {
    pub position: Vec2,
    /// The sign of the charge.
    pub positive: bool,
    /// What the effectors and the first force pass gather.
    pub movement: Movement,
    /// What the second force pass gathers, for a particle of the second batch.
    pub movement_batch2: MovementBatch2,
    pub cancelled: Cancelled,
    /// Set when the particle is spawned, and never changed.
    pub batch: Batch,
}

/// The batch that the next particle goes to.
pub struct NextBatch {
    counter: u8,
}

impl NextBatch {
    /// The batch that the next particle goes to.
    pub closed spec fn batch_spec(self) -> Batch {
        if self.counter == 1 {
            Batch::Two
        } else {
            Batch::One
        }
    }

    /// Hands out the batch for a new particle, and turns to the other batch.
    pub fn take(&mut self) -> (batch: Batch)
        ensures
            batch == old(self).batch_spec(),
            final(self).batch_spec() == batch.other_spec(),
    {
        if self.counter == 1 {
            self.counter = 0;
            Batch::Two
        } else {
            self.counter = 1;
            Batch::One
        }
    }
}

impl Default for NextBatch {
    fn default() -> (next: NextBatch)
        ensures
            next.batch_spec() == Batch::One,
    {
        NextBatch { counter: 0 }
    }
}

/// A particle as it is spawned: at rest, not cancelled.
pub open spec fn spawned_spec(position: Vec2, positive: bool, batch: Batch) -> Particle {
    Particle {
        position,
        positive,
        movement: Movement(Vec2::zero_spec()),
        movement_batch2: MovementBatch2(Vec2::zero_spec()),
        cancelled: Cancelled(false),
        batch,
    }
}

/// The batch of the particle spawned `count` spawns after one that went to `first`.
pub open spec fn batch_after_spec(first: Batch, count: nat) -> Batch {
    if count % 2 == 0 {
        first
    } else {
        first.other_spec()
    }
}

/// Spawns a particle at `position`, in the batch whose turn it is.
pub fn spawn_particle_at_location(
    particles: &mut Vec<Particle>,
    next_batch: &mut NextBatch,
    position: Vec2,
    positive: bool,
)
    ensures
        final(particles)@ == old(particles)@.push(
            spawned_spec(position, positive, old(next_batch).batch_spec()),
        ),
        final(next_batch).batch_spec() == old(next_batch).batch_spec().other_spec(),
{
    let batch: Batch = next_batch.take();
    particles.push(
        Particle {
            position,
            positive,
            movement: Movement::default(),
            movement_batch2: MovementBatch2::default(),
            cancelled: Cancelled::default(),
            batch,
        },
    );
}

/// Spawns one particle of the given charge at each of `points`, in their order; the
/// batches alternate from the one whose turn it is.
pub fn spawn_particles_at(
    particles: &mut Vec<Particle>,
    next_batch: &mut NextBatch,
    points: &Vec<Vec2>,
    positive: bool,
)
    ensures
        final(particles)@.len() == old(particles)@.len() + points@.len(),
        final(particles)@.take(old(particles)@.len() as int) == old(particles)@,
        forall|k: int|
            0 <= k < points@.len() ==> #[trigger] final(particles)@[old(particles)@.len() + k]
                == spawned_spec(
                points@[k],
                positive,
                batch_after_spec(old(next_batch).batch_spec(), k as nat),
            ),
        final(next_batch).batch_spec() == batch_after_spec(
            old(next_batch).batch_spec(),
            points@.len(),
        ),
{
    let ghost before = particles@;
    let ghost first = next_batch.batch_spec();
    let mut done: usize = 0;
    while done < points.len()
        invariant
            done <= points@.len(),
            particles@.len() == before.len() + done,
            particles@.take(before.len() as int) == before,
            forall|k: int|
                0 <= k < done ==> #[trigger] particles@[before.len() + k] == spawned_spec(
                    points@[k],
                    positive,
                    batch_after_spec(first, k as nat),
                ),
            next_batch.batch_spec() == batch_after_spec(first, done as nat),
        decreases points@.len() - done,
    {
        let ghost grown = particles@;
        spawn_particle_at_location(particles, next_batch, points[done], positive);
        assert(particles@.take(before.len() as int) == grown.take(before.len() as int));
        assert forall|k: int| 0 <= k < done + 1 implies #[trigger] particles@[before.len() + k]
            == spawned_spec(points@[k], positive, batch_after_spec(first, k as nat)) by {
            if k < done {
                assert(particles@[before.len() + k] == grown[before.len() + k]);
            }
        }
        done += 1;
    }
}

/// How many of the particles are in `batch`.
pub open spec fn batch_count_spec(particles: Seq<Particle>, batch: Batch) -> nat
    decreases particles.len(),
{
    if particles.len() == 0 {
        0
    } else {
        batch_count_spec(particles.drop_last(), batch) + if particles.last().batch == batch {
            1nat
        } else {
            0nat
        }
    }
}

/// Particles spawned one after the other split evenly: the batch that got the first of
/// them holds as many as the other, or one more.
pub proof fn lemma_alternating_batches_balanced(particles: Seq<Particle>, first: Batch)
    requires
        forall|k: int|
            0 <= k < particles.len() ==> (#[trigger] particles[k]).batch == batch_after_spec(
                first,
                k as nat,
            ),
    ensures
        batch_count_spec(particles, first) + batch_count_spec(particles, first.other_spec())
            == particles.len(),
        batch_count_spec(particles, first) == batch_count_spec(particles, first.other_spec()) + (
        particles.len() % 2),
    decreases particles.len(),
{
    if particles.len() > 0 {
        let front = particles.drop_last();
        assert forall|k: int| 0 <= k < front.len() implies (#[trigger] front[k]).batch
            == batch_after_spec(first, k as nat) by {
            assert(front[k] == particles[k]);
        }
        lemma_alternating_batches_balanced(front, first);
    }
}

/// Whether the frame asks for a particle: the action that spawns one went down, and the
/// modifier for removing is up.
pub open spec fn spawn_asked_spec(action_state: ActionState) -> bool {
    action_state.just_pressed_spec(Action::SpawnParticle) && !action_state.pressed_spec(
        Action::DespawnModifier,
    )
}

/// Whether the frame asks for all particles to be removed: the action that spawns one
/// went down while the modifier for removing is held.
pub open spec fn despawn_all_asked_spec(action_state: ActionState) -> bool {
    action_state.just_pressed_spec(Action::SpawnParticle) && action_state.pressed_spec(
        Action::DespawnModifier,
    )
}

/// Spawns a positive particle at the cursor if the frame asks for one. Without a cursor
/// the frame changes nothing.
pub fn spawn_particle(
    particles: &mut Vec<Particle>,
    next_batch: &mut NextBatch,
    action_state: &ActionState,
    cursor_pos: Option<Vec2>,
)
    ensures
        match cursor_pos {
            Some(cursor) if spawn_asked_spec(*action_state) => {
                &&& final(particles)@ == old(particles)@.push(
                    spawned_spec(cursor, true, old(next_batch).batch_spec()),
                )
                &&& final(next_batch).batch_spec() == old(next_batch).batch_spec().other_spec()
            },
            _ => {
                &&& final(particles)@ == old(particles)@
                &&& final(next_batch).batch_spec() == old(next_batch).batch_spec()
            },
        },
{
    if !action_state.just_pressed(&Action::SpawnParticle) || action_state.pressed(
        &Action::DespawnModifier,
    ) {
        return ;
    }
    match cursor_pos {
        Some(cursor) => {
            spawn_particle_at_location(particles, next_batch, cursor, true);
        },
        None => {},
    }
}

/// Removes all particles if the frame asks for it.
pub fn despawn_all_particles(particles: &mut Vec<Particle>, action_state: &ActionState)
    ensures
        final(particles)@ == if despawn_all_asked_spec(*action_state) {
            Seq::<Particle>::empty()
        } else {
            old(particles)@
        },
{
    if !action_state.just_pressed(&Action::SpawnParticle) || !action_state.pressed(
        &Action::DespawnModifier,
    ) {
        return ;
    }
    particles.clear();
}

/// The middle of the ring that the first particles are spawned on: the middle of the
/// plane.
pub open spec fn initial_ring_center_spec(extent: Vec2) -> Vec2 {
    Vec2 { x: (extent.x / 2) as i64, y: (extent.y / 2) as i64 }
}

/// The radius of the ring that the first particles are spawned on: nine twentieths of
/// the shorter side of the plane.
pub open spec fn initial_ring_radius_spec(extent: Vec2) -> u64 {
    if extent.x < extent.y {
        (extent.x * 9 / 20) as u64
    } else {
        (extent.y * 9 / 20) as u64
    }
}

/// The ring that the first particles are spawned on: its middle and its radius. It holds
/// [`INITIAL_PARTICLE_COUNT`] positive particles.
pub fn initial_ring(window_dimensions: &WindowDimensions) -> (ring: (Vec2, u64))
    ensures
        ring.0 == initial_ring_center_spec(window_dimensions.extent()),
        ring.1 == initial_ring_radius_spec(window_dimensions.extent()),
{
    let extent: Vec2 = window_dimensions.get();
    let smallest: i128 = if extent.x < extent.y {
        extent.x as i128
    } else {
        extent.y as i128
    };
    let radius: i128 = smallest * 9 / 20;
    (Vec2 { x: extent.x / 2, y: extent.y / 2 }, radius as u64)
}

/// Spawns a ring of particles of the given charge around `midpoint`: one for each of
/// `directions`, in their order, `radius` away from the midpoint.
pub fn spawn_ring(
    particles: &mut Vec<Particle>,
    next_batch: &mut NextBatch,
    midpoint: Vec2,
    radius: u64,
    directions: &Vec<Heading>,
    positive: bool,
)
    ensures
        final(particles)@.len() == old(particles)@.len() + directions@.len(),
        final(particles)@.take(old(particles)@.len() as int) == old(particles)@,
        forall|k: int|
            0 <= k < directions@.len() ==> #[trigger] final(particles)@[old(particles)@.len() + k]
                == spawned_spec(
                circular_point_spec(midpoint, radius, directions@[k].direction()),
                positive,
                batch_after_spec(old(next_batch).batch_spec(), k as nat),
            ),
        final(next_batch).batch_spec() == batch_after_spec(
            old(next_batch).batch_spec(),
            directions@.len(),
        ),
{
    let points: Vec<Vec2> = circular_points(midpoint, radius, directions);
    spawn_particles_at(particles, next_batch, &points, positive);
}

/// Spawns the ring of particles that a full eater gives back: as many particles of the
/// eater's charge as the burst counts, `burst.radius` away from `burst.center`, one for
/// each of `directions`, in their order.
///
/// There must be as many directions as the burst counts particles; with any other number
/// nothing is spawned, and `false` is returned.
pub fn spawn_burst(
    particles: &mut Vec<Particle>,
    next_batch: &mut NextBatch,
    burst: &RingBurst,
    directions: &Vec<Heading>,
) -> (spawned: bool)
    ensures
        spawned == (directions@.len() == burst.count),
        !spawned ==> final(particles)@ == old(particles)@ && final(next_batch).batch_spec() == old(
            next_batch,
        ).batch_spec(),
        spawned ==> {
            &&& final(particles)@.len() == old(particles)@.len() + burst.count
            &&& final(particles)@.take(old(particles)@.len() as int) == old(particles)@
            &&& forall|k: int|
                0 <= k < burst.count ==> #[trigger] final(particles)@[old(particles)@.len() + k]
                    == spawned_spec(
                    circular_point_spec(burst.center, burst.radius, directions@[k].direction()),
                    burst.positive,
                    batch_after_spec(old(next_batch).batch_spec(), k as nat),
                )
            &&& final(next_batch).batch_spec() == batch_after_spec(
                old(next_batch).batch_spec(),
                burst.count as nat,
            )
        },
{
    if directions.len() != burst.count as usize {
        return false;
    }
    spawn_ring(particles, next_batch, burst.center, burst.radius, directions, burst.positive);
    true
}

/// Spawns the first particles: a ring of [`INITIAL_PARTICLE_COUNT`] positive ones around
/// the middle of the plane, one for each of `directions`, in their order.
///
/// There must be [`INITIAL_PARTICLE_COUNT`] directions; with any other number nothing is
/// spawned, and `false` is returned.
pub fn spawn_initial_particles(
    particles: &mut Vec<Particle>,
    next_batch: &mut NextBatch,
    window_dimensions: &WindowDimensions,
    directions: &Vec<Heading>,
) -> (spawned: bool)
    ensures
        spawned == (directions@.len() == INITIAL_PARTICLE_COUNT),
        !spawned ==> final(particles)@ == old(particles)@ && final(next_batch).batch_spec() == old(
            next_batch,
        ).batch_spec(),
        spawned ==> {
            &&& final(particles)@.len() == old(particles)@.len() + INITIAL_PARTICLE_COUNT
            &&& final(particles)@.take(old(particles)@.len() as int) == old(particles)@
            &&& forall|k: int|
                0 <= k < INITIAL_PARTICLE_COUNT ==> #[trigger] final(particles)@[old(
                    particles,
                )@.len() + k] == spawned_spec(
                    circular_point_spec(
                        initial_ring_center_spec(window_dimensions.extent()),
                        initial_ring_radius_spec(window_dimensions.extent()),
                        directions@[k].direction(),
                    ),
                    true,
                    batch_after_spec(old(next_batch).batch_spec(), k as nat),
                )
            &&& final(next_batch).batch_spec() == batch_after_spec(
                old(next_batch).batch_spec(),
                INITIAL_PARTICLE_COUNT as nat,
            )
        },
{
    if directions.len() != INITIAL_PARTICLE_COUNT as usize {
        return false;
    }
    let ring: (Vec2, u64) = initial_ring(window_dimensions);
    spawn_ring(particles, next_batch, ring.0, ring.1, directions, true);
    true
}

} // verus!
