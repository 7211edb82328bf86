//! Movement accumulators and the integrator that turns them into new positions.

use vstd::prelude::*;
use crate::gizmos::PlacedGizmo;
use crate::input::{Action, ActionState};
use crate::particle::{Batch, Particle};
use crate::topology::{wrapped, wrapped_spec, WindowDimensions};
use crate::vector::{Vec2, UNIT_LENGTH};

verus! {

/// The longest step that a tick may move anything while inertia is off: 200 units a
/// second.
pub const MAX_STEP: u64 = 200 * UNIT_LENGTH / 60;

/// What a movement is divided by before it is applied while inertia is on: a tick is a
/// sixtieth of a second, and half of the movement counts.
pub const INERTIA_DIVISOR: u64 = 120;

/// Something that movement can be added to.
pub trait MovementTrait {
    /// What has been added up so far.
    spec fn total(&self) -> Vec2;

    /// Adds `other` to the total, saturating.
    fn add(&mut self, other: Vec2)
        ensures
            final(self).total() == old(self).total().sum_spec(other),
    ;
}

/// The movement that the next integration applies.
#[derive(Clone, Copy, Debug, PartialEq, Eq, Structural)]
pub struct Movement(pub Vec2);

/// What the second force pass gathers for a particle of the second batch, until it is
/// merged into the particle's [`Movement`].
#[derive(Clone, Copy, Debug, PartialEq, Eq, Structural)]
pub struct MovementBatch2(pub Vec2);

impl MovementTrait for Movement {
    open spec fn total(&self) -> Vec2 {
        self.0
    }

    fn add(&mut self, movement: Vec2) {
        self.0 = self.0.saturating_add(movement);
    }
}

impl MovementTrait for MovementBatch2 {
    open spec fn total(&self) -> Vec2 {
        self.0
    }

    fn add(&mut self, movement: Vec2) {
        self.0 = self.0.saturating_add(movement);
    }
}

impl Default for Movement {
    fn default() -> (movement: Movement)
        ensures
            movement.0 == Vec2::zero_spec(),
    {
        Movement(Vec2::zero())
    }
}

impl Default for MovementBatch2 {
    fn default() -> (movement: MovementBatch2)
        ensures
            movement.0 == Vec2::zero_spec(),
    {
        MovementBatch2(Vec2::zero())
    }
}

/// Whether movement carries over from tick to tick.
#[derive(Clone, Copy, Debug, PartialEq, Eq, Structural)]
pub struct Inertia(pub bool);

impl Default for Inertia {
    fn default() -> (inertia: Inertia)
        ensures
            !inertia.0,
    {
        Inertia(false)
    }
}

/// Flips inertia in the frame in which its action goes down.
pub fn toggle_inertia(inertia: &mut Inertia, action_state: &ActionState)
    ensures
        final(inertia).0 == (old(inertia).0 != action_state.just_pressed_spec(
            Action::ToggleInertia,
        )),
{
    if action_state.just_pressed(&Action::ToggleInertia) {
        inertia.0 = !inertia.0;
    }
}

/// The movement with what the second pass gathered merged in.
pub open spec fn merged_spec(movement: Movement, second: MovementBatch2) -> Movement {
    Movement(movement.0.sum_spec(second.0))
}

/// The movement as the integrator may apply it: no longer than [`MAX_STEP`] while inertia
/// is off, untouched while it is on.
pub open spec fn clamped_spec(inertia: Inertia, movement: Movement) -> Movement {
    if inertia.0 {
        movement
    } else {
        Movement(movement.0.clamp_length_max_spec(MAX_STEP as nat))
    }
}

/// The part of a movement that one integration applies to the position: all of it while
/// inertia is off, a hundred-and-twentieth while it is on.
pub open spec fn applied_spec(inertia: Inertia, movement: Movement) -> Vec2 {
    if inertia.0 {
        movement.0.scaled_spec(1, INERTIA_DIVISOR as nat)
    } else {
        movement.0
    }
}

/// Where a position lands: moved by the applied part of the movement, then brought back
/// onto the plane by whole extents.
pub open spec fn landed_spec(
    extent: Vec2,
    inertia: Inertia,
    position: Vec2,
    movement: Movement,
) -> Vec2 {
    let applied = applied_spec(inertia, movement);
    Vec2 {
        x: wrapped_spec(position.x + applied.x, extent.x as int) as i64,
        y: wrapped_spec(position.y + applied.y, extent.y as int) as i64,
    }
}

/// What is left of a movement after integration: nothing while inertia is off, all of it
/// while it is on.
pub open spec fn carried_spec(inertia: Inertia, movement: Movement) -> Movement {
    if inertia.0 {
        movement
    } else {
        Movement(Vec2::zero_spec())
    }
}

/// Clamps one movement for the integrator: while inertia is off, the result is no longer
/// than [`MAX_STEP`].
pub fn clamp_movement(inertia: &Inertia, movement: Movement) -> (clamped: Movement)
    ensures
        clamped == clamped_spec(*inertia, movement),
        !inertia.0 ==> clamped.0.length_squared_spec() <= MAX_STEP * MAX_STEP,
{
    if inertia.0 {
        movement
    } else {
        Movement(movement.0.clamp_length_max(MAX_STEP))
    }
}

/// Integrates one position: returns where it lands and the movement that is carried
/// over.
///
/// The new position lies on the plane, and differs on each axis from the old position
/// plus the applied movement by a whole number of extents.
pub fn integrate(
    window_dimensions: &WindowDimensions,
    inertia: &Inertia,
    position: Vec2,
    movement: Movement,
) -> (moved: (Vec2, Movement))
    ensures
        moved.0 == landed_spec(window_dimensions.extent(), *inertia, position, movement),
        moved.1 == carried_spec(*inertia, movement),
        0 <= moved.0.x < window_dimensions.extent().x,
        0 <= moved.0.y < window_dimensions.extent().y,
        (position.x + applied_spec(*inertia, movement).x - moved.0.x) % (
        window_dimensions.extent().x as int) == 0,
        (position.y + applied_spec(*inertia, movement).y - moved.0.y) % (
        window_dimensions.extent().y as int) == 0,
{
    let extent: Vec2 = window_dimensions.get();
    let applied: Vec2 = if inertia.0 {
        movement.0.scaled(1, INERTIA_DIVISOR)
    } else {
        movement.0
    };
    let landed: Vec2 = Vec2 {
        x: wrapped(position.x, applied.x, extent.x),
        y: wrapped(position.y, applied.y, extent.y),
    };
    let carried: Movement = if inertia.0 {
        movement
    } else {
        Movement(Vec2::zero())
    };
    (landed, carried)
}

/// The particle with what the second pass gathered for it merged into its movement, if
/// it is of the second batch.
pub open spec fn merged_particle_spec(particle: Particle) -> Particle {
    if particle.batch == Batch::Two {
        Particle {
            movement: merged_spec(particle.movement, particle.movement_batch2),
            movement_batch2: MovementBatch2(Vec2::zero_spec()),
            ..particle
        }
    } else {
        particle
    }
}

/// The particles after the merge.
pub open spec fn after_merge_spec(particles: Seq<Particle>) -> Seq<Particle> {
    particles.map_values(|particle: Particle| merged_particle_spec(particle))
}

/// Merges what the second force pass gathered into the movement of each particle of the
/// second batch, and empties the accumulator of the pass.
pub fn merge_speed(particles: &mut Vec<Particle>)
    ensures
        final(particles)@ == after_merge_spec(old(particles)@),
{
    let ghost before = particles@;
    let mut index: usize = 0;
    while index < particles.len()
        invariant
            index <= particles@.len(),
            particles@.len() == before.len(),
            forall|done: int|
                0 <= done < index ==> #[trigger] particles@[done] == merged_particle_spec(before[done]),
            forall|ahead: int| index <= ahead < before.len() ==> #[trigger] particles@[ahead] == before[ahead],
        decreases particles@.len() - index,
    {
        let mut particle: Particle = particles[index];
        match particle.batch {
            Batch::Two => {
                particle.movement.add(particle.movement_batch2.0);
                particle.movement_batch2 = MovementBatch2::default();
                particles[index] = particle;
            },
            Batch::One => {},
        }
        index += 1;
    }
    assert(particles@ =~= after_merge_spec(before));
}

/// The particle with its movement clamped for the integrator.
pub open spec fn clamped_particle_spec(inertia: Inertia, particle: Particle) -> Particle {
    Particle { movement: clamped_spec(inertia, particle.movement), ..particle }
}

/// The gizmo with its movement, if it has one, clamped for the integrator.
pub open spec fn clamped_gizmo_spec(inertia: Inertia, gizmo: PlacedGizmo) -> PlacedGizmo {
    match gizmo.movement {
        Some(movement) => PlacedGizmo { movement: Some(clamped_spec(inertia, movement)), ..gizmo },
        None => gizmo,
    }
}

/// The particles with their movements clamped.
pub open spec fn clamped_particles_spec(inertia: Inertia, particles: Seq<Particle>) -> Seq<Particle> {
    particles.map_values(|particle: Particle| clamped_particle_spec(inertia, particle))
}

/// The gizmos with their movements clamped.
pub open spec fn clamped_gizmos_spec(inertia: Inertia, gizmos: Seq<PlacedGizmo>) -> Seq<
    PlacedGizmo,
> {
    gizmos.map_values(|gizmo: PlacedGizmo| clamped_gizmo_spec(inertia, gizmo))
}

/// While inertia is off, shortens every movement that is longer than [`MAX_STEP`] to
/// that length; while it is on, changes nothing.
pub fn clamp_speed(inertia: &Inertia, particles: &mut Vec<Particle>, gizmos: &mut Vec<PlacedGizmo>)
    ensures
        final(particles)@ == clamped_particles_spec(*inertia, old(particles)@),
        final(gizmos)@ == clamped_gizmos_spec(*inertia, old(gizmos)@),
        !inertia.0 ==> forall|index: int|
            0 <= index < final(particles)@.len() ==> (#[trigger] final(particles)@[index])
                .movement.0.length_squared_spec() <= MAX_STEP * MAX_STEP,
{
    let ghost before = particles@;
    let mut index: usize = 0;
    while index < particles.len()
        invariant
            index <= particles@.len(),
            particles@.len() == before.len(),
            forall|done: int|
                0 <= done < index ==> {
                    &&& #[trigger] particles@[done] == clamped_particle_spec(*inertia, before[done])
                    &&& !inertia.0 ==> particles@[done].movement.0.length_squared_spec() <= MAX_STEP
                        * MAX_STEP
                },
            forall|ahead: int| index <= ahead < before.len() ==> #[trigger] particles@[ahead] == before[ahead],
        decreases particles@.len() - index,
    {
        let particle: Particle = particles[index];
        particles[index] = Particle { movement: clamp_movement(inertia, particle.movement), ..particle };
        index += 1;
    }
    assert(particles@ =~= clamped_particles_spec(*inertia, before));
    let ghost placed = gizmos@;
    index = 0;
    while index < gizmos.len()
        invariant
            index <= gizmos@.len(),
            gizmos@.len() == placed.len(),
            forall|done: int|
                0 <= done < index ==> #[trigger] gizmos@[done] == clamped_gizmo_spec(
                    *inertia,
                    placed[done],
                ),
            forall|ahead: int| index <= ahead < placed.len() ==> #[trigger] gizmos@[ahead] == placed[ahead],
        decreases gizmos@.len() - index,
    {
        let gizmo: PlacedGizmo = gizmos[index];
        match gizmo.movement {
            Some(movement) => {
                gizmos[index] = PlacedGizmo {
                    movement: Some(clamp_movement(inertia, movement)),
                    ..gizmo
                };
            },
            None => {},
        }
        index += 1;
    }
    assert(gizmos@ =~= clamped_gizmos_spec(*inertia, placed));
}

/// The particle after integration.
pub open spec fn moved_particle_spec(extent: Vec2, inertia: Inertia, particle: Particle) -> Particle {
    Particle {
        position: landed_spec(extent, inertia, particle.position, particle.movement),
        movement: carried_spec(inertia, particle.movement),
        ..particle
    }
}

/// The gizmo after integration, if it moves.
pub open spec fn moved_gizmo_spec(extent: Vec2, inertia: Inertia, gizmo: PlacedGizmo) -> PlacedGizmo {
    match gizmo.movement {
        Some(movement) => PlacedGizmo {
            position: landed_spec(extent, inertia, gizmo.position, movement),
            movement: Some(carried_spec(inertia, movement)),
            ..gizmo
        },
        None => gizmo,
    }
}

/// The particles after integration.
pub open spec fn moved_particles_spec(
    extent: Vec2,
    inertia: Inertia,
    particles: Seq<Particle>,
) -> Seq<Particle> {
    particles.map_values(|particle: Particle| moved_particle_spec(extent, inertia, particle))
}

/// The gizmos after integration.
pub open spec fn moved_gizmos_spec(
    extent: Vec2,
    inertia: Inertia,
    gizmos: Seq<PlacedGizmo>,
) -> Seq<PlacedGizmo> {
    gizmos.map_values(|gizmo: PlacedGizmo| moved_gizmo_spec(extent, inertia, gizmo))
}

/// Moves everything that has a movement.
///
/// While inertia is off the whole movement is applied and then emptied; while it is on
/// a hundred-and-twentieth of it is applied and all of it is kept. Every position is then
/// wrapped onto the plane: each particle ends the call within the extent on both axes.
pub fn apply_movement(
    window_dimensions: &WindowDimensions,
    inertia: &Inertia,
    particles: &mut Vec<Particle>,
    gizmos: &mut Vec<PlacedGizmo>,
)
    ensures
        final(particles)@ == moved_particles_spec(
            window_dimensions.extent(),
            *inertia,
            old(particles)@,
        ),
        final(gizmos)@ == moved_gizmos_spec(window_dimensions.extent(), *inertia, old(gizmos)@),
        forall|index: int|
            0 <= index < final(particles)@.len() ==> {
                &&& 0 <= (#[trigger] final(particles)@[index]).position.x
                    < window_dimensions.extent().x
                &&& 0 <= final(particles)@[index].position.y < window_dimensions.extent().y
            },
{
    let ghost extent = window_dimensions.extent();
    let ghost before = particles@;
    let mut index: usize = 0;
    while index < particles.len()
        invariant
            index <= particles@.len(),
            particles@.len() == before.len(),
            extent == window_dimensions.extent(),
            forall|done: int|
                0 <= done < index ==> {
                    &&& #[trigger] particles@[done] == moved_particle_spec(
                        extent,
                        *inertia,
                        before[done],
                    )
                    &&& 0 <= particles@[done].position.x < extent.x
                    &&& 0 <= particles@[done].position.y < extent.y
                },
            forall|ahead: int| index <= ahead < before.len() ==> #[trigger] particles@[ahead] == before[ahead],
        decreases particles@.len() - index,
    {
        let particle: Particle = particles[index];
        let moved: (Vec2, Movement) = integrate(
            window_dimensions,
            inertia,
            particle.position,
            particle.movement,
        );
        particles[index] = Particle { position: moved.0, movement: moved.1, ..particle };
        index += 1;
    }
    assert(particles@ =~= moved_particles_spec(extent, *inertia, before));
    let ghost placed = gizmos@;
    index = 0;
    while index < gizmos.len()
        invariant
            index <= gizmos@.len(),
            gizmos@.len() == placed.len(),
            extent == window_dimensions.extent(),
            forall|done: int|
                0 <= done < index ==> #[trigger] gizmos@[done] == moved_gizmo_spec(
                    extent,
                    *inertia,
                    placed[done],
                ),
            forall|ahead: int| index <= ahead < placed.len() ==> #[trigger] gizmos@[ahead] == placed[ahead],
        decreases gizmos@.len() - index,
    {
        let gizmo: PlacedGizmo = gizmos[index];
        match gizmo.movement {
            Some(movement) => {
                let moved: (Vec2, Movement) = integrate(
                    window_dimensions,
                    inertia,
                    gizmo.position,
                    movement,
                );
                gizmos[index] = PlacedGizmo {
                    position: moved.0,
                    movement: Some(moved.1),
                    ..gizmo
                };
            },
            None => {},
        }
        index += 1;
    }
    assert(gizmos@ =~= moved_gizmos_spec(extent, *inertia, placed));
}

} // verus!
