//! Attractors and repulsors: fields that pull every particle in, or push it away.

use vstd::prelude::*;
use crate::force::{calculate_force, force_spec, per_tick, per_tick_spec};
use crate::gizmos::{GizmoComponent, PlacedGizmo};
use crate::movement::{Movement, MovementTrait};
use crate::particle::Particle;
use crate::topology::{force_wrap, force_wrap_spec, offset_2d, offset_2d_spec, WindowDimensions, WrappingForce};
use crate::vector::{Vec2, UNIT, UNIT_ROOT};

verus! {

/// The pull of an attractor one step away.
pub const ATTRACTOR_FORCE: i64 = 10_000 * UNIT * UNIT;

/// The power of the distance that an attractor's pull fades by, in quarters: the power of
/// one. A pull that fades a little faster, by a power of about 1.05, cannot be had:
/// powers are counted in quarters, and this is the nearest.
pub const ATTRACTOR_FALL_OFF: u32 = 4;

/// Nearer than this, an attractor pulls as if it were this far away.
pub const ATTRACTOR_PROXIMITY_CAP: i64 = 10 * UNIT;

/// The push of a repulsor one step away; negative, as it points away from the repulsor.
pub const REPULSOR_FORCE: i64 = -30_000 * UNIT * UNIT * UNIT_ROOT;

/// The power of the distance that a repulsor's push fades by, in quarters.
pub const REPULSOR_FALL_OFF: u32 = 6;

/// Nearer than this, a repulsor pushes as if it were this far away.
pub const REPULSOR_PROXIMITY_CAP: i64 = 2 * UNIT;

/// A field around a point. A positive force pulls towards the point, a negative one
/// pushes away from it.
#[derive(Clone, Copy, Debug, PartialEq, Eq, Structural)]
pub struct Attractor {
    /// The force one step away.
    pub force: i64,
    /// The power of the distance that the force fades by, in quarters.
    pub fall_off: u32,
    pub proximity_cap: i64,
}

impl Attractor {
    /// A field that pushes away.
    pub fn repulsor() -> (attractor: Attractor)
        ensures
            attractor == (Attractor {
                force: REPULSOR_FORCE,
                fall_off: REPULSOR_FALL_OFF,
                proximity_cap: REPULSOR_PROXIMITY_CAP,
            }),
    {
        Attractor {
            force: REPULSOR_FORCE,
            fall_off: REPULSOR_FALL_OFF,
            proximity_cap: REPULSOR_PROXIMITY_CAP,
        }
    }
}

impl Default for Attractor {
    /// A field that pulls in.
    fn default() -> (attractor: Attractor)
        ensures
            attractor == (Attractor {
                force: ATTRACTOR_FORCE,
                fall_off: ATTRACTOR_FALL_OFF,
                proximity_cap: ATTRACTOR_PROXIMITY_CAP,
            }),
    {
        Attractor {
            force: ATTRACTOR_FORCE,
            fall_off: ATTRACTOR_FALL_OFF,
            proximity_cap: ATTRACTOR_PROXIMITY_CAP,
        }
    }
}

/// The field of the gizmo, if it has one.
pub open spec fn field_spec(gizmo: PlacedGizmo) -> Option<Attractor> {
    match gizmo.component {
        GizmoComponent::Attractor(attractor) => Some(attractor),
        GizmoComponent::Repulsor(attractor) => Some(attractor),
        _ => None,
    }
}

/// What the field of `gizmo`, if it has one, adds in one tick to the movement of a
/// particle at `position`.
pub open spec fn attractor_pull_spec(gizmo: PlacedGizmo, position: Vec2, wrap: Option<Vec2>) -> Vec2 {
    match field_spec(gizmo) {
        Some(attractor) => per_tick_spec(
            force_spec(
                attractor.force,
                attractor.proximity_cap,
                attractor.fall_off,
                offset_2d_spec(gizmo.position, position, wrap),
            ),
        ),
        None => Vec2::zero_spec(),
    }
}

/// Whether the gizmo has a field.
pub open spec fn is_attractor_spec(gizmo: PlacedGizmo) -> bool {
    field_spec(gizmo) is Some
}

/// The movement of a particle once the fields among the first `upto` gizmos have pulled
/// at it, in their order.
pub open spec fn attracted_spec(
    gizmos: Seq<PlacedGizmo>,
    particle: Particle,
    wrap: Option<Vec2>,
    upto: int,
) -> Movement
    decreases upto,
{
    if upto <= 0 {
        particle.movement
    } else {
        let before = attracted_spec(gizmos, particle, wrap, upto - 1);
        if is_attractor_spec(gizmos[upto - 1]) {
            Movement(
                before.0.sum_spec(attractor_pull_spec(gizmos[upto - 1], particle.position, wrap)),
            )
        } else {
            before
        }
    }
}

/// The particles after every field has pulled at them.
pub open spec fn after_attractors_spec(
    gizmos: Seq<PlacedGizmo>,
    particles: Seq<Particle>,
    wrap: Option<Vec2>,
) -> Seq<Particle> {
    particles.map_values(
        |particle: Particle|
            Particle {
                movement: attracted_spec(gizmos, particle, wrap, gizmos.len() as int),
                ..particle
            },
    )
}

/// Every attractor and every repulsor pulls at every particle for one tick.
pub fn activate_attractors(
    window_dimensions: &WindowDimensions,
    wrapping: &WrappingForce,
    gizmos: &Vec<PlacedGizmo>,
    particles: &mut Vec<Particle>,
)
    ensures
        final(particles)@ == after_attractors_spec(
            gizmos@,
            old(particles)@,
            force_wrap_spec(*wrapping, *window_dimensions),
        ),
{
    let wrap: Option<Vec2> = force_wrap(wrapping, window_dimensions);
    let ghost before = particles@;
    let count: usize = particles.len();
    let mut source: usize = 0;
    while source < gizmos.len()
        invariant
            source <= gizmos@.len(),
            particles@.len() == count,
            before.len() == count,
            forall|index: int|
                0 <= index < count ==> #[trigger] particles@[index] == (Particle {
                    movement: attracted_spec(gizmos@, before[index], wrap, source as int),
                    ..before[index]
                }),
        decreases gizmos@.len() - source,
    {
        let gizmo: PlacedGizmo = gizmos[source];
        let field: Option<Attractor> = match gizmo.component {
            GizmoComponent::Attractor(attractor) => Some(attractor),
            GizmoComponent::Repulsor(attractor) => Some(attractor),
            _ => None,
        };
        match field {
            Some(attractor) => {
                let mut target: usize = 0;
                while target < count
                    invariant
                        source < gizmos@.len(),
                        target <= count,
                        particles@.len() == count,
                        before.len() == count,
                        gizmo == gizmos@[source as int],
                        field_spec(gizmo) == Some(attractor),
                        forall|index: int|
                            0 <= index < count ==> #[trigger] particles@[index] == (Particle {
                                movement: attracted_spec(
                                    gizmos@,
                                    before[index],
                                    wrap,
                                    if index < target {
                                        source + 1
                                    } else {
                                        source as int
                                    },
                                ),
                                ..before[index]
                            }),
                    decreases count - target,
                {
                    let mut particle: Particle = particles[target];
                    let force: Vec2 = per_tick(
                        calculate_force(
                            attractor.force,
                            attractor.proximity_cap,
                            attractor.fall_off,
                            offset_2d(gizmo.position, particle.position, wrap),
                        ),
                    );
                    particle.movement.add(force);
                    particles[target] = particle;
                    target += 1;
                }
            },
            None => {},
        }
        source += 1;
    }
    assert(particles@ =~= after_attractors_spec(gizmos@, before, wrap));
}

} // verus!
