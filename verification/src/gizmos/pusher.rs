//! Pushers: rectangular zones, turned as the user placed them, that push every particle
//! inside along their forward axis.

use vstd::prelude::*;
use crate::gizmos::{GizmoComponent, PlacedGizmo};
use crate::movement::{Movement, MovementTrait};
use crate::particle::Particle;
use crate::vector::{abs_spec, Vec2, UNIT};

verus! {

/// Half the length of a pusher's zone, along its forward axis.
pub const PUSHER_HALF_LENGTH: i64 = 200 * UNIT;

/// Half the width of a pusher's zone, across its forward axis.
pub const PUSHER_HALF_WIDTH: i64 = 100 * UNIT;

/// How many units a pusher moves a particle in a tick.
pub const PUSH_SPEED: i64 = 3;

/// Marks a gizmo as a pusher. Its zone is turned by the rotation of the gizmo.
#[derive(Clone, Copy, Debug, Default, PartialEq, Eq, Structural)]
pub struct Pusher;

/// Whether a particle at `particle` is in the zone of a pusher at `pusher` that heads
/// along `direction`: seen from the pusher, turned back by its rotation, the particle is
/// no farther than half the length along the forward axis and half the width across it.
/// The offset is the plain one, not the wrap-aware.
pub open spec fn in_zone_spec(pusher: Vec2, direction: Vec2, particle: Vec2) -> bool {
    let offset = pusher.difference_spec(particle);
    let along = offset.x * direction.x + offset.y * direction.y;
    let across = offset.y * direction.x - offset.x * direction.y;
    abs_spec(along) <= PUSHER_HALF_LENGTH * UNIT && abs_spec(across) <= PUSHER_HALF_WIDTH * UNIT
}

/// What a pusher that heads along `direction` adds to a movement in one tick.
pub open spec fn push_spec(direction: Vec2) -> Vec2 {
    Vec2 { x: (PUSH_SPEED * direction.x) as i64, y: (PUSH_SPEED * direction.y) as i64 }
}

/// Whether the gizmo is a pusher that has been placed and has the particle in its zone.
pub open spec fn pushes_spec(gizmo: PlacedGizmo, position: Vec2) -> bool {
    &&& gizmo.component is Pusher
    &&& !gizmo.being_placed
    &&& in_zone_spec(gizmo.position, gizmo.rotation.direction(), position)
}

/// The movement of a particle once the pushers among the first `upto` gizmos have pushed
/// it, in their order.
pub open spec fn pushed_spec(gizmos: Seq<PlacedGizmo>, particle: Particle, upto: int) -> Movement
    decreases upto,
{
    if upto <= 0 {
        particle.movement
    } else {
        let before = pushed_spec(gizmos, particle, upto - 1);
        if pushes_spec(gizmos[upto - 1], particle.position) {
            Movement(before.0.sum_spec(push_spec(gizmos[upto - 1].rotation.direction())))
        } else {
            before
        }
    }
}

/// The particles after every pusher has pushed them.
pub open spec fn after_pushers_spec(gizmos: Seq<PlacedGizmo>, particles: Seq<Particle>) -> Seq<
    Particle,
> {
    particles.map_values(
        |particle: Particle|
            Particle { movement: pushed_spec(gizmos, particle, gizmos.len() as int), ..particle },
    )
}

/// Whether a particle at `particle` is in the zone of a pusher at `pusher`.
fn in_zone(pusher: Vec2, direction: Vec2, particle: Vec2) -> (inside: bool)
    requires
        -UNIT <= direction.x <= UNIT,
        -UNIT <= direction.y <= UNIT,
    ensures
        inside == in_zone_spec(pusher, direction, particle),
{
    let offset: Vec2 = pusher.saturating_sub(particle);
    let ox: i128 = offset.x as i128;
    let oy: i128 = offset.y as i128;
    let dx: i128 = direction.x as i128;
    let dy: i128 = direction.y as i128;
    assert(-0x8000_0000_0000_0000 * 65_536 <= ox * dx <= 0x8000_0000_0000_0000 * 65_536
        && -0x8000_0000_0000_0000 * 65_536 <= oy * dy <= 0x8000_0000_0000_0000 * 65_536
        && -0x8000_0000_0000_0000 * 65_536 <= oy * dx <= 0x8000_0000_0000_0000 * 65_536
        && -0x8000_0000_0000_0000 * 65_536 <= ox * dy <= 0x8000_0000_0000_0000 * 65_536)
        by (nonlinear_arith)
        requires
            -0x8000_0000_0000_0000 <= ox <= 0x8000_0000_0000_0000,
            -0x8000_0000_0000_0000 <= oy <= 0x8000_0000_0000_0000,
            -65_536 <= dx <= 65_536,
            -65_536 <= dy <= 65_536,
    ;
    let along: i128 = ox * dx + oy * dy;
    let across: i128 = oy * dx - ox * dy;
    assert(UNIT == 65_536 && PUSHER_HALF_LENGTH == 13_107_200 && PUSHER_HALF_WIDTH == 6_553_600);
    let length: i128 = (PUSHER_HALF_LENGTH as i128) * 65_536;
    let width: i128 = (PUSHER_HALF_WIDTH as i128) * 65_536;
    -length <= along && along <= length && -width <= across && across <= width
}

/// Every placed pusher pushes every particle in its zone, by [`PUSH_SPEED`] units along
/// its heading.
pub fn activate_pushers(gizmos: &Vec<PlacedGizmo>, particles: &mut Vec<Particle>)
    ensures
        final(particles)@ == after_pushers_spec(gizmos@, old(particles)@),
{
    let ghost before = particles@;
    let count: usize = particles.len();
    let mut target: usize = 0;
    while target < count
        invariant
            target <= count,
            particles@.len() == count,
            before.len() == count,
            forall|index: int|
                0 <= index < target ==> #[trigger] particles@[index] == (Particle {
                    movement: pushed_spec(gizmos@, before[index], gizmos@.len() as int),
                    ..before[index]
                }),
            forall|index: int| target <= index < count ==> #[trigger] particles@[index] == before[index],
        decreases count - target,
    {
        let mut particle: Particle = particles[target];
        let mut source: usize = 0;
        while source < gizmos.len()
            invariant
                source <= gizmos@.len(),
                target < count,
                before.len() == count,
                particle == (Particle {
                    movement: pushed_spec(gizmos@, before[target as int], source as int),
                    ..before[target as int]
                }),
            decreases gizmos@.len() - source,
        {
            let gizmo: PlacedGizmo = gizmos[source];
            match gizmo.component {
                GizmoComponent::Pusher(_) => {
                    let direction: Vec2 = gizmo.rotation.get();
                    if !gizmo.being_placed && in_zone(gizmo.position, direction, particle.position) {
                        particle.movement.add(
                            Vec2 { x: PUSH_SPEED * direction.x, y: PUSH_SPEED * direction.y },
                        );
                    }
                },
                _ => {},
            }
            source += 1;
        }
        particles[target] = particle;
        target += 1;
    }
    assert(particles@ =~= after_pushers_spec(gizmos@, before));
}

} // verus!
