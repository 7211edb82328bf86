//! Eaters: gizmos that chase particles of the opposite charge, eat those that come near,
//! and, once full, give back what they ate and rest.

use vstd::prelude::*;
use crate::force::{calculate_force, force_spec, per_tick, per_tick_spec};
use crate::draw_properties::{gizmo_draw_properties, gizmo_draw_properties_spec};
use crate::gizmos::{GizmoComponent, GizmoType, PlacedGizmo};
use crate::movement::{Movement, MovementTrait};
use crate::particle::{Cancelled, Particle};
use crate::time::{SECOND, TIMESTEP};
use crate::topology::{
    find_nearest_within_radius, lemma_nearest_is_first_minimum, nearest_within_radius_spec,
    wrapping_offset_2d, wrapping_offset_2d_spec, WindowDimensions,
};
use crate::vector::{Vec2, UNIT, UNIT_LENGTH, UNIT_ROOT};

verus! {

/// How near a particle must come to an eater to be eaten.
pub const EATER_RADIUS: u64 = 20 * UNIT_LENGTH;

/// How far from a full eater the particles that it gives back appear.
pub const BURST_RADIUS: u64 = 25 * UNIT_LENGTH;

/// How large an eater would be drawn with its target reached, in steps to the unit, as a
/// multiple of its size when empty. It never is: a full eater shrinks.
pub const EATER_FULL_SCALE: u64 = 2 * UNIT_LENGTH;

/// The pull of a particle, one step away, on an eater that chases it.
pub const BASE_PURSUIT_FORCE: i64 = 5_000 * UNIT * UNIT * UNIT_ROOT;

/// Nearer than this, a particle pulls at an eater as if it were this far away.
pub const PURSUIT_PROXIMITY_CAP: i64 = 5 * UNIT;

/// The power of the distance that the pull on an eater fades by, in quarters: shallower
/// than the force between particles.
pub const PURSUIT_POWER: u32 = 6;

/// How long a full eater rests: ten seconds.
pub const DORMANCY: u64 = 10 * SECOND;

/// How many particles an eater eats before it is full, unless it is made with another
/// target.
pub const EATER_TARGET: u8 = 10;

/// Counts what an eater has eaten.
#[derive(Clone, Copy, Debug, PartialEq, Eq, Structural)]
pub struct Eater {
    pub eaten: u8,
    pub target: u8,
}

impl Eater {
    /// Whether the eater has eaten as much as it can hold.
    pub open spec fn is_full_spec(self) -> bool {
        self.eaten >= self.target
    }

    /// An eater that has eaten nothing.
    pub fn new(target: u8) -> (eater: Eater)
        ensures
            eater == (Eater { eaten: 0, target }),
    {
        Eater { eaten: 0, target }
    }

    /// Whether the eater has eaten as much as it can hold.
    pub fn is_full(&self) -> (full: bool)
        ensures
            full == self.is_full_spec(),
    {
        self.eaten >= self.target
    }

    /// How large the eater is drawn, as a multiple of its size, in steps to the unit:
    /// half while it is full; else between one and [`EATER_FULL_SCALE`], by the share of
    /// its target that it has eaten.
    pub open spec fn scale_spec(self) -> u64 {
        if self.is_full_spec() {
            (UNIT / 2) as u64
        } else {
            (UNIT + self.eaten * (EATER_FULL_SCALE - UNIT) / (self.target as int)) as u64
        }
    }

    /// How large the eater is drawn, as a multiple of its size, in steps to the unit.
    pub fn scale(&self) -> (scale: u64)
        ensures
            scale == self.scale_spec(),
            scale <= EATER_FULL_SCALE,
    {
        if self.is_full() {
            (UNIT / 2) as u64
        } else {
            let eaten: u64 = self.eaten as u64;
            assert(eaten * (EATER_FULL_SCALE - UNIT) == eaten * 65_536) by (nonlinear_arith)
                requires
                    EATER_FULL_SCALE - UNIT == 65_536,
            ;
            let grown: u64 = eaten * 65_536 / (self.target as u64);
            assert(grown <= 65_536) by {
                vstd::arithmetic::div_mod::lemma_div_is_ordered(
                    (eaten * 65_536) as int,
                    65_536 * self.target,
                    self.target as int,
                );
                vstd::arithmetic::div_mod::lemma_div_by_multiple(65_536, self.target as int);
            }
            65_536 + grown
        }
    }
}

impl Default for Eater {
    fn default() -> (eater: Eater)
        ensures
            eater == (Eater { eaten: 0, target: EATER_TARGET }),
    {
        Eater::new(EATER_TARGET)
    }
}

/// Marks a gizmo that rests, with the time that it still rests for.
#[derive(Clone, Copy, Debug, PartialEq, Eq, Structural)]
pub struct Dormant(pub u64);

/// A ring of particles that a full eater gives back: `count` particles of the charge
/// `positive`, evenly spaced on a circle of `radius` around `center`.
#[derive(Clone, Copy, Debug, PartialEq, Eq, Structural)]
pub struct RingBurst {
    pub center: Vec2,
    pub radius: u64,
    pub count: u32,
    pub positive: bool,
}

/// Whether the gizmo is an eater that could eat a particle of the given charge: awake,
/// not full, and of the opposite charge.
pub open spec fn can_eat_spec(gizmo: PlacedGizmo, particle_positive: bool) -> bool {
    match gizmo.component {
        GizmoComponent::Eater(eater) => {
            &&& gizmo.dormant is None
            &&& !eater.is_full_spec()
            &&& gizmo.positive != particle_positive
        },
        _ => false,
    }
}

/// Those of the first `upto` gizmos that could eat a particle of the given charge, each
/// with its place, in their order.
pub open spec fn candidates_spec(
    gizmos: Seq<PlacedGizmo>,
    particle_positive: bool,
    upto: int,
) -> Seq<(usize, Vec2)>
    decreases upto,
{
    if upto <= 0 {
        Seq::empty()
    } else {
        let before = candidates_spec(gizmos, particle_positive, upto - 1);
        if can_eat_spec(gizmos[upto - 1], particle_positive) {
            before.push(((upto - 1) as usize, gizmos[upto - 1].position))
        } else {
            before
        }
    }
}

/// The eater that eats the particle: the nearest, within [`EATER_RADIUS`], of those that
/// could; of several equally near the first. None for a particle that is cancelled
/// already.
pub open spec fn eater_for_spec(
    extent: Vec2,
    gizmos: Seq<PlacedGizmo>,
    particle: Particle,
) -> Option<usize> {
    if particle.cancelled.0 {
        None
    } else {
        nearest_within_radius_spec(
            extent,
            particle.position,
            EATER_RADIUS,
            candidates_spec(gizmos, particle.positive, gizmos.len() as int),
        )
    }
}

/// The eater after it has eaten one more particle: full eaters start to rest.
pub open spec fn fed_spec(gizmo: PlacedGizmo) -> PlacedGizmo {
    match gizmo.component {
        GizmoComponent::Eater(eater) => {
            let fed = Eater { eaten: (eater.eaten + 1) as u8, ..eater };
            PlacedGizmo {
                component: GizmoComponent::Eater(fed),
                dormant: if fed.is_full_spec() {
                    Some(Dormant(DORMANCY))
                } else {
                    gizmo.dormant
                },
                ..gizmo
            }
        },
        _ => gizmo,
    }
}

/// What an eater gives back once it has been fed: if it is full now, as many particles of
/// its own charge as its target, in a ring around it.
pub open spec fn burst_spec(fed: PlacedGizmo) -> Option<RingBurst> {
    match fed.component {
        GizmoComponent::Eater(eater) => if eater.is_full_spec() {
            Some(
                RingBurst {
                    center: fed.position,
                    radius: BURST_RADIUS,
                    count: eater.target as u32,
                    positive: fed.positive,
                },
            )
        } else {
            None
        },
        _ => None,
    }
}

/// The gizmos, the particles and the bursts once the first `upto` particles have passed
/// the eaters, in their order. A particle that an eater eats is cancelled.
pub open spec fn after_eaters_spec(
    extent: Vec2,
    gizmos: Seq<PlacedGizmo>,
    particles: Seq<Particle>,
    upto: int,
) -> (Seq<PlacedGizmo>, Seq<Particle>, Seq<RingBurst>)
    decreases upto,
{
    if upto <= 0 {
        (gizmos, particles, Seq::empty())
    } else {
        let (fed, marked, bursts) = after_eaters_spec(extent, gizmos, particles, upto - 1);
        match eater_for_spec(extent, fed, particles[upto - 1]) {
            Some(eater) => (
                fed.update(eater as int, fed_spec(fed[eater as int])),
                marked.update(
                    upto - 1,
                    Particle { cancelled: Cancelled(true), ..particles[upto - 1] },
                ),
                match burst_spec(fed_spec(fed[eater as int])) {
                    Some(burst) => bursts.push(burst),
                    None => bursts,
                },
            ),
            None => (fed, marked, bursts),
        }
    }
}

/// The eaters that could eat a particle of the given charge, each with its place.
fn candidates(gizmos: &Vec<PlacedGizmo>, particle_positive: bool) -> (found: Vec<(usize, Vec2)>)
    ensures
        found@ == candidates_spec(gizmos@, particle_positive, gizmos@.len() as int),
        forall|at: int|
            0 <= at < found@.len() ==> {
                &&& (#[trigger] found@[at]).0 < gizmos@.len()
                &&& can_eat_spec(gizmos@[found@[at].0 as int], particle_positive)
            },
{
    let mut found: Vec<(usize, Vec2)> = Vec::new();
    let mut index: usize = 0;
    while index < gizmos.len()
        invariant
            index <= gizmos@.len(),
            found@ == candidates_spec(gizmos@, particle_positive, index as int),
            forall|at: int|
                0 <= at < found@.len() ==> {
                    &&& (#[trigger] found@[at]).0 < gizmos@.len()
                    &&& can_eat_spec(gizmos@[found@[at].0 as int], particle_positive)
                },
        decreases gizmos@.len() - index,
    {
        let gizmo: PlacedGizmo = gizmos[index];
        match gizmo.component {
            GizmoComponent::Eater(eater) => {
                if gizmo.dormant.is_none() && !eater.is_full() && gizmo.positive
                    != particle_positive {
                    found.push((index, gizmo.position));
                }
            },
            _ => {},
        }
        index += 1;
    }
    found
}

/// Lets the eaters eat.
///
/// Each particle that is not cancelled yet, in their order, is eaten by the nearest
/// eater within [`EATER_RADIUS`] that is awake, not full and of the opposite charge. The
/// particle is cancelled; the eater counts it, and if it is full with it, begins to rest
/// for [`DORMANCY`] and gives back a ring of as many particles of its own charge as its
/// target. The rings are returned in the order in which the eaters filled up;
/// [`spawn_burst`](crate::particle::spawn_burst) spawns one, whatever the particle limit.
pub fn activate_eaters(
    window_dimensions: &WindowDimensions,
    gizmos: &mut Vec<PlacedGizmo>,
    particles: &mut Vec<Particle>,
) -> (bursts: Vec<RingBurst>)
    ensures
        (final(gizmos)@, final(particles)@, bursts@) == after_eaters_spec(
            window_dimensions.extent(),
            old(gizmos)@,
            old(particles)@,
            old(particles)@.len() as int,
        ),
        final(gizmos)@.len() == old(gizmos)@.len(),
        final(particles)@.len() == old(particles)@.len(),
{
    let extent: Vec2 = window_dimensions.get();
    let ghost hungry = gizmos@;
    let ghost before = particles@;
    let mut bursts: Vec<RingBurst> = Vec::new();
    let mut index: usize = 0;
    while index < particles.len()
        invariant
            index <= particles@.len(),
            particles@.len() == before.len(),
            gizmos@.len() == hungry.len(),
            forall|ahead: int| index <= ahead < before.len() ==> #[trigger] particles@[ahead] == before[ahead],
            (gizmos@, particles@, bursts@) == after_eaters_spec(extent, hungry, before, index as int),
        decreases particles@.len() - index,
    {
        let particle: Particle = particles[index];
        if !particle.cancelled.0 {
            let near: Vec<(usize, Vec2)> = candidates(gizmos, particle.positive);
            let nearest: Option<usize> = find_nearest_within_radius(
                extent,
                particle.position,
                EATER_RADIUS,
                &near,
            );
            proof {
                lemma_nearest_is_first_minimum(extent, particle.position, EATER_RADIUS, near@);
            }
            match nearest {
                Some(eater) => {
                    let gizmo: PlacedGizmo = gizmos[eater];
                    match gizmo.component {
                        GizmoComponent::Eater(state) => {
                            let fed: Eater = Eater { eaten: state.eaten + 1, ..state };
                            let full: bool = fed.is_full();
                            gizmos[eater] = PlacedGizmo {
                                component: GizmoComponent::Eater(fed),
                                dormant: if full {
                                    Some(Dormant(DORMANCY))
                                } else {
                                    gizmo.dormant
                                },
                                ..gizmo
                            };
                            particles[index] = Particle { cancelled: Cancelled(true), ..particle };
                            if full {
                                bursts.push(
                                    RingBurst {
                                        center: gizmo.position,
                                        radius: BURST_RADIUS,
                                        count: fed.target as u32,
                                        positive: gizmo.positive,
                                    },
                                );
                            }
                        },
                        _ => {},
                    }
                },
                None => {},
            }
        }
        index += 1;
    }
    bursts
}

/// What a particle adds in one tick to the movement of an eater that chases it: a pull
/// towards the particle, by the pursuit force law on the wrap-aware offset.
pub open spec fn pursuit_spec(extent: Vec2, eater: Vec2, particle: Vec2) -> Vec2 {
    per_tick_spec(
        force_spec(
            BASE_PURSUIT_FORCE,
            PURSUIT_PROXIMITY_CAP,
            PURSUIT_POWER,
            wrapping_offset_2d_spec(eater, particle, extent),
        ),
    ).negated_spec()
}

/// Whether the gizmo is an eater that chases: one that is awake and can move.
pub open spec fn chases_spec(gizmo: PlacedGizmo) -> bool {
    &&& gizmo.component is Eater
    &&& gizmo.dormant is None
    &&& gizmo.movement is Some
}

/// The movement of a chasing eater once those of the first `upto` particles that are of
/// the opposite charge have pulled at it, in their order.
pub open spec fn chasing_spec(
    extent: Vec2,
    gizmo: PlacedGizmo,
    particles: Seq<Particle>,
    upto: int,
) -> Movement
    decreases upto,
{
    if upto <= 0 {
        gizmo.movement->0
    } else {
        let before = chasing_spec(extent, gizmo, particles, upto - 1);
        if particles[upto - 1].positive != gizmo.positive {
            Movement(before.0.sum_spec(pursuit_spec(extent, gizmo.position, particles[upto - 1].position)))
        } else {
            before
        }
    }
}

/// The gizmo after a tick of chasing, if it is an eater that chases.
pub open spec fn chased_spec(extent: Vec2, gizmo: PlacedGizmo, particles: Seq<Particle>) -> PlacedGizmo {
    if chases_spec(gizmo) {
        PlacedGizmo {
            movement: Some(chasing_spec(extent, gizmo, particles, particles.len() as int)),
            ..gizmo
        }
    } else {
        gizmo
    }
}

/// The gizmos after a tick of chasing.
pub open spec fn after_chasing_spec(
    extent: Vec2,
    gizmos: Seq<PlacedGizmo>,
    particles: Seq<Particle>,
) -> Seq<PlacedGizmo> {
    gizmos.map_values(|gizmo: PlacedGizmo| chased_spec(extent, gizmo, particles))
}

/// Every eater that is awake is pulled towards every particle of the opposite charge,
/// cancelled or not, for one tick.
pub fn eaters_chasing_particles(
    window_dimensions: &WindowDimensions,
    gizmos: &mut Vec<PlacedGizmo>,
    particles: &Vec<Particle>,
)
    ensures
        final(gizmos)@ == after_chasing_spec(
            window_dimensions.extent(),
            old(gizmos)@,
            particles@,
        ),
{
    let extent: Vec2 = window_dimensions.get();
    let ghost before = gizmos@;
    let mut index: usize = 0;
    while index < gizmos.len()
        invariant
            index <= gizmos@.len(),
            gizmos@.len() == before.len(),
            forall|done: int|
                0 <= done < index ==> #[trigger] gizmos@[done] == chased_spec(
                    extent,
                    before[done],
                    particles@,
                ),
            forall|ahead: int| index <= ahead < before.len() ==> #[trigger] gizmos@[ahead] == before[ahead],
        decreases gizmos@.len() - index,
    {
        let gizmo: PlacedGizmo = gizmos[index];
        match (gizmo.component, gizmo.dormant, gizmo.movement) {
            (GizmoComponent::Eater(_), None, Some(start)) => {
                let mut movement: Movement = start;
                let mut source: usize = 0;
                while source < particles.len()
                    invariant
                        source <= particles@.len(),
                        gizmo.movement == Some(start),
                        movement == chasing_spec(extent, gizmo, particles@, source as int),
                    decreases particles@.len() - source,
                {
                    let particle: Particle = particles[source];
                    if particle.positive != gizmo.positive {
                        let force: Vec2 = per_tick(
                            calculate_force(
                                BASE_PURSUIT_FORCE,
                                PURSUIT_PROXIMITY_CAP,
                                PURSUIT_POWER,
                                wrapping_offset_2d(gizmo.position, particle.position, extent),
                            ),
                        );
                        movement.add(force.saturating_neg());
                    }
                    source += 1;
                }
                gizmos[index] = PlacedGizmo { movement: Some(movement), ..gizmo };
            },
            _ => {},
        }
        index += 1;
    }
    assert(gizmos@ =~= after_chasing_spec(extent, before, particles@));
}

/// The size at which an eater is drawn when it is empty: that of the positive variant,
/// for both.
pub open spec fn eater_size_spec() -> u64 {
    gizmo_draw_properties_spec(GizmoType::Eater, true).size
}

/// The gizmo drawn at the scale that its eater calls for, if it is an eater.
pub open spec fn scaled_spec(gizmo: PlacedGizmo) -> PlacedGizmo {
    match gizmo.component {
        GizmoComponent::Eater(eater) => PlacedGizmo {
            scale: (eater_size_spec() * eater.scale_spec() / UNIT_LENGTH as int) as u64,
            ..gizmo
        },
        _ => gizmo,
    }
}

/// The gizmos with every eater at the scale that it calls for.
pub open spec fn after_eater_scale_spec(gizmos: Seq<PlacedGizmo>) -> Seq<PlacedGizmo> {
    gizmos.map_values(|gizmo: PlacedGizmo| scaled_spec(gizmo))
}

/// Sets the scale at which each eater is drawn: it swells as it fills, and shrinks to
/// half its size while it is full.
pub fn apply_eater_scale(gizmos: &mut Vec<PlacedGizmo>)
    ensures
        final(gizmos)@ == after_eater_scale_spec(old(gizmos)@),
{
    let ghost before = gizmos@;
    let mut index: usize = 0;
    while index < gizmos.len()
        invariant
            index <= gizmos@.len(),
            gizmos@.len() == before.len(),
            forall|done: int| 0 <= done < index ==> #[trigger] gizmos@[done] == scaled_spec(before[done]),
            forall|ahead: int| index <= ahead < before.len() ==> #[trigger] gizmos@[ahead] == before[ahead],
        decreases gizmos@.len() - index,
    {
        let gizmo: PlacedGizmo = gizmos[index];
        match gizmo.component {
            GizmoComponent::Eater(eater) => {
                let size: u64 = gizmo_draw_properties(GizmoType::Eater, true).size;
                let factor: u64 = eater.scale();
                assert(size * factor <= 655_360 * 131_072) by (nonlinear_arith)
                    requires
                        size == 655_360,
                        factor <= 131_072,
                ;
                gizmos[index] = PlacedGizmo { scale: size * factor / UNIT_LENGTH, ..gizmo };
            },
            _ => {},
        }
        index += 1;
    }
    assert(gizmos@ =~= after_eater_scale_spec(before));
}

/// The gizmo after a tick of rest, if it is an eater that rests: awake and empty where
/// the rest is over with this tick, else with a tick less to rest.
pub open spec fn rested_spec(gizmo: PlacedGizmo) -> PlacedGizmo {
    match (gizmo.component, gizmo.dormant) {
        (GizmoComponent::Eater(eater), Some(dormant)) => if dormant.0 <= TIMESTEP {
            PlacedGizmo {
                component: GizmoComponent::Eater(Eater { eaten: 0, ..eater }),
                dormant: None,
                ..gizmo
            }
        } else {
            PlacedGizmo { dormant: Some(Dormant((dormant.0 - TIMESTEP) as u64)), ..gizmo }
        },
        _ => gizmo,
    }
}

/// The gizmo after `ticks` ticks of rest.
pub open spec fn rested_many_spec(gizmo: PlacedGizmo, ticks: nat) -> PlacedGizmo
    decreases ticks,
{
    if ticks == 0 {
        gizmo
    } else {
        rested_spec(rested_many_spec(gizmo, (ticks - 1) as nat))
    }
}

/// An eater rests for as long as it has been told to, and not a tick longer: with a rest
/// of `rest` before it, it is still resting after `ticks` ticks, with the ticks counted
/// off, while they make up less than `rest`; from the tick that makes up `rest` on, it
/// is awake and empty. A rest of [`DORMANCY`] ends with the six-hundredth tick.
pub proof fn lemma_rest_ends_on_time(gizmo: PlacedGizmo, eater: Eater, rest: u64, ticks: nat)
    requires
        gizmo.component == GizmoComponent::Eater(eater),
        gizmo.dormant == Some(Dormant(rest)),
        rest > 0,
    ensures
        ticks * TIMESTEP < rest ==> rested_many_spec(gizmo, ticks) == (PlacedGizmo {
            dormant: Some(Dormant((rest - ticks * TIMESTEP) as u64)),
            ..gizmo
        }),
        ticks * TIMESTEP >= rest ==> rested_many_spec(gizmo, ticks) == (PlacedGizmo {
            component: GizmoComponent::Eater(Eater { eaten: 0, ..eater }),
            dormant: None,
            ..gizmo
        }),
    decreases ticks,
{
    if ticks > 0 {
        lemma_rest_ends_on_time(gizmo, eater, rest, (ticks - 1) as nat);
        assert(ticks * TIMESTEP == (ticks - 1) * TIMESTEP + TIMESTEP) by (nonlinear_arith);
    } else {
        assert(0 * TIMESTEP == 0) by (nonlinear_arith);
    }
}

/// The gizmos after a tick of rest.
pub open spec fn after_rest_spec(gizmos: Seq<PlacedGizmo>) -> Seq<PlacedGizmo> {
    gizmos.map_values(|gizmo: PlacedGizmo| rested_spec(gizmo))
}

/// Counts down the rest of every eater that rests; one whose rest is over wakes up
/// empty.
pub fn process_dormant_eaters(gizmos: &mut Vec<PlacedGizmo>)
    ensures
        final(gizmos)@ == after_rest_spec(old(gizmos)@),
{
    let ghost before = gizmos@;
    let mut index: usize = 0;
    while index < gizmos.len()
        invariant
            index <= gizmos@.len(),
            gizmos@.len() == before.len(),
            forall|done: int| 0 <= done < index ==> #[trigger] gizmos@[done] == rested_spec(before[done]),
            forall|ahead: int| index <= ahead < before.len() ==> #[trigger] gizmos@[ahead] == before[ahead],
        decreases gizmos@.len() - index,
    {
        let gizmo: PlacedGizmo = gizmos[index];
        match (gizmo.component, gizmo.dormant) {
            (GizmoComponent::Eater(eater), Some(dormant)) => {
                if dormant.0 <= TIMESTEP {
                    gizmos[index] = PlacedGizmo {
                        component: GizmoComponent::Eater(Eater { eaten: 0, ..eater }),
                        dormant: None,
                        ..gizmo
                    };
                } else {
                    gizmos[index] = PlacedGizmo {
                        dormant: Some(Dormant(dormant.0 - TIMESTEP)),
                        ..gizmo
                    };
                }
            },
            _ => {},
        }
        index += 1;
    }
    assert(gizmos@ =~= after_rest_spec(before));
}

} // verus!
