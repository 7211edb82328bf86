//! Deleters, which remove every particle that comes near, and slow deleters, which have to
//! recharge after each particle.

use vstd::prelude::*;
use crate::filter::{lemma_filter_none, lemma_filter_step};
use crate::gizmos::{GizmoComponent, PlacedGizmo};
use crate::particle::Particle;
use crate::time::{SECOND, TIMESTEP};
use crate::topology::{within_radius, within_radius_spec, WindowDimensions};
use crate::vector::{Vec2, UNIT_LENGTH};

verus! {

/// How near a particle must come to a deleter to be removed, unless the deleter is made
/// with another radius.
pub const DELETER_RADIUS: u64 = 100 * UNIT_LENGTH;

/// How fast a slow deleter recharges unless it is made with another rate, in thousandths
/// of a full charge a second: two particles a second.
pub const SLOW_DELETER_RATE: u64 = 2_000;

/// The charge that arms a slow deleter. A rate of 1000 builds it up in one second.
pub const FULL_CHARGE: u64 = 1_000 * SECOND;

/// Removes every particle within its radius.
#[derive(Clone, Copy, Debug, PartialEq, Eq, Structural)]
pub struct Deleter {
    pub radius: u64,
}

impl Deleter {
    /// A deleter that reaches `radius` steps.
    pub fn new(radius: u64) -> (deleter: Deleter)
        ensures
            deleter.radius == radius,
    {
        Deleter { radius }
    }
}

impl Default for Deleter {
    fn default() -> (deleter: Deleter)
        ensures
            deleter.radius == DELETER_RADIUS,
    {
        Deleter::new(DELETER_RADIUS)
    }
}

/// Removes one particle within its radius whenever it is fully charged.
#[derive(Clone, Copy, Debug, PartialEq, Eq, Structural)]
pub struct SlowDeleter {
    pub radius: u64,
    /// Thousandths of a full charge gained in a second.
    pub rate: u64,
    /// The charge so far; the deleter is armed from [`FULL_CHARGE`] on.
    pub charge: u64,
}

impl SlowDeleter {
    /// A slow deleter without charge.
    pub fn new(radius: u64, rate: u64) -> (deleter: SlowDeleter)
        ensures
            deleter == (SlowDeleter { radius, rate, charge: 0 }),
    {
        SlowDeleter { radius, rate, charge: 0 }
    }

    /// Whether the deleter holds a full charge.
    pub open spec fn armed_spec(self) -> bool {
        self.charge >= FULL_CHARGE
    }

    /// The charge after one more tick of charging, held to the range of `u64`.
    pub open spec fn recharged_spec(self) -> SlowDeleter {
        SlowDeleter {
            charge: if self.charge + self.rate * TIMESTEP > u64::MAX {
                u64::MAX
            } else {
                (self.charge + self.rate * TIMESTEP) as u64
            },
            ..self
        }
    }

    /// The deleter after `ticks` ticks of charging.
    pub open spec fn recharged_many_spec(self, ticks: nat) -> SlowDeleter
        decreases ticks,
    {
        if ticks == 0 {
            self
        } else {
            self.recharged_many_spec((ticks - 1) as nat).recharged_spec()
        }
    }

    /// Charges for one tick.
    pub fn recharge(&mut self)
        ensures
            *final(self) == old(self).recharged_spec(),
    {
        let gain: u64 = match self.rate.checked_mul(TIMESTEP) {
            Some(gain) => gain,
            None => u64::MAX,
        };
        self.charge = self.charge.saturating_add(gain);
    }
}

/// A slow deleter charges evenly: from no charge, `ticks` ticks of charging leave it
/// with `ticks` times its rate times the length of a tick, held to the range of `u64`.
/// So it is armed after `ticks` ticks exactly if that many ticks at its rate make up a
/// full charge: at a rate of 2000, from the thirtieth tick on.
pub proof fn lemma_charge_builds_evenly(deleter: SlowDeleter, ticks: nat)
    requires
        deleter.charge == 0,
    ensures
        deleter.recharged_many_spec(ticks).radius == deleter.radius,
        deleter.recharged_many_spec(ticks).rate == deleter.rate,
        deleter.recharged_many_spec(ticks).charge == if ticks * (deleter.rate * TIMESTEP)
            > u64::MAX {
            u64::MAX
        } else {
            (ticks * (deleter.rate * TIMESTEP)) as u64
        },
        deleter.recharged_many_spec(ticks).armed_spec() <==> ticks * (deleter.rate * TIMESTEP)
            >= FULL_CHARGE,
    decreases ticks,
{
    let gain = deleter.rate * TIMESTEP;
    if ticks > 0 {
        lemma_charge_builds_evenly(deleter, (ticks - 1) as nat);
        assert(ticks * gain == (ticks - 1) * gain + gain) by (nonlinear_arith);
        assert((ticks - 1) * gain >= 0) by (nonlinear_arith)
            requires
                ticks >= 1,
                gain >= 0,
        ;
    } else {
        assert(0 * gain == 0) by (nonlinear_arith);
    }
}

impl Default for SlowDeleter {
    fn default() -> (deleter: SlowDeleter)
        ensures
            deleter == (SlowDeleter { radius: DELETER_RADIUS, rate: SLOW_DELETER_RATE, charge: 0 }),
    {
        SlowDeleter::new(DELETER_RADIUS, SLOW_DELETER_RATE)
    }
}

/// Whether `gizmo` is a deleter with `position` within its radius.
pub open spec fn deletes_spec(extent: Vec2, gizmo: PlacedGizmo, position: Vec2) -> bool {
    match gizmo.component {
        GizmoComponent::Deleter(deleter) => within_radius_spec(
            extent,
            position,
            gizmo.position,
            deleter.radius,
        ),
        _ => false,
    }
}

/// Whether some deleter has `position` within its radius.
pub open spec fn deleted_spec(extent: Vec2, gizmos: Seq<PlacedGizmo>, position: Vec2) -> bool {
    exists|index: int|
        0 <= index < gizmos.len() && deletes_spec(extent, #[trigger] gizmos[index], position)
}

/// The particles that no deleter reaches, in their order.
pub open spec fn after_deleters_spec(
    extent: Vec2,
    gizmos: Seq<PlacedGizmo>,
    particles: Seq<Particle>,
) -> Seq<Particle> {
    particles.filter(|particle: Particle| !deleted_spec(extent, gizmos, particle.position))
}

/// Whether some deleter has `position` within its radius.
fn reached_by_deleter(extent: Vec2, gizmos: &Vec<PlacedGizmo>, position: Vec2) -> (reached: bool)
    ensures
        reached == deleted_spec(extent, gizmos@, position),
{
    let mut index: usize = 0;
    while index < gizmos.len()
        invariant
            index <= gizmos@.len(),
            forall|earlier: int|
                0 <= earlier < index ==> !deletes_spec(extent, #[trigger] gizmos@[earlier], position),
        decreases gizmos@.len() - index,
    {
        let gizmo: PlacedGizmo = gizmos[index];
        match gizmo.component {
            GizmoComponent::Deleter(deleter) => {
                if within_radius(extent, position, gizmo.position, deleter.radius) {
                    return true;
                }
            },
            _ => {},
        }
        index += 1;
    }
    false
}

/// Removes every particle that is within the radius of a deleter; the others keep their
/// order. A particle within reach of several deleters is removed once.
pub fn activate_deleters(
    window_dimensions: &WindowDimensions,
    gizmos: &Vec<PlacedGizmo>,
    particles: &mut Vec<Particle>,
)
    ensures
        final(particles)@ == after_deleters_spec(
            window_dimensions.extent(),
            gizmos@,
            old(particles)@,
        ),
{
    let extent: Vec2 = window_dimensions.get();
    let ghost before = particles@;
    let ghost keep = |particle: Particle| !deleted_spec(extent, gizmos@, particle.position);
    let mut kept: Vec<Particle> = Vec::new();
    let mut index: usize = 0;
    proof {
        lemma_filter_none(before, keep);
    }
    while index < particles.len()
        invariant
            index <= particles@.len(),
            particles@ == before,
            keep == (|particle: Particle| !deleted_spec(extent, gizmos@, particle.position)),
            kept@ == before.take(index as int).filter(keep),
        decreases particles@.len() - index,
    {
        proof {
            lemma_filter_step(before, keep, index as int);
        }
        if !reached_by_deleter(extent, gizmos, particles[index].position) {
            kept.push(particles[index]);
        }
        index += 1;
    }
    assert(before.take(before.len() as int) == before);
    *particles = kept;
}

/// The gizmo after one tick of charging, if it is a slow deleter.
pub open spec fn recharged_spec(gizmo: PlacedGizmo) -> PlacedGizmo {
    match gizmo.component {
        GizmoComponent::SlowDeleter(deleter) => PlacedGizmo {
            component: GizmoComponent::SlowDeleter(deleter.recharged_spec()),
            ..gizmo
        },
        _ => gizmo,
    }
}

/// The gizmos after one tick of charging.
pub open spec fn after_recharge_spec(gizmos: Seq<PlacedGizmo>) -> Seq<PlacedGizmo> {
    gizmos.map_values(|gizmo: PlacedGizmo| recharged_spec(gizmo))
}

/// Charges every slow deleter for one tick.
pub fn recharge_slow_deleters(gizmos: &mut Vec<PlacedGizmo>)
    ensures
        final(gizmos)@ == after_recharge_spec(old(gizmos)@),
{
    let ghost before = gizmos@;
    let mut index: usize = 0;
    while index < gizmos.len()
        invariant
            index <= gizmos@.len(),
            gizmos@.len() == before.len(),
            forall|done: int| 0 <= done < index ==> #[trigger] gizmos@[done] == recharged_spec(before[done]),
            forall|ahead: int| index <= ahead < before.len() ==> #[trigger] gizmos@[ahead] == before[ahead],
        decreases gizmos@.len() - index,
    {
        let gizmo: PlacedGizmo = gizmos[index];
        match gizmo.component {
            GizmoComponent::SlowDeleter(deleter) => {
                let mut charged: SlowDeleter = deleter;
                charged.recharge();
                gizmos[index] = PlacedGizmo {
                    component: GizmoComponent::SlowDeleter(charged),
                    ..gizmo
                };
            },
            _ => {},
        }
        index += 1;
    }
    assert(gizmos@ =~= after_recharge_spec(before));
}

/// Whether `gizmo` is an armed slow deleter with `position` within its radius.
pub open spec fn slowly_deletes_spec(extent: Vec2, gizmo: PlacedGizmo, position: Vec2) -> bool {
    match gizmo.component {
        GizmoComponent::SlowDeleter(deleter) => deleter.armed_spec() && within_radius_spec(
            extent,
            position,
            gizmo.position,
            deleter.radius,
        ),
        _ => false,
    }
}

/// The first gizmo from `from` on that is an armed slow deleter with `position` within
/// its radius.
pub open spec fn first_armed_spec(
    extent: Vec2,
    gizmos: Seq<PlacedGizmo>,
    position: Vec2,
    from: int,
) -> Option<int>
    decreases gizmos.len() - from,
{
    if from < 0 || from >= gizmos.len() {
        None
    } else if slowly_deletes_spec(extent, gizmos[from], position) {
        Some(from)
    } else {
        first_armed_spec(extent, gizmos, position, from + 1)
    }
}

/// The gizmo with its charge used up, if it is a slow deleter.
pub open spec fn discharged_spec(gizmo: PlacedGizmo) -> PlacedGizmo {
    match gizmo.component {
        GizmoComponent::SlowDeleter(deleter) => PlacedGizmo {
            component: GizmoComponent::SlowDeleter(SlowDeleter { charge: 0, ..deleter }),
            ..gizmo
        },
        _ => gizmo,
    }
}

/// The gizmos, and the particles that are left, once the first `upto` particles have
/// passed the slow deleters, in their order. A particle within the radius of an armed
/// slow deleter is removed by the first such deleter, which loses its charge.
pub open spec fn after_slow_deleters_spec(
    extent: Vec2,
    gizmos: Seq<PlacedGizmo>,
    particles: Seq<Particle>,
    upto: int,
) -> (Seq<PlacedGizmo>, Seq<Particle>)
    decreases upto,
{
    if upto <= 0 {
        (gizmos, Seq::empty())
    } else {
        let (charged, kept) = after_slow_deleters_spec(extent, gizmos, particles, upto - 1);
        match first_armed_spec(extent, charged, particles[upto - 1].position, 0) {
            Some(deleter) => (charged.update(deleter, discharged_spec(charged[deleter])), kept),
            None => (charged, kept.push(particles[upto - 1])),
        }
    }
}

/// The first armed slow deleter that has `position` within its radius.
fn find_armed(extent: Vec2, gizmos: &Vec<PlacedGizmo>, position: Vec2) -> (found: Option<usize>)
    ensures
        match found {
            Some(index) => first_armed_spec(extent, gizmos@, position, 0) == Some(index as int)
                && index < gizmos@.len(),
            None => first_armed_spec(extent, gizmos@, position, 0) is None,
        },
{
    let mut index: usize = 0;
    while index < gizmos.len()
        invariant
            index <= gizmos@.len(),
            first_armed_spec(extent, gizmos@, position, 0) == first_armed_spec(
                extent,
                gizmos@,
                position,
                index as int,
            ),
        decreases gizmos@.len() - index,
    {
        let gizmo: PlacedGizmo = gizmos[index];
        match gizmo.component {
            GizmoComponent::SlowDeleter(deleter) => {
                if deleter.charge >= FULL_CHARGE && within_radius(
                    extent,
                    position,
                    gizmo.position,
                    deleter.radius,
                ) {
                    return Some(index);
                }
            },
            _ => {},
        }
        index += 1;
    }
    None
}

/// Lets every armed slow deleter remove one particle within its radius.
///
/// The particles are taken in their order; each is removed by the first armed slow
/// deleter that reaches it, and that deleter then has to recharge before it removes
/// another.
pub fn activate_slow_deleters(
    window_dimensions: &WindowDimensions,
    gizmos: &mut Vec<PlacedGizmo>,
    particles: &mut Vec<Particle>,
)
    ensures
        (final(gizmos)@, final(particles)@) == after_slow_deleters_spec(
            window_dimensions.extent(),
            old(gizmos)@,
            old(particles)@,
            old(particles)@.len() as int,
        ),
{
    let extent: Vec2 = window_dimensions.get();
    let ghost before = particles@;
    let ghost charged = gizmos@;
    let mut kept: Vec<Particle> = Vec::new();
    let mut index: usize = 0;
    while index < particles.len()
        invariant
            index <= particles@.len(),
            particles@ == before,
            (gizmos@, kept@) == after_slow_deleters_spec(extent, charged, before, index as int),
        decreases particles@.len() - index,
    {
        let particle: Particle = particles[index];
        match find_armed(extent, gizmos, particle.position) {
            Some(deleter) => {
                let gizmo: PlacedGizmo = gizmos[deleter];
                match gizmo.component {
                    GizmoComponent::SlowDeleter(spent) => {
                        gizmos[deleter] = PlacedGizmo {
                            component: GizmoComponent::SlowDeleter(
                                SlowDeleter { charge: 0, ..spent },
                            ),
                            ..gizmo
                        };
                    },
                    _ => {},
                }
            },
            None => {
                kept.push(particle);
            },
        }
        index += 1;
    }
    *particles = kept;
}

} // verus!
