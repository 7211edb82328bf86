//! Emitters, which spawn particles at a steady rate, and the limit that holds them back.

use vstd::prelude::*;
use crate::gizmos::{GizmoComponent, PlacedGizmo};
use crate::input::{Action, ActionState};
use crate::particle::{spawn_particle_at_location, spawned_spec, Batch, NextBatch, Particle};
use crate::time::{SECOND, TIMESTEP};

verus! {

/// The time between two particles of one emitter: a tenth of a second.
pub const EMITTER_INTERVAL: u64 = SECOND / 10;

/// The step by which the particle limit is raised and lowered.
pub const LIMIT_STEP: u32 = 100;

/// The highest particle limit: the largest multiple of the step that fits.
pub const HIGHEST_LIMIT: u32 = 4_294_967_200;

/// The particle limit before it is raised or lowered.
pub const DEFAULT_LIMIT: u32 = 1_200;

/// Spawns a particle of its charge whenever its interval has passed.
#[derive(Clone, Copy, Debug, PartialEq, Eq, Structural)]
pub struct Emitter {
    pub interval: u64,
    pub time_since_emitting: u64,
}

impl Emitter {
    /// An emitter that has just emitted, with an interval of [`EMITTER_INTERVAL`].
    pub fn new() -> (emitter: Emitter)
        ensures
            emitter == (Emitter { interval: EMITTER_INTERVAL, time_since_emitting: 0 }),
    {
        Emitter { interval: EMITTER_INTERVAL, time_since_emitting: 0 }
    }

    /// The emitter after `ticks` ticks of waiting.
    pub open spec fn waited_many_spec(self, ticks: nat) -> Emitter
        decreases ticks,
    {
        if ticks == 0 {
            self
        } else {
            self.waited_many_spec((ticks - 1) as nat).waited_spec()
        }
    }

    /// Whether more time has passed than the interval, so that a particle is due.
    pub open spec fn due_spec(self) -> bool {
        self.time_since_emitting > self.interval
    }

    /// The emitter with one tick added to its time, held to the range of `u64`.
    pub open spec fn waited_spec(self) -> Emitter {
        Emitter {
            time_since_emitting: if self.time_since_emitting + TIMESTEP > u64::MAX {
                u64::MAX
            } else {
                (self.time_since_emitting + TIMESTEP) as u64
            },
            ..self
        }
    }

    /// The emitter after one tick in which it may emit: with the interval taken off its
    /// time where a particle is due, so that time beyond the interval is not lost; else
    /// with a tick added.
    pub open spec fn ticked_spec(self) -> Emitter {
        if self.due_spec() {
            Emitter { time_since_emitting: (self.time_since_emitting - self.interval) as u64, ..self }
        } else {
            self.waited_spec()
        }
    }

    /// Lets one tick pass in which the emitter is held back: it counts the tick and
    /// emits nothing, whether a particle is due or not.
    pub fn wait(&mut self)
        ensures
            *final(self) == old(self).waited_spec(),
    {
        self.time_since_emitting = self.time_since_emitting.saturating_add(TIMESTEP);
    }

    /// Lets one tick pass in which the emitter may emit; returns whether a particle is
    /// due.
    pub fn tick(&mut self) -> (due: bool)
        ensures
            due == old(self).due_spec(),
            *final(self) == old(self).ticked_spec(),
    {
        if self.time_since_emitting > self.interval {
            self.time_since_emitting = self.time_since_emitting - self.interval;
            true
        } else {
            self.wait();
            false
        }
    }
}

/// An emitter that is held back loses no time: after `ticks` ticks of waiting it has
/// `ticks` ticks more on its clock, held to the range of `u64`. So once it has waited
/// longer than its interval, a particle is due from it in the first tick in which it may
/// emit. (No particle is ever due from an emitter whose interval is the largest `u64`.)
pub proof fn lemma_waiting_counts(emitter: Emitter, ticks: nat)
    ensures
        emitter.waited_many_spec(ticks).interval == emitter.interval,
        emitter.waited_many_spec(ticks).time_since_emitting == if emitter.time_since_emitting
            + ticks * TIMESTEP > u64::MAX {
            u64::MAX
        } else {
            (emitter.time_since_emitting + ticks * TIMESTEP) as u64
        },
        ticks * TIMESTEP > emitter.interval && emitter.interval < u64::MAX
            ==> emitter.waited_many_spec(ticks).due_spec(),
    decreases ticks,
{
    if ticks > 0 {
        lemma_waiting_counts(emitter, (ticks - 1) as nat);
        assert(ticks * TIMESTEP == (ticks - 1) * TIMESTEP + TIMESTEP) by (nonlinear_arith);
        assert((ticks - 1) * TIMESTEP >= 0) by (nonlinear_arith)
            requires
                ticks >= 1,
        ;
    } else {
        assert(0 * TIMESTEP == 0) by (nonlinear_arith);
    }
}

impl Default for Emitter {
    fn default() -> (emitter: Emitter)
        ensures
            emitter == (Emitter { interval: EMITTER_INTERVAL, time_since_emitting: 0 }),
    {
        Emitter::new()
    }
}

/// How many particles there may be before the emitters stop.
#[derive(Clone, Copy, Debug, PartialEq, Eq, Structural)]
pub struct ParticleLimit(pub u32);

impl ParticleLimit {
    /// The limit one step up, but no higher than [`HIGHEST_LIMIT`].
    pub open spec fn raised_spec(self) -> ParticleLimit {
        if self.0 + LIMIT_STEP > HIGHEST_LIMIT {
            ParticleLimit(HIGHEST_LIMIT)
        } else {
            ParticleLimit((self.0 + LIMIT_STEP) as u32)
        }
    }

    /// The limit one step down, but no lower than zero.
    pub open spec fn lowered_spec(self) -> ParticleLimit {
        if self.0 < LIMIT_STEP {
            ParticleLimit(0)
        } else {
            ParticleLimit((self.0 - LIMIT_STEP) as u32)
        }
    }

    /// Raises the limit by one step, but no higher than [`HIGHEST_LIMIT`].
    pub fn raise(&mut self)
        ensures
            *final(self) == old(self).raised_spec(),
    {
        let raised: u32 = self.0.saturating_add(LIMIT_STEP);
        self.0 = if raised > HIGHEST_LIMIT {
            HIGHEST_LIMIT
        } else {
            raised
        };
    }

    /// Lowers the limit by one step, but no lower than zero.
    pub fn lower(&mut self)
        ensures
            *final(self) == old(self).lowered_spec(),
    {
        self.0 = self.0.saturating_sub(LIMIT_STEP);
    }

    /// The limit as it stands.
    pub fn current(&self) -> (limit: u32)
        ensures
            limit == self.0,
    {
        self.0
    }
}

impl Default for ParticleLimit {
    fn default() -> (limit: ParticleLimit)
        ensures
            limit.0 == DEFAULT_LIMIT,
    {
        ParticleLimit(DEFAULT_LIMIT)
    }
}

/// The limit after a frame: raised where only the action that raises it went down,
/// lowered where only the action that lowers it went down.
pub open spec fn adjusted_limit_spec(limit: ParticleLimit, action_state: ActionState) -> ParticleLimit {
    let raise = action_state.just_pressed_spec(Action::RaiseParticleLimit);
    let lower = action_state.just_pressed_spec(Action::LowerParticleLimit);
    if raise && !lower {
        limit.raised_spec()
    } else if lower && !raise {
        limit.lowered_spec()
    } else {
        limit
    }
}

/// Raises or lowers the particle limit as the user asks.
pub fn adjust_particle_limit(limit: &mut ParticleLimit, action_state: &ActionState)
    ensures
        *final(limit) == adjusted_limit_spec(*old(limit), *action_state),
{
    let raise: bool = action_state.just_pressed(&Action::RaiseParticleLimit);
    let lower: bool = action_state.just_pressed(&Action::LowerParticleLimit);
    if raise && !lower {
        limit.raise();
    } else if lower && !raise {
        limit.lower();
    }
}

/// The gizmo after one tick in which it may emit, if it is an emitter.
pub open spec fn emitter_ticked_spec(gizmo: PlacedGizmo) -> PlacedGizmo {
    match gizmo.component {
        GizmoComponent::Emitter(emitter) => PlacedGizmo {
            component: GizmoComponent::Emitter(emitter.ticked_spec()),
            ..gizmo
        },
        _ => gizmo,
    }
}

/// Whether the gizmo is an emitter from which a particle is due.
pub open spec fn emits_spec(gizmo: PlacedGizmo) -> bool {
    match gizmo.component {
        GizmoComponent::Emitter(emitter) => emitter.due_spec(),
        _ => false,
    }
}

/// The gizmos after one tick in which the emitters may emit.
pub open spec fn after_emitters_tick_spec(gizmos: Seq<PlacedGizmo>) -> Seq<PlacedGizmo> {
    gizmos.map_values(|gizmo: PlacedGizmo| emitter_ticked_spec(gizmo))
}

/// The gizmo after one tick of waiting, if it is an emitter.
pub open spec fn emitter_waited_spec(gizmo: PlacedGizmo) -> PlacedGizmo {
    match gizmo.component {
        GizmoComponent::Emitter(emitter) => PlacedGizmo {
            component: GizmoComponent::Emitter(emitter.waited_spec()),
            ..gizmo
        },
        _ => gizmo,
    }
}

/// The gizmos after one tick in which the emitters are held back.
pub open spec fn after_emitters_wait_spec(gizmos: Seq<PlacedGizmo>) -> Seq<PlacedGizmo> {
    gizmos.map_values(|gizmo: PlacedGizmo| emitter_waited_spec(gizmo))
}

/// The particles, and the batch whose turn it is, once those of the first `upto` gizmos
/// from which a particle is due have emitted, in their order: each a particle of its own
/// charge at its own place.
pub open spec fn emitted_spec(
    gizmos: Seq<PlacedGizmo>,
    particles: Seq<Particle>,
    next: Batch,
    upto: int,
) -> (Seq<Particle>, Batch)
    decreases upto,
{
    if upto <= 0 {
        (particles, next)
    } else {
        let (grown, turn) = emitted_spec(gizmos, particles, next, upto - 1);
        let gizmo = gizmos[upto - 1];
        if emits_spec(gizmo) {
            (grown.push(spawned_spec(gizmo.position, gizmo.positive, turn)), turn.other_spec())
        } else {
            (grown, turn)
        }
    }
}

/// Whether there are so many particles that the emitters are held back.
pub open spec fn emitters_held_spec(limit: ParticleLimit, particles: Seq<Particle>) -> bool {
    particles.len() >= limit.0
}

/// Lets a tick pass in which every emitter is held back.
fn hold_emitters(gizmos: &mut Vec<PlacedGizmo>)
    ensures
        final(gizmos)@ == after_emitters_wait_spec(old(gizmos)@),
{
    let ghost before = gizmos@;
    let mut index: usize = 0;
    while index < gizmos.len()
        invariant
            index <= gizmos@.len(),
            gizmos@.len() == before.len(),
            forall|done: int|
                0 <= done < index ==> #[trigger] gizmos@[done] == emitter_waited_spec(before[done]),
            forall|ahead: int| index <= ahead < before.len() ==> #[trigger] gizmos@[ahead] == before[ahead],
        decreases gizmos@.len() - index,
    {
        let gizmo: PlacedGizmo = gizmos[index];
        match gizmo.component {
            GizmoComponent::Emitter(emitter) => {
                let mut waited: Emitter = emitter;
                waited.wait();
                gizmos[index] = PlacedGizmo { component: GizmoComponent::Emitter(waited), ..gizmo };
            },
            _ => {},
        }
        index += 1;
    }
    assert(gizmos@ =~= after_emitters_wait_spec(before));
}

/// Lets every emitter emit that is due to, unless the particle limit holds them back.
///
/// Every emitter counts the time that passes, held back or not. While there are as many
/// particles as the limit allows, or more, no emitter emits: each adds the tick to its
/// time, so that a particle is due from it as soon as the limit lets it emit again.
/// Otherwise each emitter from which a particle is due spawns one and takes its interval
/// off its time, and the others add the tick; the limit is not looked at again within
/// the tick.
pub fn activate_emitters(
    limit: &ParticleLimit,
    next_batch: &mut NextBatch,
    particles: &mut Vec<Particle>,
    gizmos: &mut Vec<PlacedGizmo>,
)
    ensures
        emitters_held_spec(*limit, old(particles)@) ==> {
            &&& final(particles)@ == old(particles)@
            &&& final(gizmos)@ == after_emitters_wait_spec(old(gizmos)@)
            &&& final(next_batch).batch_spec() == old(next_batch).batch_spec()
        },
        !emitters_held_spec(*limit, old(particles)@) ==> {
            &&& final(gizmos)@ == after_emitters_tick_spec(old(gizmos)@)
            &&& (final(particles)@, final(next_batch).batch_spec()) == emitted_spec(
                old(gizmos)@,
                old(particles)@,
                old(next_batch).batch_spec(),
                old(gizmos)@.len() as int,
            )
        },
{
    if particles.len() >= limit.current() as usize {
        hold_emitters(gizmos);
        return ;
    }
    let ghost before = gizmos@;
    let ghost population = particles@;
    let ghost first = next_batch.batch_spec();
    let mut index: usize = 0;
    while index < gizmos.len()
        invariant
            index <= gizmos@.len(),
            gizmos@.len() == before.len(),
            forall|done: int|
                0 <= done < index ==> #[trigger] gizmos@[done] == emitter_ticked_spec(before[done]),
            forall|ahead: int| index <= ahead < before.len() ==> #[trigger] gizmos@[ahead] == before[ahead],
            (particles@, next_batch.batch_spec()) == emitted_spec(
                before,
                population,
                first,
                index as int,
            ),
        decreases gizmos@.len() - index,
    {
        let gizmo: PlacedGizmo = gizmos[index];
        match gizmo.component {
            GizmoComponent::Emitter(emitter) => {
                let mut ticked: Emitter = emitter;
                if ticked.tick() {
                    spawn_particle_at_location(particles, next_batch, gizmo.position, gizmo.positive);
                }
                gizmos[index] = PlacedGizmo { component: GizmoComponent::Emitter(ticked), ..gizmo };
            },
            _ => {},
        }
        index += 1;
    }
    assert(gizmos@ =~= after_emitters_tick_spec(before));
}

} // verus!
