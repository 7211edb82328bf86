//! The whole sandbox: what a fixed tick and what a frame do to it.

use vstd::prelude::*;
use crate::gizmos::attractor::{activate_attractors, after_attractors_spec};
use crate::gizmos::deleter::{
    activate_deleters, activate_slow_deleters, after_deleters_spec, after_recharge_spec,
    after_slow_deleters_spec, recharge_slow_deleters,
};
use crate::gizmos::eater::{
    activate_eaters, after_chasing_spec, after_eater_scale_spec, after_eaters_spec,
    after_rest_spec, apply_eater_scale, eaters_chasing_particles, process_dormant_eaters,
    RingBurst,
};
use crate::gizmos::emitter::{
    activate_emitters, adjust_particle_limit, adjusted_limit_spec, after_emitters_tick_spec,
    after_emitters_wait_spec,
    emitted_spec, emitters_held_spec, ParticleLimit,
};
use crate::gizmos::pusher::{activate_pushers, after_pushers_spec};
use crate::gizmos::{after_spawn_or_despawn_spec, spawn_or_despawn_gizmos, PlacedGizmo};
use crate::input::{Action, ActionState};
use crate::movement::{
    after_merge_spec, apply_movement, clamp_speed, clamped_gizmos_spec, clamped_particles_spec,
    merge_speed, moved_gizmos_spec, moved_particles_spec, toggle_inertia, Inertia,
};
use crate::annihilation::{
    after_cancelling_spec, after_despawn_cancelled_spec, despawn_cancelled_particles,
    particles_cancelling, survives_spec,
};
use crate::particle::{
    despawn_all_asked_spec, despawn_all_particles, spawn_asked_spec, spawn_particle, spawned_spec,
    Batch, NextBatch, Particle,
};
use crate::repulsion::{force_pass_spec, particles_applying_forces};
use crate::topology::{toggle_wrap, update_window_dimensions, WindowDimensions, WrappingForce};
use crate::vector::Vec2;

verus! {

/// The sandbox.
pub struct World {
    pub window_dimensions: WindowDimensions,
    pub wrapping: WrappingForce,
    pub inertia: Inertia,
    pub limit: ParticleLimit,
    pub next_batch: NextBatch,
    pub particles: Vec<Particle>,
    pub gizmos: Vec<PlacedGizmo>,
}

/// The sandbox as contracts see it.
pub struct WorldView {
    pub extent: Vec2,
    pub wrapping: WrappingForce,
    pub inertia: Inertia,
    pub limit: ParticleLimit,
    /// The batch that the next particle goes to.
    pub next: Batch,
    pub particles: Seq<Particle>,
    pub gizmos: Seq<PlacedGizmo>,
}

impl View for World {
    type V = WorldView;

    open spec fn view(&self) -> WorldView {
        WorldView {
            extent: self.window_dimensions.extent(),
            wrapping: self.wrapping,
            inertia: self.inertia,
            limit: self.limit,
            next: self.next_batch.batch_spec(),
            particles: self.particles@,
            gizmos: self.gizmos@,
        }
    }
}

impl WorldView {
    /// The extent that force offsets wrap on, if they wrap at all.
    pub open spec fn force_wrap(self) -> Option<Vec2> {
        if self.wrapping.0 {
            Some(self.extent)
        } else {
            None
        }
    }

    /// The sandbox after the effectors have worked on the particles: after the fields,
    /// the chasing eaters and the pushers have added to the movements, the deleters and
    /// the slow deleters have removed, the emitters have emitted and the eaters have
    /// eaten; with the rings that the eaters give back.
    pub open spec fn after_effectors(self) -> (WorldView, Seq<RingBurst>) {
        let pulled = after_attractors_spec(self.gizmos, self.particles, self.force_wrap());
        let chasing = after_chasing_spec(self.extent, self.gizmos, pulled);
        let pushed = after_pushers_spec(chasing, pulled);
        let cleared = after_deleters_spec(self.extent, chasing, pushed);
        let charged = after_recharge_spec(chasing);
        let (spent, thinned) = after_slow_deleters_spec(
            self.extent,
            charged,
            cleared,
            cleared.len() as int,
        );
        let held = emitters_held_spec(self.limit, thinned);
        let ticked = if held {
            after_emitters_wait_spec(spent)
        } else {
            after_emitters_tick_spec(spent)
        };
        let (grown, next) = if held {
            (thinned, self.next)
        } else {
            emitted_spec(spent, thinned, self.next, spent.len() as int)
        };
        let (fed, eaten, bursts) = after_eaters_spec(self.extent, ticked, grown, grown.len() as int);
        let rested = after_rest_spec(after_eater_scale_spec(fed));
        (WorldView { next, particles: eaten, gizmos: rested, ..self }, bursts)
    }

    /// The sandbox after the particles have pushed and pulled each other, unless that is
    /// suspended: after the force pass of the first batch and that of the second.
    pub open spec fn after_forces(self, suspended: bool) -> WorldView {
        if suspended {
            self
        } else {
            WorldView {
                particles: force_pass_spec(
                    force_pass_spec(self.particles, Batch::One, self.force_wrap()),
                    Batch::Two,
                    self.force_wrap(),
                ),
                ..self
            }
        }
    }

    /// The sandbox after opposite charges have cancelled and the cancelled particles
    /// have been removed.
    pub open spec fn after_annihilation(self) -> WorldView {
        WorldView {
            particles: after_despawn_cancelled_spec(
                after_cancelling_spec(self.extent, self.particles),
            ),
            ..self
        }
    }

    /// The sandbox after the movements have been merged, clamped and applied.
    pub open spec fn after_integration(self) -> WorldView {
        WorldView {
            particles: moved_particles_spec(
                self.extent,
                self.inertia,
                clamped_particles_spec(self.inertia, after_merge_spec(self.particles)),
            ),
            gizmos: moved_gizmos_spec(
                self.extent,
                self.inertia,
                clamped_gizmos_spec(self.inertia, self.gizmos),
            ),
            ..self
        }
    }

    /// The sandbox after a fixed tick, with the rings that the eaters give back in it:
    /// effectors, forces, annihilation, integration.
    pub open spec fn after_tick(self, suspended: bool) -> (WorldView, Seq<RingBurst>) {
        let (worked, bursts) = self.after_effectors();
        (worked.after_forces(suspended).after_annihilation().after_integration(), bursts)
    }

    /// The sandbox after a frame: with the window measured, the switches flipped, the
    /// particle limit adjusted, and particles and gizmos placed and removed as the user
    /// asks.
    pub open spec fn after_frame(
        self,
        action_state: ActionState,
        cursor_pos: Option<Vec2>,
        window_size: Option<Vec2>,
    ) -> WorldView {
        let extent = match window_size {
            Some(size) if size.x > 0 && size.y > 0 => size,
            _ => self.extent,
        };
        let spawned = match cursor_pos {
            Some(cursor) if spawn_asked_spec(action_state) => self.particles.push(
                spawned_spec(cursor, true, self.next),
            ),
            _ => self.particles,
        };
        WorldView {
            extent,
            wrapping: WrappingForce(
                self.wrapping.0 != action_state.just_pressed_spec(Action::ToggleWrap),
            ),
            inertia: Inertia(
                self.inertia.0 != action_state.just_pressed_spec(Action::ToggleInertia),
            ),
            limit: adjusted_limit_spec(self.limit, action_state),
            next: match cursor_pos {
                Some(cursor) if spawn_asked_spec(action_state) => self.next.other_spec(),
                _ => self.next,
            },
            particles: if despawn_all_asked_spec(action_state) {
                Seq::empty()
            } else {
                spawned
            },
            gizmos: after_spawn_or_despawn_spec(self.gizmos, extent, action_state, cursor_pos),
        }
    }
}

impl World {
    /// An empty sandbox on a plane of the default extent.
    pub fn new() -> (world: World)
        ensures
            world@.particles.len() == 0,
            world@.gizmos.len() == 0,
            world@.next == Batch::One,
            world@.wrapping.0,
            !world@.inertia.0,
            world@.limit == ParticleLimit(crate::gizmos::emitter::DEFAULT_LIMIT),
            world@.extent == (Vec2 {
                x: crate::topology::DEFAULT_WIDTH,
                y: crate::topology::DEFAULT_HEIGHT,
            }),
    {
        World {
            window_dimensions: WindowDimensions::default(),
            wrapping: WrappingForce::default(),
            inertia: Inertia::default(),
            limit: ParticleLimit::default(),
            next_batch: NextBatch::default(),
            particles: Vec::new(),
            gizmos: Vec::new(),
        }
    }

    /// Advances the sandbox by one fixed tick.
    ///
    /// While the action that suspends repulsion is held, the particles do not push and
    /// pull each other; what they have gathered is kept. Returns the rings that eaters
    /// give back in this tick, which [`spawn_burst`](crate::particle::spawn_burst) spawns
    /// after it.
    ///
    /// After the tick every particle lies on the plane, and none is cancelled: those that
    /// were have been removed.
    pub fn fixed_tick(&mut self, action_state: &ActionState) -> (bursts: Vec<RingBurst>)
        ensures
            (final(self)@, bursts@) == old(self)@.after_tick(
                action_state.pressed_spec(Action::SuspendRepulsion),
            ),
            forall|index: int|
                0 <= index < final(self)@.particles.len() ==> {
                    &&& 0 <= (#[trigger] final(self)@.particles[index]).position.x
                        < final(self)@.extent.x
                    &&& 0 <= final(self)@.particles[index].position.y < final(self)@.extent.y
                    &&& !final(self)@.particles[index].cancelled.0
                },
    {
        let ghost before = self@;
        activate_attractors(&self.window_dimensions, &self.wrapping, &self.gizmos, &mut self.particles);
        eaters_chasing_particles(&self.window_dimensions, &mut self.gizmos, &self.particles);
        activate_pushers(&self.gizmos, &mut self.particles);
        activate_deleters(&self.window_dimensions, &self.gizmos, &mut self.particles);
        recharge_slow_deleters(&mut self.gizmos);
        activate_slow_deleters(&self.window_dimensions, &mut self.gizmos, &mut self.particles);
        activate_emitters(&self.limit, &mut self.next_batch, &mut self.particles, &mut self.gizmos);
        let bursts: Vec<RingBurst> = activate_eaters(
            &self.window_dimensions,
            &mut self.gizmos,
            &mut self.particles,
        );
        apply_eater_scale(&mut self.gizmos);
        process_dormant_eaters(&mut self.gizmos);
        assert((self@, bursts@) == before.after_effectors());
        if !action_state.pressed(&Action::SuspendRepulsion) {
            particles_applying_forces(
                &self.window_dimensions,
                &self.wrapping,
                &mut self.particles,
                Batch::One,
            );
            particles_applying_forces(
                &self.window_dimensions,
                &self.wrapping,
                &mut self.particles,
                Batch::Two,
            );
        }
        particles_cancelling(&self.window_dimensions, &mut self.particles);
        let ghost flagged = self.particles@;
        despawn_cancelled_particles(&mut self.particles);
        let ghost left = self.particles@;
        assert forall|index: int| 0 <= index < left.len() implies !(#[trigger] left[index]).cancelled.0 by {
            flagged.lemma_filter_pred(|particle: Particle| survives_spec(particle), index);
        }
        merge_speed(&mut self.particles);
        clamp_speed(&self.inertia, &mut self.particles, &mut self.gizmos);
        apply_movement(&self.window_dimensions, &self.inertia, &mut self.particles, &mut self.gizmos);
        bursts
    }

    /// Takes the input of one frame.
    pub fn frame_update(
        &mut self,
        action_state: &ActionState,
        cursor_pos: Option<Vec2>,
        window_size: Option<Vec2>,
    )
        ensures
            final(self)@ == old(self)@.after_frame(*action_state, cursor_pos, window_size),
    {
        update_window_dimensions(&mut self.window_dimensions, window_size);
        toggle_wrap(action_state, &mut self.wrapping);
        toggle_inertia(&mut self.inertia, action_state);
        adjust_particle_limit(&mut self.limit, action_state);
        spawn_particle(&mut self.particles, &mut self.next_batch, action_state, cursor_pos);
        despawn_all_particles(&mut self.particles, action_state);
        spawn_or_despawn_gizmos(&mut self.gizmos, &self.window_dimensions, action_state, cursor_pos);
    }
}

} // verus!
