//! The annihilation engine: opposite charges that come too near each other cancel in
//! pairs, and the cancelled particles are removed.

use vstd::prelude::*;
use crate::filter::{lemma_filter_none, lemma_filter_step};
use crate::particle::{Cancelled, Particle};
use crate::topology::{within_radius, within_radius_spec, WindowDimensions};
use crate::vector::{Vec2, UNIT_LENGTH};

verus! {

/// Particles of opposite charge that come nearer than this cancel out.
pub const PARTICLE_CANCEL_DISTANCE: u64 = 4 * UNIT_LENGTH;

/// Whether a particle is cancelled by the time the sweep has given it the partner it has:
/// it was cancelled before, or it has a partner.
pub open spec fn flagged_spec(
    particles: Seq<Particle>,
    partners: Seq<Option<int>>,
    index: int,
) -> bool {
    particles[index].cancelled.0 || partners[index] is Some
}

/// Whether the sweep cancels the pair: a positive and a negative particle, neither
/// cancelled yet, less than [`PARTICLE_CANCEL_DISTANCE`] apart.
pub open spec fn annihilates_spec(
    extent: Vec2,
    particles: Seq<Particle>,
    partners: Seq<Option<int>>,
    positive: int,
    negative: int,
) -> bool {
    &&& particles[positive].positive
    &&& !particles[negative].positive
    &&& !flagged_spec(particles, partners, positive)
    &&& !flagged_spec(particles, partners, negative)
    &&& within_radius_spec(
        extent,
        particles[positive].position,
        particles[negative].position,
        PARTICLE_CANCEL_DISTANCE,
    )
}

/// The partners once particle `positive` has been held against the first `upto`
/// particles.
pub open spec fn partners_in_row_spec(
    extent: Vec2,
    particles: Seq<Particle>,
    partners: Seq<Option<int>>,
    positive: int,
    upto: int,
) -> Seq<Option<int>>
    decreases upto,
{
    if upto <= 0 {
        partners
    } else {
        let before = partners_in_row_spec(extent, particles, partners, positive, upto - 1);
        let negative = upto - 1;
        if annihilates_spec(extent, particles, before, positive, negative) {
            before.update(positive, Some(negative)).update(negative, Some(positive))
        } else {
            before
        }
    }
}

/// The partners once each of the first `upto` particles has been held against all
/// particles.
pub open spec fn partners_spec(extent: Vec2, particles: Seq<Particle>, upto: int) -> Seq<
    Option<int>,
>
    decreases upto,
{
    if upto <= 0 {
        Seq::new(particles.len(), |index: int| None)
    } else {
        partners_in_row_spec(
            extent,
            particles,
            partners_spec(extent, particles, upto - 1),
            upto - 1,
            particles.len() as int,
        )
    }
}

/// For each particle, the particle that it cancels with in this sweep, if any.
pub open spec fn cancellation_partners_spec(extent: Vec2, particles: Seq<Particle>) -> Seq<
    Option<int>,
> {
    partners_spec(extent, particles, particles.len() as int)
}

/// The particle, cancelled if it has a partner.
pub open spec fn marked_spec(particle: Particle, partner: Option<int>) -> Particle {
    Particle { cancelled: Cancelled(particle.cancelled.0 || partner is Some), ..particle }
}

/// The row of a particle that is not positive, or that is cancelled already, changes
/// nothing.
proof fn lemma_idle_row(
    extent: Vec2,
    particles: Seq<Particle>,
    partners: Seq<Option<int>>,
    positive: int,
    upto: int,
)
    requires
        !particles[positive].positive || particles[positive].cancelled.0,
    ensures
        partners_in_row_spec(extent, particles, partners, positive, upto) == partners,
    decreases upto,
{
    if upto > 0 {
        lemma_idle_row(extent, particles, partners, positive, upto - 1);
    }
}

/// Cancels opposite charges that have come too near each other.
///
/// Every positive particle is held against every negative one, in their order. A pair
/// less than [`PARTICLE_CANCEL_DISTANCE`] apart, wrap-aware, of which neither is
/// cancelled yet, is cancelled on both sides. A cancelled particle stays cancelled and
/// takes no further partner. When the sweep is over, no such pair is left with both of
/// its particles uncancelled.
pub fn particles_cancelling(window_dimensions: &WindowDimensions, particles: &mut Vec<Particle>)
    ensures
        final(particles)@ == after_cancelling_spec(window_dimensions.extent(), old(particles)@),
        forall|positive: int, negative: int|
            #![trigger final(particles)@[positive], final(particles)@[negative]]
            0 <= positive < final(particles)@.len() && 0 <= negative < final(particles)@.len()
                && final(particles)@[positive].positive && !final(particles)@[negative].positive
                && within_radius_spec(
                window_dimensions.extent(),
                final(particles)@[positive].position,
                final(particles)@[negative].position,
                PARTICLE_CANCEL_DISTANCE,
            ) ==> final(particles)@[positive].cancelled.0 || final(particles)@[negative].cancelled.0,
{
    let extent: Vec2 = window_dimensions.get();
    let ghost before = particles@;
    let ghost mut partners: Seq<Option<int>> = Seq::new(before.len(), |index: int| None);
    let count: usize = particles.len();
    let mut positive: usize = 0;
    while positive < count
        invariant
            positive <= count,
            count == before.len(),
            particles@.len() == count,
            partners.len() == count,
            partners == partners_spec(extent, before, positive as int),
            forall|index: int|
                0 <= index < count ==> #[trigger] particles@[index] == marked_spec(
                    before[index],
                    partners[index],
                ),
        decreases count - positive,
    {
        if particles[positive].positive {
            let ghost row_start = partners;
            let mut negative: usize = 0;
            while negative < count
                invariant
                    positive < count,
                    negative <= count,
                    count == before.len(),
                    particles@.len() == count,
                    partners.len() == count,
                    before[positive as int].positive,
                    row_start == partners_spec(extent, before, positive as int),
                    partners == partners_in_row_spec(
                        extent,
                        before,
                        row_start,
                        positive as int,
                        negative as int,
                    ),
                    forall|index: int|
                        0 <= index < count ==> #[trigger] particles@[index] == marked_spec(
                            before[index],
                            partners[index],
                        ),
                decreases count - negative,
            {
                let here: Particle = particles[positive];
                let there: Particle = particles[negative];
                assert(here == marked_spec(before[positive as int], partners[positive as int]));
                assert(there == marked_spec(before[negative as int], partners[negative as int]));
                if !there.positive && !here.cancelled.0 && !there.cancelled.0 && within_radius(
                    extent,
                    here.position,
                    there.position,
                    PARTICLE_CANCEL_DISTANCE,
                ) {
                    particles[positive] = Particle { cancelled: Cancelled(true), ..here };
                    particles[negative] = Particle { cancelled: Cancelled(true), ..there };
                    proof {
                        partners = partners.update(positive as int, Some(negative as int)).update(
                            negative as int,
                            Some(positive as int),
                        );
                    }
                }
                negative += 1;
            }
        } else {
            proof {
                lemma_idle_row(extent, before, partners, positive as int, count as int);
            }
        }
        positive += 1;
    }
    assert(particles@ =~= after_cancelling_spec(extent, before));
    proof {
        lemma_cancellation_leaves_no_pair(extent, before);
    }
}

/// Whether the partners pair the particles up: whoever has a partner is that partner's
/// partner, the two differ in charge, neither was cancelled before the sweep, and the
/// positive one is within [`PARTICLE_CANCEL_DISTANCE`] of the negative one.
pub open spec fn paired_spec(
    extent: Vec2,
    particles: Seq<Particle>,
    partners: Seq<Option<int>>,
) -> bool {
    &&& partners.len() == particles.len()
    &&& forall|index: int|
        0 <= index < partners.len() ==> match #[trigger] partners[index] {
            Some(partner) => {
                &&& 0 <= partner < partners.len()
                &&& partner != index
                &&& partners[partner] == Some(index)
                &&& particles[index].positive != particles[partner].positive
                &&& !particles[index].cancelled.0
                &&& if particles[index].positive {
                    within_radius_spec(
                        extent,
                        particles[index].position,
                        particles[partner].position,
                        PARTICLE_CANCEL_DISTANCE,
                    )
                } else {
                    within_radius_spec(
                        extent,
                        particles[partner].position,
                        particles[index].position,
                        PARTICLE_CANCEL_DISTANCE,
                    )
                }
            },
            None => true,
        }
}

/// A row keeps the particles paired up.
proof fn lemma_row_pairs_up(
    extent: Vec2,
    particles: Seq<Particle>,
    partners: Seq<Option<int>>,
    positive: int,
    upto: int,
)
    requires
        paired_spec(extent, particles, partners),
        0 <= positive < particles.len(),
        upto <= particles.len(),
    ensures
        paired_spec(
            extent,
            particles,
            partners_in_row_spec(extent, particles, partners, positive, upto),
        ),
    decreases upto,
{
    if upto > 0 {
        lemma_row_pairs_up(extent, particles, partners, positive, upto - 1);
        let before = partners_in_row_spec(extent, particles, partners, positive, upto - 1);
        let negative = upto - 1;
        if annihilates_spec(extent, particles, before, positive, negative) {
            let after = before.update(positive, Some(negative)).update(negative, Some(positive));
            assert forall|index: int| 0 <= index < after.len() implies match #[trigger] after[index] {
                Some(partner) => {
                    &&& 0 <= partner < after.len()
                    &&& partner != index
                    &&& after[partner] == Some(index)
                    &&& particles[index].positive != particles[partner].positive
                    &&& !particles[index].cancelled.0
                    &&& if particles[index].positive {
                        within_radius_spec(
                            extent,
                            particles[index].position,
                            particles[partner].position,
                            PARTICLE_CANCEL_DISTANCE,
                        )
                    } else {
                        within_radius_spec(
                            extent,
                            particles[partner].position,
                            particles[index].position,
                            PARTICLE_CANCEL_DISTANCE,
                        )
                    }
                },
                None => true,
            } by {
                if index != positive && index != negative {
                    assert(after[index] == before[index]);
                    if let Some(partner) = before[index] {
                        assert(before[partner] == Some(index));
                    }
                }
            }
        }
    }
}

/// The sweep pairs the particles up.
///
/// A particle has at most one partner, and is its partner's partner: no particle is
/// matched twice in a sweep, and none that was cancelled before it is matched at all.
pub proof fn lemma_cancellation_pairs_up(extent: Vec2, particles: Seq<Particle>)
    ensures
        paired_spec(extent, particles, cancellation_partners_spec(extent, particles)),
{
    lemma_sweep_pairs_up(extent, particles, particles.len() as int);
}

proof fn lemma_sweep_pairs_up(extent: Vec2, particles: Seq<Particle>, upto: int)
    requires
        upto <= particles.len(),
    ensures
        paired_spec(extent, particles, partners_spec(extent, particles, upto)),
    decreases upto,
{
    if upto > 0 {
        lemma_sweep_pairs_up(extent, particles, upto - 1);
        lemma_row_pairs_up(
            extent,
            particles,
            partners_spec(extent, particles, upto - 1),
            upto - 1,
            particles.len() as int,
        );
    }
}

/// Whether every particle that has a partner in `earlier` has one in `later`.
spec fn grown_spec(earlier: Seq<Option<int>>, later: Seq<Option<int>>) -> bool {
    &&& earlier.len() == later.len()
    &&& forall|index: int|
        0 <= index < earlier.len() ==> ((#[trigger] earlier[index]) is Some ==> later[index] is Some)
}

/// A row takes no partner away, and leaves no pair of its particle that could still
/// cancel.
proof fn lemma_row_settles(
    extent: Vec2,
    particles: Seq<Particle>,
    partners: Seq<Option<int>>,
    positive: int,
    upto: int,
)
    requires
        partners.len() == particles.len(),
        0 <= positive < particles.len(),
        upto <= particles.len(),
    ensures
        grown_spec(partners, partners_in_row_spec(extent, particles, partners, positive, upto)),
        forall|negative: int|
            0 <= negative < upto ==> !#[trigger] annihilates_spec(
                extent,
                particles,
                partners_in_row_spec(extent, particles, partners, positive, upto),
                positive,
                negative,
            ),
    decreases upto,
{
    if upto > 0 {
        lemma_row_settles(extent, particles, partners, positive, upto - 1);
        let before = partners_in_row_spec(extent, particles, partners, positive, upto - 1);
        let after = partners_in_row_spec(extent, particles, partners, positive, upto);
        assert forall|negative: int| 0 <= negative < upto implies !#[trigger] annihilates_spec(
            extent,
            particles,
            after,
            positive,
            negative,
        ) by {
            if negative < upto - 1 {
                assert(!annihilates_spec(extent, particles, before, positive, negative));
            }
        }
    }
}

/// The sweep leaves no pair that could still cancel.
proof fn lemma_sweep_settles(extent: Vec2, particles: Seq<Particle>, upto: int)
    requires
        upto <= particles.len(),
    ensures
        partners_spec(extent, particles, upto).len() == particles.len(),
        forall|positive: int, negative: int|
            0 <= positive < upto && 0 <= negative < particles.len() ==> !#[trigger] annihilates_spec(
                extent,
                particles,
                partners_spec(extent, particles, upto),
                positive,
                negative,
            ),
    decreases upto,
{
    if upto > 0 {
        lemma_sweep_settles(extent, particles, upto - 1);
        let before = partners_spec(extent, particles, upto - 1);
        let after = partners_spec(extent, particles, upto);
        lemma_row_settles(extent, particles, before, upto - 1, particles.len() as int);
        assert forall|positive: int, negative: int|
            0 <= positive < upto && 0 <= negative < particles.len() implies !#[trigger] annihilates_spec(
            extent,
            particles,
            after,
            positive,
            negative,
        ) by {
            if positive < upto - 1 {
                assert(!annihilates_spec(extent, particles, before, positive, negative));
            }
        }
    }
}

/// The particles as the sweep leaves them.
pub open spec fn after_cancelling_spec(extent: Vec2, particles: Seq<Particle>) -> Seq<Particle> {
    Seq::new(
        particles.len(),
        |index: int|
            marked_spec(particles[index], cancellation_partners_spec(extent, particles)[index]),
    )
}

/// The sweep leaves no pair that could still cancel: of a positive and a negative
/// particle that are less than [`PARTICLE_CANCEL_DISTANCE`] apart, at least one is
/// cancelled when the sweep is over.
pub proof fn lemma_cancellation_leaves_no_pair(extent: Vec2, particles: Seq<Particle>)
    ensures
        forall|positive: int, negative: int|
            0 <= positive < particles.len() && 0 <= negative < particles.len()
                ==> !#[trigger] annihilates_spec(
                extent,
                particles,
                cancellation_partners_spec(extent, particles),
                positive,
                negative,
            ),
        forall|positive: int, negative: int|
            #![trigger after_cancelling_spec(extent, particles)[positive],
                after_cancelling_spec(extent, particles)[negative]]
            0 <= positive < particles.len() && 0 <= negative < particles.len()
                && after_cancelling_spec(extent, particles)[positive].positive
                && !after_cancelling_spec(extent, particles)[negative].positive
                && within_radius_spec(
                extent,
                after_cancelling_spec(extent, particles)[positive].position,
                after_cancelling_spec(extent, particles)[negative].position,
                PARTICLE_CANCEL_DISTANCE,
            ) ==> after_cancelling_spec(extent, particles)[positive].cancelled.0
                || after_cancelling_spec(extent, particles)[negative].cancelled.0,
{
    lemma_sweep_settles(extent, particles, particles.len() as int);
    let partners = cancellation_partners_spec(extent, particles);
    let after = after_cancelling_spec(extent, particles);
    assert forall|positive: int, negative: int|
        #![trigger after[positive], after[negative]]
        0 <= positive < particles.len() && 0 <= negative < particles.len()
            && after[positive].positive && !after[negative].positive && within_radius_spec(
            extent,
            after[positive].position,
            after[negative].position,
            PARTICLE_CANCEL_DISTANCE,
        ) implies after[positive].cancelled.0 || after[negative].cancelled.0 by {
        assert(!annihilates_spec(extent, particles, partners, positive, negative));
    }
}

/// A second sweep finds nothing left to cancel: it gives no particle a partner.
pub proof fn lemma_cancellation_settles(extent: Vec2, particles: Seq<Particle>)
    ensures
        forall|index: int|
            0 <= index < particles.len() ==> (#[trigger] cancellation_partners_spec(
                extent,
                after_cancelling_spec(extent, particles),
            )[index]) is None,
{
    let after = after_cancelling_spec(extent, particles);
    lemma_cancellation_leaves_no_pair(extent, particles);
    lemma_second_sweep_idle(extent, particles, after.len() as int);
}

proof fn lemma_second_row_idle(
    extent: Vec2,
    particles: Seq<Particle>,
    positive: int,
    upto: int,
)
    requires
        0 <= positive < particles.len(),
        upto <= particles.len(),
        forall|first: int, second: int|
            0 <= first < particles.len() && 0 <= second < particles.len()
                ==> !#[trigger] annihilates_spec(
                extent,
                particles,
                cancellation_partners_spec(extent, particles),
                first,
                second,
            ),
    ensures
        partners_in_row_spec(
            extent,
            after_cancelling_spec(extent, particles),
            Seq::new(particles.len(), |index: int| None),
            positive,
            upto,
        ) == Seq::new(particles.len(), |index: int| None::<int>),
    decreases upto,
{
    if upto > 0 {
        lemma_second_row_idle(extent, particles, positive, upto - 1);
        assert(!annihilates_spec(
            extent,
            particles,
            cancellation_partners_spec(extent, particles),
            positive,
            upto - 1,
        ));
    }
}

proof fn lemma_second_sweep_idle(extent: Vec2, particles: Seq<Particle>, upto: int)
    requires
        upto <= particles.len(),
        forall|first: int, second: int|
            0 <= first < particles.len() && 0 <= second < particles.len()
                ==> !#[trigger] annihilates_spec(
                extent,
                particles,
                cancellation_partners_spec(extent, particles),
                first,
                second,
            ),
    ensures
        partners_spec(extent, after_cancelling_spec(extent, particles), upto) == Seq::new(
            particles.len(),
            |index: int| None::<int>,
        ),
    decreases upto,
{
    if upto > 0 {
        lemma_second_sweep_idle(extent, particles, upto - 1);
        lemma_second_row_idle(extent, particles, upto - 1, particles.len() as int);
    }
}

/// Whether a particle outlives the removal of the cancelled ones.
pub open spec fn survives_spec(particle: Particle) -> bool {
    !particle.cancelled.0
}

/// The particles that are not cancelled, in their order.
pub open spec fn after_despawn_cancelled_spec(particles: Seq<Particle>) -> Seq<Particle> {
    particles.filter(|particle: Particle| survives_spec(particle))
}

/// Removes the cancelled particles; the others keep their order.
pub fn despawn_cancelled_particles(particles: &mut Vec<Particle>)
    ensures
        final(particles)@ == after_despawn_cancelled_spec(old(particles)@),
{
    let ghost before = particles@;
    let ghost keep = |particle: Particle| survives_spec(particle);
    let mut kept: Vec<Particle> = Vec::new();
    let mut index: usize = 0;
    proof {
        lemma_filter_none(before, keep);
    }
    while index < particles.len()
        invariant
            index <= particles@.len(),
            particles@ == before,
            keep == (|particle: Particle| survives_spec(particle)),
            kept@ == before.take(index as int).filter(keep),
        decreases particles@.len() - index,
    {
        proof {
            lemma_filter_step(before, keep, index as int);
        }
        if !particles[index].cancelled.0 {
            kept.push(particles[index]);
        }
        index += 1;
    }
    assert(before.take(before.len() as int) == before);
    *particles = kept;
}

} // verus!
