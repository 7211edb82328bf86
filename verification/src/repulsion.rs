//! The pairwise force engine: every particle pushes away every particle of its own charge
//! and pulls at every particle of the other, in two passes that write to separate
//! accumulators.

use vstd::prelude::*;
use crate::force::{
    attenuated_spec, calculate_force, faded_many_spec, fine_cap_spec, force_spec,
    lemma_force_bounded, lemma_force_capped, lemma_force_odd, lemma_per_tick_odd, per_tick,
    per_tick_spec, strength_spec,
};
use crate::time::TICKS_PER_SECOND;
use crate::movement::{after_merge_spec, Movement, MovementBatch2, MovementTrait};
use crate::particle::{Batch, Particle};
use crate::topology::{
    force_wrap, force_wrap_spec, in_reach_spec, lemma_offset_2d_reverses, offset_2d, offset_2d_spec,
    wrap_in_reach_spec, WindowDimensions, WrappingForce,
};
use crate::vector::{
    abs_spec, lemma_scale_odd, lemma_scale_shrinks, Vec2, PARTS, UNIT, UNIT_LENGTH,
};

verus! {

/// The force between two particles one step apart.
pub const BASE_FORCE: i64 = 10_000 * UNIT * UNIT * UNIT;

/// Particles nearer than this push and pull as if they were this far apart.
pub const PROXIMITY_FORCE_CAP: i64 = 5 * UNIT;

/// The power of the distance that the force between particles fades by, in quarters: the
/// inverse-square law.
pub const DIMINISHING_POWER: u32 = 8;

/// The most that one particle adds to a component of another's movement in one tick: the
/// force at the proximity cap, 400 units a second, for a sixtieth of a second.
pub const PAIR_FORCE_LIMIT: u64 = 400 * UNIT_LENGTH / 60;

/// What `other` adds to the movement of `particle` in one tick: a push along the offset
/// from `other` where the charges are alike, a pull against it where they differ.
pub open spec fn pair_force_spec(particle: Particle, other: Particle, wrap: Option<Vec2>) -> Vec2 {
    let force = per_tick_spec(
        force_spec(
            BASE_FORCE,
            PROXIMITY_FORCE_CAP,
            DIMINISHING_POWER,
            offset_2d_spec(particle.position, other.position, wrap),
        ),
    );
    if particle.positive != other.positive {
        force.negated_spec()
    } else {
        force
    }
}

/// What `other` adds to the movement of `particle` in one tick.
pub fn pair_force(particle: &Particle, other: &Particle, wrap: Option<Vec2>) -> (force: Vec2)
    ensures
        force == pair_force_spec(*particle, *other, wrap),
{
    let force: Vec2 = per_tick(
        calculate_force(
            BASE_FORCE,
            PROXIMITY_FORCE_CAP,
            DIMINISHING_POWER,
            offset_2d(particle.position, other.position, wrap),
        ),
    );
    if particle.positive != other.positive {
        force.saturating_neg()
    } else {
        force
    }
}

/// The accumulator that the force pass of `batch` writes to.
pub open spec fn accumulator_spec(particle: Particle, batch: Batch) -> Vec2 {
    match batch {
        Batch::One => particle.movement.0,
        Batch::Two => particle.movement_batch2.0,
    }
}

/// The particle with `value` in the accumulator of the force pass of `batch`.
pub open spec fn with_accumulator_spec(particle: Particle, batch: Batch, value: Vec2) -> Particle {
    match batch {
        Batch::One => Particle { movement: Movement(value), ..particle },
        Batch::Two => Particle { movement_batch2: MovementBatch2(value), ..particle },
    }
}

/// What the pair of `target` and `source`, both of one batch, adds to `target`. The pair
/// is worked out once, from its earlier particle, and the later one takes the opposite.
pub open spec fn mate_force_spec(
    particles: Seq<Particle>,
    target: int,
    source: int,
    wrap: Option<Vec2>,
) -> Vec2 {
    if source < target {
        pair_force_spec(particles[source], particles[target], wrap).negated_spec()
    } else {
        pair_force_spec(particles[target], particles[source], wrap)
    }
}

/// The accumulator of `target` once it has met those of the first `upto` particles that
/// share its batch, in their order.
pub open spec fn gathered_from_mates_spec(
    particles: Seq<Particle>,
    target: int,
    batch: Batch,
    wrap: Option<Vec2>,
    upto: int,
) -> Vec2
    decreases upto,
{
    if upto <= 0 {
        accumulator_spec(particles[target], batch)
    } else {
        let before = gathered_from_mates_spec(particles, target, batch, wrap, upto - 1);
        let source = upto - 1;
        if source != target && particles[source].batch == batch {
            before.sum_spec(mate_force_spec(particles, target, source, wrap))
        } else {
            before
        }
    }
}

/// The accumulator of `target` once it has met all of its own batch and then those of the
/// first `upto` particles that are in the other batch, in their order.
pub open spec fn gathered_from_others_spec(
    particles: Seq<Particle>,
    target: int,
    batch: Batch,
    wrap: Option<Vec2>,
    upto: int,
) -> Vec2
    decreases upto,
{
    if upto <= 0 {
        gathered_from_mates_spec(particles, target, batch, wrap, particles.len() as int)
    } else {
        let before = gathered_from_others_spec(particles, target, batch, wrap, upto - 1);
        let source = upto - 1;
        if particles[source].batch != batch {
            before.sum_spec(pair_force_spec(particles[target], particles[source], wrap))
        } else {
            before
        }
    }
}

/// Particle `target` after the force pass of `batch`: untouched where it is in the other
/// batch, else with every other particle's force gathered in the accumulator of the pass.
pub open spec fn after_force_pass_spec(
    particles: Seq<Particle>,
    target: int,
    batch: Batch,
    wrap: Option<Vec2>,
) -> Particle {
    staged_spec(
        particles,
        target,
        batch,
        gathered_from_others_spec(particles, target, batch, wrap, particles.len() as int),
    )
}

/// The particles after the force pass of `batch`.
pub open spec fn force_pass_spec(
    particles: Seq<Particle>,
    batch: Batch,
    wrap: Option<Vec2>,
) -> Seq<Particle> {
    Seq::new(
        particles.len(),
        |target: int| after_force_pass_spec(particles, target, batch, wrap),
    )
}

/// Particle `target` with `value` in the accumulator of the pass, where the pass is that
/// of its batch.
pub open spec fn staged_spec(particles: Seq<Particle>, target: int, batch: Batch, value: Vec2) -> Particle {
    if particles[target].batch == batch {
        with_accumulator_spec(particles[target], batch, value)
    } else {
        particles[target]
    }
}

/// What `target` has gathered from its own batch while the pass works on the pair of
/// `first` and `second`.
spec fn mates_progress_spec(
    particles: Seq<Particle>,
    target: int,
    batch: Batch,
    wrap: Option<Vec2>,
    first: int,
    second: int,
) -> Vec2 {
    if target < first {
        gathered_from_mates_spec(particles, target, batch, wrap, particles.len() as int)
    } else if target == first {
        gathered_from_mates_spec(particles, target, batch, wrap, second)
    } else if target < second {
        gathered_from_mates_spec(particles, target, batch, wrap, first + 1)
    } else {
        gathered_from_mates_spec(particles, target, batch, wrap, first)
    }
}

/// What `target` has gathered from the other batch while the pass works on the pair of
/// `first` and `second`.
spec fn others_progress_spec(
    particles: Seq<Particle>,
    target: int,
    batch: Batch,
    wrap: Option<Vec2>,
    first: int,
    second: int,
) -> Vec2 {
    if target < first {
        gathered_from_others_spec(particles, target, batch, wrap, particles.len() as int)
    } else if target == first {
        gathered_from_others_spec(particles, target, batch, wrap, second)
    } else {
        gathered_from_others_spec(particles, target, batch, wrap, 0)
    }
}

/// Adds `force` to the accumulator that the pass of `batch` writes to.
fn accumulate(particles: &mut Vec<Particle>, index: usize, batch: Batch, force: Vec2)
    requires
        index < old(particles)@.len(),
    ensures
        final(particles)@ == old(particles)@.update(
            index as int,
            with_accumulator_spec(
                old(particles)@[index as int],
                batch,
                accumulator_spec(old(particles)@[index as int], batch).sum_spec(force),
            ),
        ),
{
    let mut particle: Particle = particles[index];
    match batch {
        Batch::One => {
            particle.movement.add(force);
        },
        Batch::Two => {
            particle.movement_batch2.add(force);
        },
    }
    particles[index] = particle;
}

/// One force pass: every particle of `batch` gathers, in the accumulator of the pass,
/// the force of every other particle.
///
/// Each pair within the batch is worked out once and added to both of its particles with
/// opposite signs; then each particle of the batch takes the force of each particle of
/// the other batch. Particles of the other batch are read and not written, so the two
/// passes touch no common accumulator.
pub fn particles_applying_forces(
    window_dimensions: &WindowDimensions,
    wrapping: &WrappingForce,
    particles: &mut Vec<Particle>,
    batch: Batch,
)
    ensures
        final(particles)@ == force_pass_spec(
            old(particles)@,
            batch,
            force_wrap_spec(*wrapping, *window_dimensions),
        ),
        final(particles)@.len() == old(particles)@.len(),
        forall|index: int|
            0 <= index < old(particles)@.len() && old(particles)@[index].batch != batch
                ==> #[trigger] final(particles)@[index] == old(particles)@[index],
        forall|index: int|
            0 <= index < old(particles)@.len() ==> #[trigger] final(particles)@[index]
                == with_accumulator_spec(
                old(particles)@[index],
                batch,
                accumulator_spec(final(particles)@[index], batch),
            ),
{
    let wrap: Option<Vec2> = force_wrap(wrapping, window_dimensions);
    let ghost before = particles@;
    let count: usize = particles.len();
    let mut first: usize = 0;
    while first < count
        invariant
            first <= count,
            count == before.len(),
            particles@.len() == count,
            forall|target: int|
                0 <= target < count ==> #[trigger] particles@[target] == staged_spec(
                    before,
                    target,
                    batch,
                    mates_progress_spec(before, target, batch, wrap, first as int, first as int),
                ),
        decreases count - first,
    {
        if particles[first].batch == batch {
            let mut second: usize = first + 1;
            while second < count
                invariant
                    first < second <= count,
                    count == before.len(),
                    particles@.len() == count,
                    before[first as int].batch == batch,
                    forall|target: int|
                        0 <= target < count ==> #[trigger] particles@[target] == staged_spec(
                            before,
                            target,
                            batch,
                            mates_progress_spec(
                                before,
                                target,
                                batch,
                                wrap,
                                first as int,
                                second as int,
                            ),
                        ),
                decreases count - second,
            {
                let ghost earlier = particles@;
                if particles[second].batch == batch {
                    let force: Vec2 = pair_force(&particles[first], &particles[second], wrap);
                    assert(force == pair_force_spec(before[first as int], before[second as int], wrap));
                    accumulate(particles, first, batch, force);
                    accumulate(particles, second, batch, force.saturating_neg());
                }
                assert forall|target: int| 0 <= target < count implies #[trigger] particles@[target]
                    == staged_spec(
                    before,
                    target,
                    batch,
                    mates_progress_spec(before, target, batch, wrap, first as int, second + 1),
                ) by {
                    assert(earlier[target] == staged_spec(
                        before,
                        target,
                        batch,
                        mates_progress_spec(before, target, batch, wrap, first as int, second as int),
                    ));
                }
                second += 1;
            }
        }
        assert forall|target: int| 0 <= target < count implies #[trigger] particles@[target]
            == staged_spec(
            before,
            target,
            batch,
            mates_progress_spec(before, target, batch, wrap, first + 1, first + 1),
        ) by {}
        first += 1;
    }
    first = 0;
    while first < count
        invariant
            first <= count,
            count == before.len(),
            particles@.len() == count,
            forall|target: int|
                0 <= target < count ==> #[trigger] particles@[target] == staged_spec(
                    before,
                    target,
                    batch,
                    others_progress_spec(before, target, batch, wrap, first as int, 0),
                ),
        decreases count - first,
    {
        if particles[first].batch == batch {
            let mut second: usize = 0;
            while second < count
                invariant
                    first < count,
                    second <= count,
                    count == before.len(),
                    particles@.len() == count,
                    before[first as int].batch == batch,
                    forall|target: int|
                        0 <= target < count ==> #[trigger] particles@[target] == staged_spec(
                            before,
                            target,
                            batch,
                            others_progress_spec(
                                before,
                                target,
                                batch,
                                wrap,
                                first as int,
                                second as int,
                            ),
                        ),
                decreases count - second,
            {
                let ghost earlier = particles@;
                if particles[second].batch != batch {
                    let force: Vec2 = pair_force(&particles[first], &particles[second], wrap);
                    assert(force == pair_force_spec(before[first as int], before[second as int], wrap));
                    accumulate(particles, first, batch, force);
                }
                assert forall|target: int| 0 <= target < count implies #[trigger] particles@[target]
                    == staged_spec(
                    before,
                    target,
                    batch,
                    others_progress_spec(before, target, batch, wrap, first as int, second + 1),
                ) by {
                    assert(earlier[target] == staged_spec(
                        before,
                        target,
                        batch,
                        others_progress_spec(before, target, batch, wrap, first as int, second as int),
                    ));
                }
                second += 1;
            }
        }
        assert forall|target: int| 0 <= target < count implies #[trigger] particles@[target]
            == staged_spec(
            before,
            target,
            batch,
            others_progress_spec(before, target, batch, wrap, first + 1, 0),
        ) by {}
        first += 1;
    }
    assert(particles@ =~= force_pass_spec(before, batch, wrap));
}

/// Between particles in reach, the force of one on the other is the opposite of the force
/// of the other on the one, and no component of it is larger than the base force.
pub proof fn lemma_pair_force_mutual(particle: Particle, other: Particle, wrap: Option<Vec2>)
    requires
        in_reach_spec(particle.position),
        in_reach_spec(other.position),
        wrap_in_reach_spec(wrap),
    ensures
        pair_force_spec(other, particle, wrap) == pair_force_spec(
            particle,
            other,
            wrap,
        ).negated_spec(),
        pair_force_spec(other, particle, wrap).negated_spec() == pair_force_spec(
            particle,
            other,
            wrap,
        ),
        abs_spec(pair_force_spec(particle, other, wrap).x as int) <= BASE_FORCE,
        abs_spec(pair_force_spec(particle, other, wrap).y as int) <= BASE_FORCE,
{
    let offset = offset_2d_spec(particle.position, other.position, wrap);
    lemma_offset_2d_reverses(particle.position, other.position, wrap);
    let force = force_spec(BASE_FORCE, PROXIMITY_FORCE_CAP, DIMINISHING_POWER, offset);
    lemma_force_odd(BASE_FORCE, PROXIMITY_FORCE_CAP, DIMINISHING_POWER, offset);
    lemma_force_bounded(BASE_FORCE, PROXIMITY_FORCE_CAP, DIMINISHING_POWER, offset);
    lemma_per_tick_odd(force);
}

/// The sum, without saturation, of what those of the first `upto` particles that `pick`
/// picks add to the movement of `target`.
pub open spec fn force_sum_spec(
    particles: Seq<Particle>,
    target: int,
    wrap: Option<Vec2>,
    pick: spec_fn(int) -> bool,
    upto: int,
) -> (int, int)
    decreases upto,
{
    if upto <= 0 {
        (0, 0)
    } else {
        let before = force_sum_spec(particles, target, wrap, pick, upto - 1);
        let source = upto - 1;
        if pick(source) {
            let force = pair_force_spec(particles[target], particles[source], wrap);
            (before.0 + force.x, before.1 + force.y)
        } else {
            before
        }
    }
}

/// The same sum over the sizes of the components.
pub open spec fn force_size_spec(
    particles: Seq<Particle>,
    target: int,
    wrap: Option<Vec2>,
    pick: spec_fn(int) -> bool,
    upto: int,
) -> (nat, nat)
    decreases upto,
{
    if upto <= 0 {
        (0, 0)
    } else {
        let before = force_size_spec(particles, target, wrap, pick, upto - 1);
        let source = upto - 1;
        if pick(source) {
            let force = pair_force_spec(particles[target], particles[source], wrap);
            (before.0 + abs_spec(force.x as int), before.1 + abs_spec(force.y as int))
        } else {
            before
        }
    }
}

/// Whether `start` and all that is picked, added up in any order, stays within `i64`.
pub open spec fn sum_fits_spec(
    particles: Seq<Particle>,
    target: int,
    wrap: Option<Vec2>,
    pick: spec_fn(int) -> bool,
    start: Vec2,
) -> bool {
    let size = force_size_spec(particles, target, wrap, pick, particles.len() as int);
    abs_spec(start.x as int) + size.0 <= i64::MAX && abs_spec(start.y as int) + size.1 <= i64::MAX
}

/// A sum is no larger than the sum of the sizes, and that grows with every particle.
proof fn lemma_sum_within_size(
    particles: Seq<Particle>,
    target: int,
    wrap: Option<Vec2>,
    pick: spec_fn(int) -> bool,
    upto: int,
    limit: int,
)
    requires
        upto <= limit,
    ensures
        abs_spec(force_sum_spec(particles, target, wrap, pick, upto).0) <= force_size_spec(
            particles,
            target,
            wrap,
            pick,
            upto,
        ).0 <= force_size_spec(particles, target, wrap, pick, limit).0,
        abs_spec(force_sum_spec(particles, target, wrap, pick, upto).1) <= force_size_spec(
            particles,
            target,
            wrap,
            pick,
            upto,
        ).1 <= force_size_spec(particles, target, wrap, pick, limit).1,
    decreases limit - upto, upto,
{
    if upto < limit {
        lemma_sum_within_size(particles, target, wrap, pick, upto, limit - 1);
    } else if upto > 0 {
        lemma_sum_within_size(particles, target, wrap, pick, upto - 1, upto - 1);
    }
}

/// A sum over two kinds of particles that share none is the sum over the one kind plus
/// the sum over the other.
proof fn lemma_sum_splits(
    particles: Seq<Particle>,
    target: int,
    wrap: Option<Vec2>,
    one: spec_fn(int) -> bool,
    other: spec_fn(int) -> bool,
    both: spec_fn(int) -> bool,
    upto: int,
)
    requires
        forall|source: int| !(#[trigger] one(source) && other(source)),
        forall|source: int| #[trigger] both(source) == (one(source) || other(source)),
    ensures
        force_sum_spec(particles, target, wrap, both, upto).0 == force_sum_spec(
            particles,
            target,
            wrap,
            one,
            upto,
        ).0 + force_sum_spec(particles, target, wrap, other, upto).0,
        force_sum_spec(particles, target, wrap, both, upto).1 == force_sum_spec(
            particles,
            target,
            wrap,
            one,
            upto,
        ).1 + force_sum_spec(particles, target, wrap, other, upto).1,
        force_size_spec(particles, target, wrap, both, upto).0 == force_size_spec(
            particles,
            target,
            wrap,
            one,
            upto,
        ).0 + force_size_spec(particles, target, wrap, other, upto).0,
        force_size_spec(particles, target, wrap, both, upto).1 == force_size_spec(
            particles,
            target,
            wrap,
            one,
            upto,
        ).1 + force_size_spec(particles, target, wrap, other, upto).1,
    decreases upto,
{
    if upto > 0 {
        lemma_sum_splits(particles, target, wrap, one, other, both, upto - 1);
        assert(both(upto - 1) == (one(upto - 1) || other(upto - 1)));
        assert(!(one(upto - 1) && other(upto - 1)));
    }
}

/// Whether `source` is another particle of the batch.
pub open spec fn is_mate_spec(particles: Seq<Particle>, target: int, batch: Batch) -> spec_fn(
    int,
) -> bool {
    |source: int| source != target && particles[source].batch == batch
}

/// Whether `source` is a particle of the other batch.
pub open spec fn is_outsider_spec(particles: Seq<Particle>, batch: Batch) -> spec_fn(int) -> bool {
    |source: int| particles[source].batch != batch
}

/// Whether `source` is another particle.
pub open spec fn is_other_spec(target: int) -> spec_fn(int) -> bool {
    |source: int| source != target
}

/// While nothing saturates, what a particle gathers from its own batch is the plain sum
/// of the forces of its mates.
proof fn lemma_mates_add_up(
    particles: Seq<Particle>,
    target: int,
    batch: Batch,
    wrap: Option<Vec2>,
    upto: int,
)
    requires
        0 <= target < particles.len(),
        upto <= particles.len(),
        forall|index: int| 0 <= index < particles.len() ==> in_reach_spec(
            (#[trigger] particles[index]).position,
        ),
        wrap_in_reach_spec(wrap),
        sum_fits_spec(
            particles,
            target,
            wrap,
            is_mate_spec(particles, target, batch),
            accumulator_spec(particles[target], batch),
        ),
    ensures
        gathered_from_mates_spec(particles, target, batch, wrap, upto).x == accumulator_spec(
            particles[target],
            batch,
        ).x + force_sum_spec(
            particles,
            target,
            wrap,
            is_mate_spec(particles, target, batch),
            upto,
        ).0,
        gathered_from_mates_spec(particles, target, batch, wrap, upto).y == accumulator_spec(
            particles[target],
            batch,
        ).y + force_sum_spec(
            particles,
            target,
            wrap,
            is_mate_spec(particles, target, batch),
            upto,
        ).1,
    decreases upto,
{
    let pick = is_mate_spec(particles, target, batch);
    if upto > 0 {
        lemma_mates_add_up(particles, target, batch, wrap, upto - 1);
        lemma_sum_within_size(particles, target, wrap, pick, upto, particles.len() as int);
        let source = upto - 1;
        if pick(source) {
            lemma_pair_force_mutual(particles[target], particles[source], wrap);
            assert(mate_force_spec(particles, target, source, wrap) == pair_force_spec(
                particles[target],
                particles[source],
                wrap,
            ));
        }
    }
}

/// While nothing saturates, what a particle gathers from the other batch, on top of what
/// it gathered from its own, is the plain sum of the forces of the particles of that
/// batch.
proof fn lemma_others_add_up(
    particles: Seq<Particle>,
    target: int,
    batch: Batch,
    wrap: Option<Vec2>,
    upto: int,
)
    requires
        0 <= target < particles.len(),
        upto <= particles.len(),
        sum_fits_spec(
            particles,
            target,
            wrap,
            is_outsider_spec(particles, batch),
            gathered_from_mates_spec(particles, target, batch, wrap, particles.len() as int),
        ),
    ensures
        gathered_from_others_spec(particles, target, batch, wrap, upto).x
            == gathered_from_mates_spec(particles, target, batch, wrap, particles.len() as int).x
            + force_sum_spec(particles, target, wrap, is_outsider_spec(particles, batch), upto).0,
        gathered_from_others_spec(particles, target, batch, wrap, upto).y
            == gathered_from_mates_spec(particles, target, batch, wrap, particles.len() as int).y
            + force_sum_spec(particles, target, wrap, is_outsider_spec(particles, batch), upto).1,
    decreases upto,
{
    let pick = is_outsider_spec(particles, batch);
    if upto > 0 {
        lemma_others_add_up(particles, target, batch, wrap, upto - 1);
        lemma_sum_within_size(particles, target, wrap, pick, upto, particles.len() as int);
    }
}

/// The two kinds of pairs cover every pair once: while nothing saturates, the force pass
/// of its batch leaves a particle with what it held before plus the plain sum of the
/// forces of all other particles, each counted once.
///
/// The particles must be in reach, so that the force between two of them is the same
/// worked out from either; and what the particle held before and the sizes of all the
/// forces on it must together fit in `i64`.
pub proof fn lemma_force_pass_sums_every_pair_once(
    particles: Seq<Particle>,
    target: int,
    wrap: Option<Vec2>,
)
    requires
        0 <= target < particles.len(),
        forall|index: int| 0 <= index < particles.len() ==> in_reach_spec(
            (#[trigger] particles[index]).position,
        ),
        wrap_in_reach_spec(wrap),
        sum_fits_spec(
            particles,
            target,
            wrap,
            is_other_spec(target),
            accumulator_spec(particles[target], particles[target].batch),
        ),
    ensures
        accumulator_spec(
            after_force_pass_spec(particles, target, particles[target].batch, wrap),
            particles[target].batch,
        ).x == accumulator_spec(particles[target], particles[target].batch).x + force_sum_spec(
            particles,
            target,
            wrap,
            is_other_spec(target),
            particles.len() as int,
        ).0,
        accumulator_spec(
            after_force_pass_spec(particles, target, particles[target].batch, wrap),
            particles[target].batch,
        ).y == accumulator_spec(particles[target], particles[target].batch).y + force_sum_spec(
            particles,
            target,
            wrap,
            is_other_spec(target),
            particles.len() as int,
        ).1,
{
    let batch = particles[target].batch;
    let count = particles.len() as int;
    let mates = is_mate_spec(particles, target, batch);
    let outsiders = is_outsider_spec(particles, batch);
    let others = is_other_spec(target);
    assert forall|source: int| #[trigger] others(source) == (mates(source) || outsiders(source)) by {
        if source == target {
            assert(!outsiders(source));
        }
    }
    lemma_sum_splits(particles, target, wrap, mates, outsiders, others, count);
    lemma_mates_add_up(particles, target, batch, wrap, count);
    lemma_sum_within_size(particles, target, wrap, mates, count, count);
    lemma_others_add_up(particles, target, batch, wrap, count);
}

/// Those of the first `upto` particles that are mates of `target`: other particles of
/// the batch, in their order.
pub open spec fn mates_spec(particles: Seq<Particle>, target: int, batch: Batch, upto: int) -> Seq<
    int,
>
    decreases upto,
{
    if upto <= 0 {
        Seq::empty()
    } else {
        let before = mates_spec(particles, target, batch, upto - 1);
        if upto - 1 != target && particles[upto - 1].batch == batch {
            before.push(upto - 1)
        } else {
            before
        }
    }
}

/// Those of the first `upto` particles that are in the other batch, in their order.
pub open spec fn outsiders_spec(particles: Seq<Particle>, batch: Batch, upto: int) -> Seq<int>
    decreases upto,
{
    if upto <= 0 {
        Seq::empty()
    } else {
        let before = outsiders_spec(particles, batch, upto - 1);
        if particles[upto - 1].batch != batch {
            before.push(upto - 1)
        } else {
            before
        }
    }
}

/// The particles whose forces the pass of `batch` adds to `target`, in the order in
/// which it adds them: the mates, then the particles of the other batch.
pub open spec fn sources_spec(particles: Seq<Particle>, target: int, batch: Batch) -> Seq<int> {
    mates_spec(particles, target, batch, particles.len() as int) + outsiders_spec(
        particles,
        batch,
        particles.len() as int,
    )
}

/// What the pass of `batch` adds to `target` for `source`: for a mate the force of the
/// pair as it is worked out once for both, for a particle of the other batch the force
/// of that particle on the target.
pub open spec fn source_force_spec(
    particles: Seq<Particle>,
    target: int,
    source: int,
    batch: Batch,
    wrap: Option<Vec2>,
) -> Vec2 {
    if particles[source].batch == batch {
        mate_force_spec(particles, target, source, wrap)
    } else {
        pair_force_spec(particles[target], particles[source], wrap)
    }
}

/// `start` with the forces of `sources` on `target` added in their order.
pub open spec fn added_in_order_spec(
    particles: Seq<Particle>,
    target: int,
    batch: Batch,
    wrap: Option<Vec2>,
    start: Vec2,
    sources: Seq<int>,
) -> Vec2
    decreases sources.len(),
{
    if sources.len() == 0 {
        start
    } else {
        added_in_order_spec(particles, target, batch, wrap, start, sources.drop_last()).sum_spec(
            source_force_spec(particles, target, sources.last(), batch, wrap),
        )
    }
}

/// The mates among the first `upto` particles are just the other particles of the batch
/// among them, each once.
proof fn lemma_mates_listed_once(particles: Seq<Particle>, target: int, batch: Batch, upto: int)
    requires
        upto <= particles.len(),
    ensures
        mates_spec(particles, target, batch, upto).no_duplicates(),
        forall|source: int|
            mates_spec(particles, target, batch, upto).contains(source) <==> (0 <= source < upto
                && source != target && particles[source].batch == batch),
    decreases upto,
{
    if upto > 0 {
        lemma_mates_listed_once(particles, target, batch, upto - 1);
        let before = mates_spec(particles, target, batch, upto - 1);
        let listed = mates_spec(particles, target, batch, upto);
        if upto - 1 != target && particles[upto - 1].batch == batch {
            assert(listed == before.push(upto - 1));
            assert forall|source: int| listed.contains(source) <==> (0 <= source < upto && source
                != target && particles[source].batch == batch) by {
                if listed.contains(source) {
                    let at = choose|at: int| 0 <= at < listed.len() && listed[at] == source;
                    if at < before.len() {
                        assert(before[at] == source);
                        assert(before.contains(source));
                    }
                }
                if 0 <= source < upto && source != target && particles[source].batch == batch {
                    if source == upto - 1 {
                        assert(listed[before.len() as int] == source);
                    } else {
                        assert(before.contains(source));
                        let at = choose|at: int| 0 <= at < before.len() && before[at] == source;
                        assert(listed[at] == source);
                    }
                }
            }
            assert forall|i: int, j: int|
                0 <= i < listed.len() && 0 <= j < listed.len() && i != j implies listed[i]
                != listed[j] by {
                if i == before.len() {
                    assert(before[j] == listed[j]);
                    assert(before.contains(listed[j]));
                } else if j == before.len() {
                    assert(before[i] == listed[i]);
                    assert(before.contains(listed[i]));
                } else {
                    assert(before[i] == listed[i] && before[j] == listed[j]);
                }
            }
        }
    }
}

/// The outsiders among the first `upto` particles are just the particles of the other
/// batch among them, each once.
proof fn lemma_outsiders_listed_once(particles: Seq<Particle>, batch: Batch, upto: int)
    requires
        upto <= particles.len(),
    ensures
        outsiders_spec(particles, batch, upto).no_duplicates(),
        forall|source: int|
            outsiders_spec(particles, batch, upto).contains(source) <==> (0 <= source < upto
                && particles[source].batch != batch),
    decreases upto,
{
    if upto > 0 {
        lemma_outsiders_listed_once(particles, batch, upto - 1);
        let before = outsiders_spec(particles, batch, upto - 1);
        let listed = outsiders_spec(particles, batch, upto);
        if particles[upto - 1].batch != batch {
            assert(listed == before.push(upto - 1));
            assert forall|source: int| listed.contains(source) <==> (0 <= source < upto
                && particles[source].batch != batch) by {
                if listed.contains(source) {
                    let at = choose|at: int| 0 <= at < listed.len() && listed[at] == source;
                    if at < before.len() {
                        assert(before[at] == source);
                        assert(before.contains(source));
                    }
                }
                if 0 <= source < upto && particles[source].batch != batch {
                    if source == upto - 1 {
                        assert(listed[before.len() as int] == source);
                    } else {
                        assert(before.contains(source));
                        let at = choose|at: int| 0 <= at < before.len() && before[at] == source;
                        assert(listed[at] == source);
                    }
                }
            }
            assert forall|i: int, j: int|
                0 <= i < listed.len() && 0 <= j < listed.len() && i != j implies listed[i]
                != listed[j] by {
                if i == before.len() {
                    assert(before[j] == listed[j]);
                    assert(before.contains(listed[j]));
                } else if j == before.len() {
                    assert(before[i] == listed[i]);
                    assert(before.contains(listed[i]));
                } else {
                    assert(before[i] == listed[i] && before[j] == listed[j]);
                }
            }
        }
    }
}

/// What a particle gathers from its own batch is what its mates add in their order.
proof fn lemma_mates_added_in_order(
    particles: Seq<Particle>,
    target: int,
    batch: Batch,
    wrap: Option<Vec2>,
    upto: int,
)
    requires
        0 <= target < particles.len(),
        upto <= particles.len(),
    ensures
        gathered_from_mates_spec(particles, target, batch, wrap, upto) == added_in_order_spec(
            particles,
            target,
            batch,
            wrap,
            accumulator_spec(particles[target], batch),
            mates_spec(particles, target, batch, upto),
        ),
    decreases upto,
{
    if upto > 0 {
        lemma_mates_added_in_order(particles, target, batch, wrap, upto - 1);
        let before = mates_spec(particles, target, batch, upto - 1);
        if upto - 1 != target && particles[upto - 1].batch == batch {
            assert(before.push(upto - 1).drop_last() == before);
        }
    }
}

/// What a particle gathers from the other batch is what the particles of that batch add
/// in their order, on top of what it gathered from its own.
proof fn lemma_outsiders_added_in_order(
    particles: Seq<Particle>,
    target: int,
    batch: Batch,
    wrap: Option<Vec2>,
    upto: int,
)
    requires
        0 <= target < particles.len(),
        upto <= particles.len(),
    ensures
        gathered_from_others_spec(particles, target, batch, wrap, upto) == added_in_order_spec(
            particles,
            target,
            batch,
            wrap,
            accumulator_spec(particles[target], batch),
            mates_spec(particles, target, batch, particles.len() as int) + outsiders_spec(
                particles,
                batch,
                upto,
            ),
        ),
    decreases upto,
{
    let mates = mates_spec(particles, target, batch, particles.len() as int);
    if upto <= 0 {
        lemma_mates_added_in_order(particles, target, batch, wrap, particles.len() as int);
        assert(mates + outsiders_spec(particles, batch, upto) == mates);
    } else {
        lemma_outsiders_added_in_order(particles, target, batch, wrap, upto - 1);
        let before = outsiders_spec(particles, batch, upto - 1);
        if particles[upto - 1].batch != batch {
            assert((mates + before.push(upto - 1)).drop_last() == mates + before);
            assert((mates + before.push(upto - 1)).last() == upto - 1);
        }
    }
}

/// The two kinds of pairs cover every pair once: the force pass of its batch adds to a
/// particle the force of every other particle, and of each once.
///
/// The sources of the pass, in the order in which it takes them, hold every other
/// particle and none twice; and what the pass leaves in the accumulator is what was
/// there with the forces of the sources added in that order.
pub proof fn lemma_force_pass_takes_every_other_once(
    particles: Seq<Particle>,
    target: int,
    wrap: Option<Vec2>,
)
    requires
        0 <= target < particles.len(),
    ensures
        sources_spec(particles, target, particles[target].batch).no_duplicates(),
        forall|source: int|
            sources_spec(particles, target, particles[target].batch).contains(source) <==> (0
                <= source < particles.len() && source != target),
        accumulator_spec(
            after_force_pass_spec(particles, target, particles[target].batch, wrap),
            particles[target].batch,
        ) == added_in_order_spec(
            particles,
            target,
            particles[target].batch,
            wrap,
            accumulator_spec(particles[target], particles[target].batch),
            sources_spec(particles, target, particles[target].batch),
        ),
{
    let batch = particles[target].batch;
    let count = particles.len() as int;
    let mates = mates_spec(particles, target, batch, count);
    let outsiders = outsiders_spec(particles, batch, count);
    let sources = mates + outsiders;
    lemma_mates_listed_once(particles, target, batch, count);
    lemma_outsiders_listed_once(particles, batch, count);
    lemma_outsiders_added_in_order(particles, target, batch, wrap, count);
    assert forall|source: int| sources.contains(source) <==> (0 <= source < count && source
        != target) by {
        if sources.contains(source) {
            let at = choose|at: int| 0 <= at < sources.len() && sources[at] == source;
            if at < mates.len() {
                assert(mates[at] == source);
                assert(mates.contains(source));
            } else {
                assert(outsiders[at - mates.len()] == source);
                assert(outsiders.contains(source));
            }
        }
        if 0 <= source < count && source != target {
            if particles[source].batch == batch {
                assert(mates.contains(source));
                let at = choose|at: int| 0 <= at < mates.len() && mates[at] == source;
                assert(sources[at] == source);
            } else {
                assert(outsiders.contains(source));
                let at = choose|at: int| 0 <= at < outsiders.len() && outsiders[at] == source;
                assert(sources[mates.len() + at] == source);
            }
        }
    }
    assert forall|i: int, j: int|
        0 <= i < sources.len() && 0 <= j < sources.len() && i != j implies sources[i]
        != sources[j] by {
        if i < mates.len() {
            assert(mates.contains(mates[i]));
        } else {
            assert(outsiders.contains(outsiders[i - mates.len()]));
        }
        if j < mates.len() {
            assert(mates.contains(mates[j]));
        } else {
            assert(outsiders.contains(outsiders[j - mates.len()]));
        }
    }
}

/// Sums of forces depend on where the particles are and how they are charged, and on
/// nothing else that they hold.
proof fn lemma_sums_ignore_accumulators(
    particles: Seq<Particle>,
    others: Seq<Particle>,
    target: int,
    wrap: Option<Vec2>,
    pick: spec_fn(int) -> bool,
    upto: int,
)
    requires
        0 <= target < particles.len(),
        upto <= particles.len(),
        others.len() == particles.len(),
        forall|index: int|
            0 <= index < particles.len() ==> {
                &&& (#[trigger] others[index]).position == particles[index].position
                &&& others[index].positive == particles[index].positive
            },
    ensures
        force_sum_spec(others, target, wrap, pick, upto) == force_sum_spec(
            particles,
            target,
            wrap,
            pick,
            upto,
        ),
        force_size_spec(others, target, wrap, pick, upto) == force_size_spec(
            particles,
            target,
            wrap,
            pick,
            upto,
        ),
    decreases upto,
{
    if upto > 0 {
        lemma_sums_ignore_accumulators(particles, others, target, wrap, pick, upto - 1);
        assert(others[upto - 1].position == particles[upto - 1].position);
        assert(others[target].position == particles[target].position);
    }
}

/// What a particle holds before the passes that the merge will bring together: its
/// movement, and for a particle of the second batch what the accumulator of the second
/// pass holds too.
pub open spec fn held_spec(particle: Particle) -> (int, int) {
    if particle.batch == Batch::Two {
        (
            particle.movement.0.x + particle.movement_batch2.0.x,
            particle.movement.0.y + particle.movement_batch2.0.y,
        )
    } else {
        (particle.movement.0.x as int, particle.movement.0.y as int)
    }
}

/// The sizes of what a particle holds before the passes, added up.
pub open spec fn held_size_spec(particle: Particle) -> (nat, nat) {
    if particle.batch == Batch::Two {
        (
            abs_spec(particle.movement.0.x as int) + abs_spec(particle.movement_batch2.0.x as int),
            abs_spec(particle.movement.0.y as int) + abs_spec(particle.movement_batch2.0.y as int),
        )
    } else {
        (abs_spec(particle.movement.0.x as int), abs_spec(particle.movement.0.y as int))
    }
}

/// The particles after both force passes and the merge.
pub open spec fn after_passes_and_merge_spec(particles: Seq<Particle>, wrap: Option<Vec2>) -> Seq<
    Particle,
> {
    after_merge_spec(
        force_pass_spec(force_pass_spec(particles, Batch::One, wrap), Batch::Two, wrap),
    )
}

/// The two passes and the merge together match the sum over all pairs: while nothing
/// saturates, every particle, of either batch, ends with one movement that is what it
/// held before plus the plain sum of the forces of all other particles, each counted
/// once. Nothing else about the particle changes, but that the accumulator of the second
/// pass is empty for a particle of the second batch.
///
/// The particles must be in reach, and what the particle held before and the sizes of
/// all the forces on it must together fit in `i64`.
pub proof fn lemma_passes_and_merge_sum_every_pair_once(
    particles: Seq<Particle>,
    target: int,
    wrap: Option<Vec2>,
)
    requires
        0 <= target < particles.len(),
        forall|index: int| 0 <= index < particles.len() ==> in_reach_spec(
            (#[trigger] particles[index]).position,
        ),
        wrap_in_reach_spec(wrap),
        held_size_spec(particles[target]).0 + force_size_spec(
            particles,
            target,
            wrap,
            is_other_spec(target),
            particles.len() as int,
        ).0 <= i64::MAX,
        held_size_spec(particles[target]).1 + force_size_spec(
            particles,
            target,
            wrap,
            is_other_spec(target),
            particles.len() as int,
        ).1 <= i64::MAX,
    ensures
        after_passes_and_merge_spec(particles, wrap)[target].movement.0.x == held_spec(
            particles[target],
        ).0 + force_sum_spec(
            particles,
            target,
            wrap,
            is_other_spec(target),
            particles.len() as int,
        ).0,
        after_passes_and_merge_spec(particles, wrap)[target].movement.0.y == held_spec(
            particles[target],
        ).1 + force_sum_spec(
            particles,
            target,
            wrap,
            is_other_spec(target),
            particles.len() as int,
        ).1,
        after_passes_and_merge_spec(particles, wrap)[target] == (Particle {
            movement: after_passes_and_merge_spec(particles, wrap)[target].movement,
            movement_batch2: if particles[target].batch == Batch::Two {
                MovementBatch2(Vec2::zero_spec())
            } else {
                particles[target].movement_batch2
            },
            ..particles[target]
        }),
{
    let count = particles.len() as int;
    let others = is_other_spec(target);
    let first = force_pass_spec(particles, Batch::One, wrap);
    let second = force_pass_spec(first, Batch::Two, wrap);
    lemma_sum_within_size(particles, target, wrap, others, count, count);
    if particles[target].batch == Batch::One {
        lemma_force_pass_sums_every_pair_once(particles, target, wrap);
        assert(second[target] == first[target]);
    } else {
        assert(first[target] == particles[target]);
        assert forall|index: int| 0 <= index < count implies {
            &&& (#[trigger] first[index]).position == particles[index].position
            &&& first[index].positive == particles[index].positive
        } by {}
        lemma_sums_ignore_accumulators(particles, first, target, wrap, others, count);
        assert forall|index: int| 0 <= index < count implies in_reach_spec(
            (#[trigger] first[index]).position,
        ) by {
            assert(first[index].position == particles[index].position);
        }
        lemma_force_pass_sums_every_pair_once(first, target, wrap);
    }
}

/// The proximity cap bounds the force between two particles, wherever they are: neither
/// component of what one adds to the movement of the other in a tick is larger than
/// [`PAIR_FORCE_LIMIT`].
pub proof fn lemma_pair_force_capped(particle: Particle, other: Particle, wrap: Option<Vec2>)
    ensures
        abs_spec(pair_force_spec(particle, other, wrap).x as int) <= PAIR_FORCE_LIMIT,
        abs_spec(pair_force_spec(particle, other, wrap).y as int) <= PAIR_FORCE_LIMIT,
{
    let offset = offset_2d_spec(particle.position, other.position, wrap);
    let force = force_spec(BASE_FORCE, PROXIMITY_FORCE_CAP, DIMINISHING_POWER, offset);
    lemma_force_capped(BASE_FORCE, PROXIMITY_FORCE_CAP, DIMINISHING_POWER, offset);
    let capped = attenuated_spec(
        strength_spec(BASE_FORCE),
        fine_cap_spec(PROXIMITY_FORCE_CAP),
        DIMINISHING_POWER as nat,
    );
    assert(capped == 26_214_400) by {
        reveal_with_fuel(faded_many_spec, 3);
        assert(BASE_FORCE == 2_814_749_767_106_560_000 && PROXIMITY_FORCE_CAP == 327_680
            && PARTS == 65_536);
        assert(fine_cap_spec(PROXIMITY_FORCE_CAP) == 21_474_836_480);
        assert(2_814_749_767_106_560_000nat * 65_536nat == 21_474_836_480 * 8_589_934_592_000
            + 0) by (nonlinear_arith);
        vstd::arithmetic::div_mod::lemma_fundamental_div_mod_converse(
            2_814_749_767_106_560_000int * 65_536,
            21_474_836_480,
            8_589_934_592_000,
            0,
        );
        assert(8_589_934_592_000nat * 65_536nat == 21_474_836_480 * 26_214_400 + 0)
            by (nonlinear_arith);
        vstd::arithmetic::div_mod::lemma_fundamental_div_mod_converse(
            8_589_934_592_000int * 65_536,
            21_474_836_480,
            26_214_400,
            0,
        );
    }
    lemma_scale_shrinks(force.x as int, 1, TICKS_PER_SECOND as nat, 26_214_400);
    lemma_scale_shrinks(force.y as int, 1, TICKS_PER_SECOND as nat, 26_214_400);
    lemma_scale_odd(force.x as int, 1, TICKS_PER_SECOND as nat);
    lemma_scale_odd(force.y as int, 1, TICKS_PER_SECOND as nat);
    vstd::arithmetic::div_mod::lemma_div_is_ordered(
        (abs_spec(force.x as int) * 1) as int,
        26_214_400,
        60,
    );
    vstd::arithmetic::div_mod::lemma_div_is_ordered(
        (abs_spec(force.y as int) * 1) as int,
        26_214_400,
        60,
    );
}

/// The forces of any number of particles on one are together no larger than that number
/// of times [`PAIR_FORCE_LIMIT`].
pub proof fn lemma_force_size_bounded(
    particles: Seq<Particle>,
    target: int,
    wrap: Option<Vec2>,
    pick: spec_fn(int) -> bool,
    upto: int,
)
    requires
        0 <= upto,
    ensures
        force_size_spec(particles, target, wrap, pick, upto).0 <= upto * PAIR_FORCE_LIMIT,
        force_size_spec(particles, target, wrap, pick, upto).1 <= upto * PAIR_FORCE_LIMIT,
    decreases upto,
{
    if upto > 0 {
        lemma_force_size_bounded(particles, target, wrap, pick, upto - 1);
        lemma_pair_force_capped(particles[target], particles[upto - 1], wrap);
        assert(upto * PAIR_FORCE_LIMIT == (upto - 1) * PAIR_FORCE_LIMIT + PAIR_FORCE_LIMIT)
            by (nonlinear_arith);
    } else {
        assert(0 * PAIR_FORCE_LIMIT == 0) by (nonlinear_arith);
    }
}

/// The two passes and the merge match the sum over all pairs for every population that
/// `i64` has room for: where the particles are in reach, and what a particle held before
/// leaves room for [`PAIR_FORCE_LIMIT`] from each particle, that particle ends with one
/// movement that is what it held before plus the plain sum of the forces of all other
/// particles, each counted once.
///
/// For particles at rest this is so for every population of up to ten million million.
pub proof fn lemma_population_sums_every_pair_once(
    particles: Seq<Particle>,
    target: int,
    wrap: Option<Vec2>,
)
    requires
        0 <= target < particles.len(),
        forall|index: int| 0 <= index < particles.len() ==> in_reach_spec(
            (#[trigger] particles[index]).position,
        ),
        wrap_in_reach_spec(wrap),
        held_size_spec(particles[target]).0 + particles.len() * PAIR_FORCE_LIMIT <= i64::MAX,
        held_size_spec(particles[target]).1 + particles.len() * PAIR_FORCE_LIMIT <= i64::MAX,
    ensures
        after_passes_and_merge_spec(particles, wrap)[target].movement.0.x == held_spec(
            particles[target],
        ).0 + force_sum_spec(
            particles,
            target,
            wrap,
            is_other_spec(target),
            particles.len() as int,
        ).0,
        after_passes_and_merge_spec(particles, wrap)[target].movement.0.y == held_spec(
            particles[target],
        ).1 + force_sum_spec(
            particles,
            target,
            wrap,
            is_other_spec(target),
            particles.len() as int,
        ).1,
{
    lemma_force_size_bounded(
        particles,
        target,
        wrap,
        is_other_spec(target),
        particles.len() as int,
    );
    lemma_passes_and_merge_sum_every_pair_once(particles, target, wrap);
}

} // verus!
