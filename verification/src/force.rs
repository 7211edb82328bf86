//! The force law: a signed pull or push that fades with distance by a power of it, and
//! that is held at its strength at the proximity cap for anything nearer.
//!
//! Distances are measured in parts of a step, [`PARTS`] to the step, so that the force
//! is right to a few steps however near its source is.

use vstd::prelude::*;
use vstd::arithmetic::div_mod::{lemma_div_by_multiple, lemma_div_is_ordered};
use crate::time::TICKS_PER_SECOND;
use crate::vector::{
    abs_spec, floor_sqrt, isqrt, lemma_components_within_length, lemma_fine_length_covers,
    lemma_floor_sqrt_at_least, lemma_floor_sqrt_grows, lemma_negated_length,
    lemma_scale_bounded, lemma_scale_odd, lemma_scale_shrinks, lemma_scale_within, magnitude,
    narrow, scale_spec, Vec2, FINE_LIMIT, PARTS,
};

verus! {

/// What the square root of a distance in parts is multiplied by to give its root as a
/// whole number: 2 to the power of 32.
pub const ROOT_SCALE: u128 = 0x1_0000_0000_0000_0000;

/// The root of one step, as [`root_spec`] gives it: 2 to the power of 40.
pub const ROOT_OF_STEP: u128 = 0x100_0000_0000;

/// The fourth root of one step, as [`fourth_root_spec`] gives it: 2 to the power of 52.
pub const FOURTH_ROOT_OF_STEP: u128 = 0x10_0000_0000_0000;

/// The square root of a distance in parts, [`ROOT_OF_STEP`] to the root of a step,
/// rounded down.
pub open spec fn root_spec(distance: nat) -> nat {
    floor_sqrt(distance * ROOT_SCALE as nat)
}

/// The fourth root of a distance in parts, [`FOURTH_ROOT_OF_STEP`] to the fourth root of
/// a step, rounded down.
pub open spec fn fourth_root_spec(distance: nat) -> nat {
    floor_sqrt(root_spec(distance) * ROOT_SCALE as nat)
}

/// `strength` divided by a distance in parts, rounded down.
pub open spec fn faded_spec(strength: nat, distance: nat) -> nat {
    strength * PARTS as nat / distance
}

/// `strength` divided by a distance in parts `powers` times over, rounded down each time.
pub open spec fn faded_many_spec(strength: nat, distance: nat, powers: nat) -> nat
    decreases powers,
{
    if powers == 0 {
        strength
    } else {
        faded_spec(faded_many_spec(strength, distance, (powers - 1) as nat), distance)
    }
}

/// `strength` divided by the square root of a distance in parts, rounded down.
pub open spec fn root_faded_spec(strength: nat, distance: nat) -> nat {
    strength * ROOT_OF_STEP as nat / root_spec(distance)
}

/// `strength` divided by the fourth root of a distance in parts, rounded down.
pub open spec fn fourth_root_faded_spec(strength: nat, distance: nat) -> nat {
    strength * FOURTH_ROOT_OF_STEP as nat / fourth_root_spec(distance)
}

/// `strength` divided by a distance to the power of `exponent_quarters / 4`, for a
/// distance in parts of a step.
///
/// The whole powers are divided out first, one by one; then half a power, if the
/// quarters left over hold one; then a quarter of a power, if one is left. Each division
/// rounds down.
pub open spec fn attenuated_spec(strength: nat, distance: nat, exponent_quarters: nat) -> nat {
    let whole = faded_many_spec(strength, distance, exponent_quarters / 4);
    let halved = if exponent_quarters % 4 >= 2 {
        root_faded_spec(whole, distance)
    } else {
        whole
    };
    if exponent_quarters % 2 == 1 {
        fourth_root_faded_spec(halved, distance)
    } else {
        halved
    }
}

/// The roots grow with the distance, and those of a distance of at least one step are at
/// least the roots of one step.
pub proof fn lemma_roots_grow(nearer: nat, farther: nat)
    requires
        nearer <= farther,
    ensures
        root_spec(nearer) <= root_spec(farther),
        fourth_root_spec(nearer) <= fourth_root_spec(farther),
        nearer >= PARTS ==> root_spec(nearer) >= ROOT_OF_STEP && fourth_root_spec(nearer)
            >= FOURTH_ROOT_OF_STEP,
{
    assert(nearer * ROOT_SCALE as nat <= farther * ROOT_SCALE as nat) by (nonlinear_arith)
        requires
            nearer <= farther,
    ;
    lemma_floor_sqrt_grows(nearer * ROOT_SCALE as nat, farther * ROOT_SCALE as nat);
    let low = root_spec(nearer);
    let high = root_spec(farther);
    assert(low * ROOT_SCALE as nat <= high * ROOT_SCALE as nat) by (nonlinear_arith)
        requires
            low <= high,
    ;
    lemma_floor_sqrt_grows(low * ROOT_SCALE as nat, high * ROOT_SCALE as nat);
    if nearer >= PARTS {
        assert(0x100_0000_0000nat * 0x100_0000_0000nat <= nearer * ROOT_SCALE as nat)
            by (nonlinear_arith)
            requires
                nearer >= 65_536,
                ROOT_SCALE == 0x1_0000_0000_0000_0000,
        ;
        lemma_floor_sqrt_at_least(nearer * ROOT_SCALE as nat, 0x100_0000_0000);
        assert(0x10_0000_0000_0000nat * 0x10_0000_0000_0000nat <= low * ROOT_SCALE as nat)
            by (nonlinear_arith)
            requires
                low >= 0x100_0000_0000,
                ROOT_SCALE == 0x1_0000_0000_0000_0000,
        ;
        lemma_floor_sqrt_at_least(low * ROOT_SCALE as nat, 0x10_0000_0000_0000);
    }
}

/// A quotient grows with what is divided and shrinks with what divides.
proof fn lemma_quotient_ordered(less: nat, more: nat, scale: nat, smaller: nat, larger: nat)
    requires
        less <= more,
        1 <= smaller <= larger,
    ensures
        less * scale / larger <= more * scale / smaller,
{
    assert(less * scale <= more * scale) by (nonlinear_arith)
        requires
            less <= more,
    ;
    lemma_div_is_ordered((less * scale) as int, (more * scale) as int, larger as int);
    vstd::arithmetic::div_mod::lemma_div_is_ordered_by_denominator(
        (more * scale) as int,
        smaller as int,
        larger as int,
    );
}

/// A division by a distance, by its root or by its fourth root gives less for a weaker
/// strength and for a larger distance, and never more than the strength.
pub proof fn lemma_faded_ordered(weaker: nat, stronger: nat, nearer: nat, farther: nat)
    requires
        weaker <= stronger,
        PARTS <= nearer <= farther,
    ensures
        faded_spec(weaker, farther) <= faded_spec(stronger, nearer) <= stronger,
        root_faded_spec(weaker, farther) <= root_faded_spec(stronger, nearer) <= stronger,
        fourth_root_faded_spec(weaker, farther) <= fourth_root_faded_spec(stronger, nearer)
            <= stronger,
{
    lemma_roots_grow(nearer, farther);
    lemma_quotient_ordered(weaker, stronger, PARTS as nat, nearer, farther);
    lemma_quotient_ordered(
        weaker,
        stronger,
        ROOT_OF_STEP as nat,
        root_spec(nearer),
        root_spec(farther),
    );
    lemma_quotient_ordered(
        weaker,
        stronger,
        FOURTH_ROOT_OF_STEP as nat,
        fourth_root_spec(nearer),
        fourth_root_spec(farther),
    );
    lemma_quotient_within(stronger, PARTS as nat, nearer);
    lemma_quotient_within(stronger, ROOT_OF_STEP as nat, root_spec(nearer));
    lemma_quotient_within(stronger, FOURTH_ROOT_OF_STEP as nat, fourth_root_spec(nearer));
}

/// Multiplying by no more than what is then divided by does not enlarge.
proof fn lemma_quotient_within(value: nat, scale: nat, divisor: nat)
    requires
        1 <= scale <= divisor,
    ensures
        value * scale / divisor <= value,
{
    assert(value * scale <= value * divisor) by (nonlinear_arith)
        requires
            scale <= divisor,
    ;
    lemma_div_is_ordered((value * scale) as int, (value * divisor) as int, divisor as int);
    lemma_div_by_multiple(value as int, divisor as int);
}

/// Division by a distance many times over gives less for a weaker strength and for a
/// larger distance, and never more than the strength where the distance is at least one
/// step.
pub proof fn lemma_faded_many_ordered(
    weaker: nat,
    stronger: nat,
    nearer: nat,
    farther: nat,
    powers: nat,
)
    requires
        weaker <= stronger,
        PARTS <= nearer <= farther,
    ensures
        faded_many_spec(weaker, farther, powers) <= faded_many_spec(stronger, nearer, powers)
            <= stronger,
    decreases powers,
{
    if powers > 0 {
        lemma_faded_many_ordered(weaker, stronger, nearer, farther, (powers - 1) as nat);
        lemma_faded_ordered(
            faded_many_spec(weaker, farther, (powers - 1) as nat),
            faded_many_spec(stronger, nearer, (powers - 1) as nat),
            nearer,
            farther,
        );
    }
}

/// A force fades with distance: at a larger distance it is no stronger than at a smaller
/// one, and at no distance of a step or more is it stronger than at its source.
pub proof fn lemma_attenuation_fades_with_distance(
    strength: nat,
    nearer: nat,
    farther: nat,
    exponent_quarters: nat,
)
    requires
        PARTS <= nearer <= farther,
    ensures
        attenuated_spec(strength, farther, exponent_quarters) <= attenuated_spec(
            strength,
            nearer,
            exponent_quarters,
        ) <= strength,
{
    let powers = exponent_quarters / 4;
    lemma_faded_many_ordered(strength, strength, nearer, farther, powers);
    let near_whole = faded_many_spec(strength, nearer, powers);
    let far_whole = faded_many_spec(strength, farther, powers);
    lemma_faded_ordered(far_whole, near_whole, nearer, farther);
    let near_halved = if exponent_quarters % 4 >= 2 {
        root_faded_spec(near_whole, nearer)
    } else {
        near_whole
    };
    let far_halved = if exponent_quarters % 4 >= 2 {
        root_faded_spec(far_whole, farther)
    } else {
        far_whole
    };
    lemma_faded_ordered(far_halved, near_halved, nearer, farther);
}

/// Distance never strengthens a force.
pub proof fn lemma_attenuation_weakens(strength: nat, distance: nat, exponent_quarters: nat)
    requires
        distance >= PARTS,
    ensures
        attenuated_spec(strength, distance, exponent_quarters) <= strength,
{
    lemma_attenuation_fades_with_distance(strength, distance, distance, exponent_quarters);
}

/// The square root of a distance in parts.
pub fn root(distance: u64) -> (root: u64)
    ensures
        root == root_spec(distance as nat),
{
    let wide: u128 = distance as u128;
    assert(wide * 0x1_0000_0000_0000_0000 <= 0xffff_ffff_ffff_ffff * 0x1_0000_0000_0000_0000)
        by (nonlinear_arith)
        requires
            wide <= 0xffff_ffff_ffff_ffff,
    ;
    assert(ROOT_SCALE == 0x1_0000_0000_0000_0000);
    isqrt(wide * 0x1_0000_0000_0000_0000)
}

/// The fourth root of a distance in parts.
pub fn fourth_root(distance: u64) -> (root: u64)
    ensures
        root == fourth_root_spec(distance as nat),
{
    let wide: u128 = root(distance) as u128;
    assert(wide * 0x1_0000_0000_0000_0000 <= 0xffff_ffff_ffff_ffff * 0x1_0000_0000_0000_0000)
        by (nonlinear_arith)
        requires
            wide <= 0xffff_ffff_ffff_ffff,
    ;
    assert(ROOT_SCALE == 0x1_0000_0000_0000_0000);
    isqrt(wide * 0x1_0000_0000_0000_0000)
}

/// `strength * scale / divisor`, for a scale that is at most the divisor.
fn quotient(strength: u64, scale: u128, divisor: u64) -> (faded: u64)
    requires
        1 <= scale <= divisor,
    ensures
        faded == strength as nat * scale as nat / divisor as nat,
        faded <= strength,
{
    let wide: u128 = strength as u128;
    assert(wide * scale <= 0xffff_ffff_ffff_ffff * 0xffff_ffff_ffff_ffff) by (nonlinear_arith)
        requires
            wide <= 0xffff_ffff_ffff_ffff,
            scale <= 0xffff_ffff_ffff_ffff,
    ;
    proof {
        lemma_quotient_within(strength as nat, scale as nat, divisor as nat);
    }
    (wide * scale / (divisor as u128)) as u64
}

/// `strength` divided by a distance in parts of at least one step.
fn faded(strength: u64, distance: u64) -> (faded: u64)
    requires
        distance >= PARTS,
    ensures
        faded == faded_spec(strength as nat, distance as nat),
        faded <= strength,
{
    quotient(strength, PARTS as u128, distance)
}

/// `strength` divided by the square root of a distance in parts of at least one step.
pub fn root_faded(strength: u64, distance: u64) -> (faded: u64)
    requires
        distance >= PARTS,
    ensures
        faded == root_faded_spec(strength as nat, distance as nat),
        faded <= strength,
{
    proof {
        lemma_roots_grow(distance as nat, distance as nat);
    }
    quotient(strength, ROOT_OF_STEP, root(distance))
}

/// `strength` divided by the fourth root of a distance in parts of at least one step.
pub fn fourth_root_faded(strength: u64, distance: u64) -> (faded: u64)
    requires
        distance >= PARTS,
    ensures
        faded == fourth_root_faded_spec(strength as nat, distance as nat),
        faded <= strength,
{
    proof {
        lemma_roots_grow(distance as nat, distance as nat);
    }
    quotient(strength, FOURTH_ROOT_OF_STEP, fourth_root(distance))
}

/// Once a strength has faded to nothing it stays there.
proof fn lemma_faded_out(distance: nat, powers: nat)
    requires
        distance >= 1,
    ensures
        faded_many_spec(0, distance, powers) == 0,
    decreases powers,
{
    if powers > 0 {
        lemma_faded_out(distance, (powers - 1) as nat);
        assert(0nat * PARTS as nat == 0) by (nonlinear_arith);
        vstd::arithmetic::div_mod::lemma_basic_div(0, distance as int);
    }
}

/// A distance of just one step divides nothing away.
proof fn lemma_faded_at_a_step(strength: nat, powers: nat)
    ensures
        faded_many_spec(strength, PARTS as nat, powers) == strength,
    decreases powers,
{
    if powers > 0 {
        lemma_faded_at_a_step(strength, (powers - 1) as nat);
        lemma_div_by_multiple(strength as int, PARTS as int);
    }
}

/// Dividing `more` times over is dividing `fewer` times and then the rest of the times.
proof fn lemma_faded_many_adds(strength: nat, distance: nat, fewer: nat, more: nat)
    requires
        fewer <= more,
    ensures
        faded_many_spec(strength, distance, more) == faded_many_spec(
            faded_many_spec(strength, distance, fewer),
            distance,
            (more - fewer) as nat,
        ),
    decreases more,
{
    if fewer < more {
        lemma_faded_many_adds(strength, distance, fewer, (more - 1) as nat);
    }
}

/// `strength` divided by a distance to the power of `exponent_quarters / 4`, for a
/// distance in parts of a step: with `exponent_quarters` 8 the inverse-square law, with 6
/// a power of one and a half.
///
/// The distance is at least one step, [`PARTS`] parts: over a shorter one the strength
/// would grow, beyond what `u64` may hold.
pub fn attenuate(strength: u64, distance: u64, exponent_quarters: u32) -> (faded: u64)
    requires
        distance >= PARTS,
    ensures
        faded == attenuated_spec(strength as nat, distance as nat, exponent_quarters as nat),
        faded <= strength,
{
    let powers: u32 = exponent_quarters / 4;
    let mut whole: u64 = strength;
    let mut divided: u32 = 0;
    while divided < powers && whole > 0 && distance > PARTS
        invariant
            divided <= powers,
            distance >= PARTS,
            whole <= strength,
            whole == faded_many_spec(strength as nat, distance as nat, divided as nat),
        decreases powers - divided,
    {
        whole = faded(whole, distance);
        divided = divided + 1;
    }
    proof {
        lemma_faded_many_adds(strength as nat, distance as nat, divided as nat, powers as nat);
        if divided < powers {
            if whole == 0 {
                lemma_faded_out(distance as nat, (powers - divided) as nat);
            } else {
                lemma_faded_at_a_step(whole as nat, (powers - divided) as nat);
            }
        }
    }
    let halved: u64 = if exponent_quarters % 4 >= 2 {
        root_faded(whole, distance)
    } else {
        whole
    };
    if exponent_quarters % 2 == 1 {
        fourth_root_faded(halved, distance)
    } else {
        halved
    }
}

/// The magnitude of a base force, held to what `i64` can hold with either sign.
pub open spec fn strength_spec(base_force: i64) -> nat {
    if base_force == i64::MIN {
        i64::MAX as nat
    } else {
        abs_spec(base_force as int)
    }
}

/// The proximity cap in parts of a step: nothing for a cap that is not positive, and the
/// largest `u64` for a cap of 2^48 steps or more.
pub open spec fn fine_cap_spec(proximity_cap: i64) -> nat {
    if proximity_cap <= 0 {
        0
    } else if proximity_cap * PARTS > u64::MAX {
        u64::MAX as nat
    } else {
        (proximity_cap * PARTS) as nat
    }
}

/// The distance that the force law works with, in parts of a step: the length of the
/// offset, or the proximity cap where that is larger. Neither counts for more than 2^48
/// steps.
pub open spec fn effective_distance_spec(proximity_cap: i64, offset: Vec2) -> nat {
    if fine_cap_spec(proximity_cap) > offset.fine_length_spec() {
        fine_cap_spec(proximity_cap)
    } else {
        offset.fine_length_spec()
    }
}

/// The vector of the given strength along `offset`: the offset times the strength over
/// its length, each component rounded toward zero. The length is taken in parts of a
/// step for an offset shorter than 2^48 steps, and in steps for a longer one.
pub open spec fn along_spec(offset: Vec2, strength: nat) -> Vec2 {
    if offset.length_squared_spec() < FINE_LIMIT {
        offset.scaled_spec(strength * PARTS as nat, offset.fine_length_spec())
    } else {
        offset.scaled_spec(strength, offset.length_spec())
    }
}

/// The force at `offset` from its source.
///
/// Nothing at the source itself. Elsewhere the base force, divided by the effective
/// distance to the power of `exponent_quarters / 4`, along the offset; against it where the
/// base force is negative.
pub open spec fn force_spec(
    base_force: i64,
    proximity_cap: i64,
    exponent_quarters: u32,
    offset: Vec2,
) -> Vec2 {
    if offset == Vec2::zero_spec() {
        Vec2::zero_spec()
    } else {
        let along = along_spec(
            offset,
            attenuated_spec(
                strength_spec(base_force),
                effective_distance_spec(proximity_cap, offset),
                exponent_quarters as nat,
            ),
        );
        if base_force < 0 {
            along.negated_spec()
        } else {
            along
        }
    }
}

/// A vector other than zero is at least one step long.
pub proof fn lemma_length_positive(offset: Vec2)
    requires
        offset != Vec2::zero_spec(),
    ensures
        offset.length_spec() >= 1,
{
    lemma_fine_length_covers(offset);
}

/// A vector of some strength along an offset has no component larger than the strength,
/// and along the opposite offset it is the opposite vector.
pub proof fn lemma_along_bounded_and_odd(offset: Vec2, strength: nat)
    requires
        offset != Vec2::zero_spec(),
        strength <= i64::MAX,
    ensures
        abs_spec(along_spec(offset, strength).x as int) <= strength,
        abs_spec(along_spec(offset, strength).y as int) <= strength,
        offset.x > i64::MIN && offset.y > i64::MIN ==> along_spec(
            offset.negated_spec(),
            strength,
        ) == along_spec(offset, strength).negated_spec(),
{
    lemma_fine_length_covers(offset);
    lemma_components_within_length(offset);
    if offset.length_squared_spec() < FINE_LIMIT {
        let length = offset.fine_length_spec();
        let x = abs_spec(offset.x as int);
        let y = abs_spec(offset.y as int);
        assert(x * (strength * PARTS as nat) <= strength * length && y * (strength
            * PARTS as nat) <= strength * length) by (nonlinear_arith)
            requires
                x * PARTS <= length,
                y * PARTS <= length,
        ;
        lemma_scale_bounded(offset.x as int, strength * PARTS as nat, length, strength);
        lemma_scale_bounded(offset.y as int, strength * PARTS as nat, length, strength);
        lemma_scale_odd(offset.x as int, strength * PARTS as nat, length);
        lemma_scale_odd(offset.y as int, strength * PARTS as nat, length);
    } else {
        lemma_scale_within(offset.x as int, strength, offset.length_spec());
        lemma_scale_within(offset.y as int, strength, offset.length_spec());
        lemma_scale_odd(offset.x as int, strength, offset.length_spec());
        lemma_scale_odd(offset.y as int, strength, offset.length_spec());
    }
    if offset.x > i64::MIN && offset.y > i64::MIN {
        lemma_negated_length(offset);
    }
}

/// One component of the vector of the given strength along an offset shorter than 2^48
/// steps.
fn along_component(component: i64, strength: u64, fine_length: u64) -> (along: i64)
    requires
        fine_length > 0,
        abs_spec(component as int) < 0x1_0000_0000_0000,
        strength <= 0x7fff_ffff_ffff_ffff,
    ensures
        along == scale_spec(component as int, strength as nat * PARTS as nat, fine_length as nat),
{
    let size: u128 = magnitude(component) as u128;
    let factor: u128 = strength as u128;
    assert(factor * 65_536 <= 0x7fff_ffff_ffff_ffff * 65_536 && size * (factor * 65_536)
        <= 0x1_0000_0000_0000 * (0x7fff_ffff_ffff_ffff * 65_536)) by (nonlinear_arith)
        requires
            size <= 0x1_0000_0000_0000,
            factor <= 0x7fff_ffff_ffff_ffff,
    ;
    let quotient: u128 = size * (factor * 65_536) / (fine_length as u128);
    if component < 0 {
        if quotient > 0x8000_0000_0000_0000u128 {
            i64::MIN
        } else {
            narrow(-(quotient as i128))
        }
    } else {
        if quotient > 0x7fff_ffff_ffff_ffffu128 {
            i64::MAX
        } else {
            quotient as i64
        }
    }
}

/// The proximity cap in parts of a step.
fn fine_cap(proximity_cap: i64) -> (cap: u64)
    ensures
        cap == fine_cap_spec(proximity_cap),
{
    if proximity_cap <= 0 {
        0
    } else if proximity_cap >= 0x1_0000_0000_0000 {
        u64::MAX
    } else {
        (proximity_cap as u64) * PARTS
    }
}

/// The force at `offset` from a source of strength `base_force`.
///
/// The zero offset gives the zero force, whatever the other arguments.
pub fn calculate_force(
    base_force: i64,
    proximity_cap: i64,
    exponent_quarters: u32,
    offset: Vec2,
) -> (force: Vec2)
    ensures
        force == force_spec(base_force, proximity_cap, exponent_quarters, offset),
        offset == Vec2::zero_spec() ==> force == Vec2::zero_spec(),
{
    if offset.is_zero() {
        return Vec2::zero();
    }
    proof {
        lemma_fine_length_covers(offset);
    }
    let fine_length: u64 = offset.fine_length();
    let cap: u64 = fine_cap(proximity_cap);
    let effective: u64 = if cap > fine_length {
        cap
    } else {
        fine_length
    };
    let strength: u64 = if base_force == i64::MIN {
        i64::MAX as u64
    } else {
        magnitude(base_force)
    };
    let faded: u64 = attenuate(strength, effective, exponent_quarters);
    let along: Vec2 = if offset.length_squared() < FINE_LIMIT {
        Vec2 {
            x: along_component(offset.x, faded, fine_length),
            y: along_component(offset.y, faded, fine_length),
        }
    } else {
        offset.scaled(faded, offset.length())
    };
    if base_force < 0 {
        along.saturating_neg()
    } else {
        along
    }
}

/// What a force held for one tick adds to a movement: a sixtieth of it, rounded toward
/// zero.
pub open spec fn per_tick_spec(force: Vec2) -> Vec2 {
    force.scaled_spec(1, TICKS_PER_SECOND as nat)
}

/// What a force held for one tick adds to a movement.
pub fn per_tick(force: Vec2) -> (impulse: Vec2)
    ensures
        impulse == per_tick_spec(force),
{
    force.scaled(1, TICKS_PER_SECOND)
}

/// The proximity cap holds the force down: with a cap of at least one step, no component
/// of the force at any offset is larger than the base force faded over the cap. Nearer
/// than the cap the force works with the cap for the distance, and farther away it has
/// faded further.
pub proof fn lemma_force_capped(
    base_force: i64,
    proximity_cap: i64,
    exponent_quarters: u32,
    offset: Vec2,
)
    requires
        proximity_cap >= 1,
    ensures
        effective_distance_spec(proximity_cap, offset) >= fine_cap_spec(proximity_cap) >= PARTS,
        offset.fine_length_spec() <= fine_cap_spec(proximity_cap) ==> effective_distance_spec(
            proximity_cap,
            offset,
        ) == fine_cap_spec(proximity_cap),
        abs_spec(force_spec(base_force, proximity_cap, exponent_quarters, offset).x as int)
            <= attenuated_spec(
            strength_spec(base_force),
            fine_cap_spec(proximity_cap),
            exponent_quarters as nat,
        ),
        abs_spec(force_spec(base_force, proximity_cap, exponent_quarters, offset).y as int)
            <= attenuated_spec(
            strength_spec(base_force),
            fine_cap_spec(proximity_cap),
            exponent_quarters as nat,
        ),
{
    assert(proximity_cap * PARTS >= PARTS) by (nonlinear_arith)
        requires
            proximity_cap >= 1,
    ;
    if offset != Vec2::zero_spec() {
        let distance = effective_distance_spec(proximity_cap, offset);
        let strength = strength_spec(base_force);
        let faded = attenuated_spec(strength, distance, exponent_quarters as nat);
        lemma_attenuation_fades_with_distance(
            strength,
            fine_cap_spec(proximity_cap),
            distance,
            exponent_quarters as nat,
        );
        lemma_along_bounded_and_odd(offset, faded);
    }
}

/// No component of a force is larger than the base force.
pub proof fn lemma_force_bounded(
    base_force: i64,
    proximity_cap: i64,
    exponent_quarters: u32,
    offset: Vec2,
)
    ensures
        abs_spec(force_spec(base_force, proximity_cap, exponent_quarters, offset).x as int)
            <= strength_spec(base_force) <= i64::MAX,
        abs_spec(force_spec(base_force, proximity_cap, exponent_quarters, offset).y as int)
            <= strength_spec(base_force),
{
    if offset != Vec2::zero_spec() {
        lemma_fine_length_covers(offset);
        let distance = effective_distance_spec(proximity_cap, offset);
        let faded = attenuated_spec(strength_spec(base_force), distance, exponent_quarters as nat);
        lemma_attenuation_weakens(strength_spec(base_force), distance, exponent_quarters as nat);
        lemma_along_bounded_and_odd(offset, faded);
    }
}

/// The force law is odd: at the opposite offset the force is the opposite.
pub proof fn lemma_force_odd(
    base_force: i64,
    proximity_cap: i64,
    exponent_quarters: u32,
    offset: Vec2,
)
    requires
        offset.x > i64::MIN,
        offset.y > i64::MIN,
    ensures
        force_spec(base_force, proximity_cap, exponent_quarters, offset.negated_spec())
            == force_spec(base_force, proximity_cap, exponent_quarters, offset).negated_spec(),
{
    lemma_negated_length(offset);
    if offset != Vec2::zero_spec() {
        lemma_fine_length_covers(offset);
        let distance = effective_distance_spec(proximity_cap, offset);
        let faded = attenuated_spec(strength_spec(base_force), distance, exponent_quarters as nat);
        lemma_attenuation_weakens(strength_spec(base_force), distance, exponent_quarters as nat);
        lemma_along_bounded_and_odd(offset, faded);
        assert(effective_distance_spec(proximity_cap, offset.negated_spec()) == distance);
    }
}

/// The share of one tick is odd, and no larger than the force.
pub proof fn lemma_per_tick_odd(force: Vec2)
    requires
        force.x > i64::MIN,
        force.y > i64::MIN,
    ensures
        per_tick_spec(force.negated_spec()) == per_tick_spec(force).negated_spec(),
        abs_spec(per_tick_spec(force).x as int) <= abs_spec(force.x as int),
        abs_spec(per_tick_spec(force).y as int) <= abs_spec(force.y as int),
{
    lemma_scale_shrinks(force.x as int, 1, TICKS_PER_SECOND as nat, abs_spec(force.x as int));
    lemma_scale_shrinks(force.y as int, 1, TICKS_PER_SECOND as nat, abs_spec(force.y as int));
    lemma_scale_odd(force.x as int, 1, TICKS_PER_SECOND as nat);
    lemma_scale_odd(force.y as int, 1, TICKS_PER_SECOND as nat);
}

} // verus!
