//! Headings: which way something on the plane is turned.

use vstd::prelude::*;
use crate::force::lemma_length_positive;
use crate::vector::{
    abs_spec, clamp_i64, floor_sqrt, isqrt, lemma_components_within_length,
    lemma_floor_sqrt_at_least, lemma_scale_bounded, lemma_scale_odd, lemma_scale_within, narrow,
    Vec2, FINE_LIMIT, FINE_SQUARED, UNIT,
};

verus! {

/// A direction on the plane: a vector of one unit in length, but for rounding.
#[derive(Clone, Copy, Debug, PartialEq, Eq, Structural)]
pub struct Heading {
    direction: Vec2,
}

/// The direction from `from` to `to`: the offset brought to one unit in length, each
/// component rounded toward zero; along the first axis where the two points are the
/// same.
///
/// The offset is divided by its length and multiplied by the unit. The length of an
/// offset whose squared length is below [`FINE_LIMIT`] is taken in parts of a step, 65536
/// to the step, rounded down; that of a longer one in steps.
pub open spec fn heading_toward_spec(from: Vec2, to: Vec2) -> Vec2 {
    let offset = to.difference_spec(from);
    if offset == Vec2::zero_spec() {
        Vec2 { x: UNIT, y: 0 }
    } else if offset.length_squared_spec() < FINE_LIMIT {
        offset.scaled_spec(
            FINE_SQUARED as nat,
            floor_sqrt(offset.length_squared_spec() * FINE_SQUARED as nat),
        )
    } else {
        offset.scaled_spec(UNIT as nat, offset.length_spec())
    }
}

impl Heading {
    #[verifier::type_invariant]
    spec fn short(self) -> bool {
        &&& -UNIT <= self.direction.x <= UNIT
        &&& -UNIT <= self.direction.y <= UNIT
    }

    /// The heading as a vector.
    pub closed spec fn direction(self) -> Vec2 {
        self.direction
    }

    /// The heading from `from` towards `to`.
    pub closed spec fn toward_spec(from: Vec2, to: Vec2) -> Heading {
        Heading { direction: heading_toward_spec(from, to) }
    }

    /// The heading along the first axis.
    pub closed spec fn default_spec() -> Heading {
        Heading { direction: Vec2 { x: UNIT, y: 0 } }
    }

    /// What the headings made here head along.
    pub proof fn lemma_directions(from: Vec2, to: Vec2)
        ensures
            Heading::toward_spec(from, to).direction() == heading_toward_spec(from, to),
            Heading::default_spec().direction() == (Vec2 { x: UNIT, y: 0 }),
    {
    }

    /// The heading from `from` towards `to`.
    pub fn toward(from: Vec2, to: Vec2) -> (heading: Heading)
        ensures
            heading == Heading::toward_spec(from, to),
            heading.direction() == heading_toward_spec(from, to),
    {
        let offset: Vec2 = to.saturating_sub(from);
        if offset.is_zero() {
            return Heading { direction: Vec2 { x: UNIT, y: 0 } };
        }
        let squared: u128 = offset.length_squared();
        proof {
            lemma_length_positive(offset);
            lemma_components_within_length(offset);
        }
        if squared < FINE_LIMIT {
            let ghost plain = offset.x * offset.x + offset.y * offset.y;
            proof {
                let ox = offset.x as int;
                let oy = offset.y as int;
                assert(ox * ox + oy * oy >= 1) by (nonlinear_arith)
                    requires
                        ox != 0 || oy != 0,
                ;
                assert(squared == plain);
                assert(FINE_SQUARED == 0x1_0000_0000 && FINE_LIMIT == 0x1_0000_0000_0000_0000_0000_0000);
            }
            let fine: u64 = isqrt(squared * 0x1_0000_0000);
            proof {
                let x = abs_spec(offset.x as int);
                let y = abs_spec(offset.y as int);
                let wide = (squared * 0x1_0000_0000) as nat;
                assert(wide == offset.length_squared_spec() * FINE_SQUARED as nat);
                assert((x * 65_536) * (x * 65_536) <= wide && (y * 65_536) * (y * 65_536) <= wide
                    && 65_536 * 65_536 <= wide) by (nonlinear_arith)
                    requires
                        wide == plain * 0x1_0000_0000,
                        plain == offset.x * offset.x + offset.y * offset.y,
                        plain >= 1,
                        x == offset.x || x == -offset.x,
                        y == offset.y || y == -offset.y,
                ;
                lemma_floor_sqrt_at_least(wide, x * 65_536);
                lemma_floor_sqrt_at_least(wide, y * 65_536);
                assert(65_536 <= fine) by {
                    lemma_floor_sqrt_at_least(wide, 65_536);
                }
                assert(x * 0x1_0000_0000 <= 65_536 * fine && y * 0x1_0000_0000 <= 65_536 * fine)
                    by (nonlinear_arith)
                    requires
                        x * 65_536 <= fine,
                        y * 65_536 <= fine,
                ;
                lemma_scale_bounded(offset.x as int, FINE_SQUARED as nat, fine as nat, UNIT as nat);
                lemma_scale_bounded(offset.y as int, FINE_SQUARED as nat, fine as nat, UNIT as nat);
                lemma_scale_odd(offset.x as int, FINE_SQUARED as nat, fine as nat);
                lemma_scale_odd(offset.y as int, FINE_SQUARED as nat, fine as nat);
            }
            Heading { direction: offset.scaled(0x1_0000_0000, fine) }
        } else {
            let length: u64 = isqrt(squared);
            proof {
                lemma_scale_within(offset.x as int, UNIT as nat, length as nat);
                lemma_scale_within(offset.y as int, UNIT as nat, length as nat);
                lemma_scale_odd(offset.x as int, UNIT as nat, length as nat);
                lemma_scale_odd(offset.y as int, UNIT as nat, length as nat);
            }
            Heading { direction: offset.scaled(UNIT as u64, length) }
        }
    }

    /// The heading as a vector; neither component is longer than a unit.
    pub fn get(&self) -> (direction: Vec2)
        ensures
            direction == self.direction(),
            -UNIT <= direction.x <= UNIT,
            -UNIT <= direction.y <= UNIT,
    {
        proof {
            use_type_invariant(self);
        }
        self.direction
    }
}

impl Default for Heading {
    /// Along the first axis.
    fn default() -> (heading: Heading)
        ensures
            heading == Heading::default_spec(),
            heading.direction() == (Vec2 { x: UNIT, y: 0 }),
    {
        Heading { direction: Vec2 { x: UNIT, y: 0 } }
    }
}

/// `value / divisor`, rounded toward zero.
pub open spec fn toward_zero_spec(value: int, divisor: int) -> int {
    if value < 0 {
        -((-value) / divisor)
    } else {
        value / divisor
    }
}

/// `vector` turned by the angle between the first axis and `direction`, for a direction
/// one unit long; each component rounded toward zero and held to the range of `i64`.
pub open spec fn rotated_spec(direction: Vec2, vector: Vec2) -> Vec2 {
    Vec2 {
        x: clamp_i64(
            toward_zero_spec(vector.x * direction.x - vector.y * direction.y, UNIT as int),
        ),
        y: clamp_i64(
            toward_zero_spec(vector.x * direction.y + vector.y * direction.x, UNIT as int),
        ),
    }
}

/// A sign-free length as a coordinate, held to the range of `i64`.
pub open spec fn reach_spec(radius: u64) -> i64 {
    if radius > i64::MAX {
        i64::MAX
    } else {
        radius as i64
    }
}

/// The point `radius` away from `midpoint` in the direction that the second axis has
/// when it is turned by `direction`.
pub open spec fn circular_point_spec(midpoint: Vec2, radius: u64, direction: Vec2) -> Vec2 {
    midpoint.sum_spec(rotated_spec(direction, Vec2 { x: 0, y: reach_spec(radius) }))
}

impl Heading {
    /// `vector` turned by the heading.
    pub fn rotate(&self, vector: Vec2) -> (turned: Vec2)
        ensures
            turned == rotated_spec(self.direction(), vector),
    {
        let direction: Vec2 = self.get();
        let vx: i128 = vector.x as i128;
        let vy: i128 = vector.y as i128;
        let dx: i128 = direction.x as i128;
        let dy: i128 = direction.y as i128;
        assert(-0x8000_0000_0000_0000 * 65_536 <= vx * dx <= 0x8000_0000_0000_0000 * 65_536
            && -0x8000_0000_0000_0000 * 65_536 <= vy * dy <= 0x8000_0000_0000_0000 * 65_536
            && -0x8000_0000_0000_0000 * 65_536 <= vx * dy <= 0x8000_0000_0000_0000 * 65_536
            && -0x8000_0000_0000_0000 * 65_536 <= vy * dx <= 0x8000_0000_0000_0000 * 65_536)
            by (nonlinear_arith)
            requires
                -0x8000_0000_0000_0000 <= vx <= 0x8000_0000_0000_0000,
                -0x8000_0000_0000_0000 <= vy <= 0x8000_0000_0000_0000,
                -65_536 <= dx <= 65_536,
                -65_536 <= dy <= 65_536,
        ;
        let x: i128 = (vx * dx - vy * dy) / 65_536;
        let y: i128 = (vx * dy + vy * dx) / 65_536;
        Vec2 { x: narrow(x), y: narrow(y) }
    }
}

/// A ring of points around `midpoint`: for each of `directions`, in their order, the
/// point `radius` away in the direction that the second axis has when it is turned by
/// it. Directions spread evenly over the full turn give points evenly spaced on the
/// circle.
pub fn circular_points(midpoint: Vec2, radius: u64, directions: &Vec<Heading>) -> (points: Vec<
    Vec2,
>)
    ensures
        points@.len() == directions@.len(),
        forall|k: int|
            0 <= k < directions@.len() ==> #[trigger] points@[k] == circular_point_spec(
                midpoint,
                radius,
                directions@[k].direction(),
            ),
{
    let arm: Vec2 = Vec2 {
        x: 0,
        y: if radius > i64::MAX as u64 {
            i64::MAX
        } else {
            radius as i64
        },
    };
    let mut points: Vec<Vec2> = Vec::new();
    let mut index: usize = 0;
    while index < directions.len()
        invariant
            index <= directions@.len(),
            points@.len() == index,
            arm == (Vec2 { x: 0, y: reach_spec(radius) }),
            forall|k: int|
                0 <= k < index ==> #[trigger] points@[k] == circular_point_spec(
                    midpoint,
                    radius,
                    directions@[k].direction(),
                ),
        decreases directions@.len() - index,
    {
        points.push(midpoint.saturating_add(directions[index].rotate(arm)));
        index += 1;
    }
    points
}

} // verus!
