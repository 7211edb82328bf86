//! Wrap-aware offsets and positions on a rectangular plane whose opposite edges meet.

use vstd::prelude::*;
use vstd::arithmetic::div_mod::{lemma_fundamental_div_mod, lemma_fundamental_div_mod_converse};
use crate::input::{Action, ActionState};
use crate::vector::{abs_spec, clamp_i64, narrow, Vec2, UNIT, UNIT_LENGTH};

verus! {

/// How far from the cursor an entity may lie and still be picked by a click.
pub const CLICK_RADIUS: u64 = 15 * UNIT_LENGTH;

/// The width of the plane before the window has been measured.
pub const DEFAULT_WIDTH: i64 = 1600 * UNIT;

/// The height of the plane before the window has been measured.
pub const DEFAULT_HEIGHT: i64 = 900 * UNIT;

/// The shortest signed step from `second` to `first` on a ring of circumference `wrap`:
/// the plain difference, taken the other way round the ring where it is longer than half
/// of it.
pub open spec fn wrapping_offset_exact(first: int, second: int, wrap: int) -> int {
    let direct = first - second;
    if 2 * abs_spec(direct) > wrap {
        if first > second {
            direct - wrap
        } else {
            direct + wrap
        }
    } else {
        direct
    }
}

/// [`wrapping_offset_exact`], held to the range of `i64`.
pub open spec fn wrapping_offset_spec(first: i64, second: i64, wrap: i64) -> i64 {
    clamp_i64(wrapping_offset_exact(first as int, second as int, wrap as int))
}

/// The wrap-aware offset on each axis by itself.
pub open spec fn wrapping_offset_2d_spec(first: Vec2, second: Vec2, wrap: Vec2) -> Vec2 {
    Vec2 {
        x: wrapping_offset_spec(first.x, second.x, wrap.x),
        y: wrapping_offset_spec(first.y, second.y, wrap.y),
    }
}

/// The wrap-aware offset where a plane extent is given, the plain difference where none is.
pub open spec fn offset_2d_spec(first: Vec2, second: Vec2, wrap: Option<Vec2>) -> Vec2 {
    match wrap {
        Some(extent) => wrapping_offset_2d_spec(first, second, extent),
        None => first.difference_spec(second),
    }
}

/// The shortest signed step from `second` to `first` along one axis that wraps.
pub fn wrapping_offset(first: i64, second: i64, wrap: i64) -> (offset: i64)
    ensures
        offset == wrapping_offset_spec(first, second, wrap),
{
    let direct: i128 = first as i128 - second as i128;
    let span: i128 = wrap as i128;
    let around: i128 = if 2 * direct > span || 2 * direct < -span {
        if first > second {
            direct - span
        } else {
            direct + span
        }
    } else {
        direct
    };
    narrow(around)
}

/// The shortest vector from `second` to `first` on a plane of extent `wrap` whose
/// opposite edges meet.
pub fn wrapping_offset_2d(first: Vec2, second: Vec2, wrap: Vec2) -> (offset: Vec2)
    ensures
        offset == wrapping_offset_2d_spec(first, second, wrap),
{
    Vec2 {
        x: wrapping_offset(first.x, second.x, wrap.x),
        y: wrapping_offset(first.y, second.y, wrap.y),
    }
}

/// The vector from `second` to `first`: wrap-aware on a plane of extent `wrap`, plain
/// where `wrap` is `None`.
pub fn offset_2d(first: Vec2, second: Vec2, wrap: Option<Vec2>) -> (offset: Vec2)
    ensures
        offset == offset_2d_spec(first, second, wrap),
{
    match wrap {
        Some(extent) => wrapping_offset_2d(first, second, extent),
        None => first.saturating_sub(second),
    }
}

/// On a ring of positive circumference, the wrap-aware offset between two points of the
/// ring is at most half the ring long, and leads from the second point to the first.
pub proof fn lemma_wrapping_offset_shortest(first: i64, second: i64, extent: i64)
    requires
        extent > 0,
        0 <= first < extent,
        0 <= second < extent,
    ensures
        wrapping_offset_spec(first, second, extent) == wrapping_offset_exact(
            first as int,
            second as int,
            extent as int,
        ),
        2 * abs_spec(wrapping_offset_spec(first, second, extent) as int) <= extent,
        (second + wrapping_offset_spec(first, second, extent) - first) % (extent as int) == 0,
{
    let offset = wrapping_offset_exact(first as int, second as int, extent as int);
    let gap = second + offset - first;
    assert(gap == 0 || gap == extent || gap == -extent);
    if gap == 0 {
        lemma_fundamental_div_mod_converse(gap, extent as int, 0, 0);
    } else if gap == extent {
        lemma_fundamental_div_mod_converse(gap, extent as int, 1, 0);
    } else {
        lemma_fundamental_div_mod_converse(gap, extent as int, -1, 0);
    }
}

/// The same on the plane: each component of the offset is at most half the extent of its
/// axis, and the offset leads from the second point to the first on both.
pub proof fn lemma_wrapping_offset_2d_shortest(first: Vec2, second: Vec2, extent: Vec2)
    requires
        extent.x > 0,
        extent.y > 0,
        0 <= first.x < extent.x,
        0 <= first.y < extent.y,
        0 <= second.x < extent.x,
        0 <= second.y < extent.y,
    ensures
        2 * abs_spec(wrapping_offset_2d_spec(first, second, extent).x as int) <= extent.x,
        2 * abs_spec(wrapping_offset_2d_spec(first, second, extent).y as int) <= extent.y,
        (second.x + wrapping_offset_2d_spec(first, second, extent).x - first.x) % (
        extent.x as int) == 0,
        (second.y + wrapping_offset_2d_spec(first, second, extent).y - first.y) % (
        extent.y as int) == 0,
{
    lemma_wrapping_offset_shortest(first.x, second.x, extent.x);
    lemma_wrapping_offset_shortest(first.y, second.y, extent.y);
}

/// Swapping the two points reverses the offset.
pub proof fn lemma_wrapping_offset_antisymmetric(first: int, second: int, wrap: int)
    requires
        wrap >= 0,
    ensures
        wrapping_offset_exact(second, first, wrap) == -wrapping_offset_exact(first, second, wrap),
{
}

/// The largest coordinate, either way from zero, for which offsets are exact.
pub const COORDINATE_LIMIT: i64 = 0x2000_0000_0000_0000;

/// Whether `point` is near enough to the origin for offsets from it to be exact.
pub open spec fn in_reach_spec(point: Vec2) -> bool {
    &&& -COORDINATE_LIMIT <= point.x <= COORDINATE_LIMIT
    &&& -COORDINATE_LIMIT <= point.y <= COORDINATE_LIMIT
}

/// Whether the plane, if offsets wrap on one, has sides from zero to the coordinate limit.
pub open spec fn wrap_in_reach_spec(wrap: Option<Vec2>) -> bool {
    match wrap {
        Some(extent) => 0 <= extent.x <= COORDINATE_LIMIT && 0 <= extent.y <= COORDINATE_LIMIT,
        None => true,
    }
}

/// Between points in reach, the offset one way is the opposite of the offset the other
/// way.
pub proof fn lemma_offset_2d_reverses(first: Vec2, second: Vec2, wrap: Option<Vec2>)
    requires
        in_reach_spec(first),
        in_reach_spec(second),
        wrap_in_reach_spec(wrap),
    ensures
        offset_2d_spec(second, first, wrap) == offset_2d_spec(first, second, wrap).negated_spec(),
        offset_2d_spec(first, second, wrap).x > i64::MIN,
        offset_2d_spec(first, second, wrap).y > i64::MIN,
{
    match wrap {
        Some(extent) => {
            lemma_wrapping_offset_antisymmetric(first.x as int, second.x as int, extent.x as int);
            lemma_wrapping_offset_antisymmetric(first.y as int, second.y as int, extent.y as int);
        },
        None => {},
    }
}

/// `value` brought into `[0, extent)` by adding or removing whole extents.
pub open spec fn wrapped_spec(value: int, extent: int) -> int {
    value % extent
}

/// `position + movement` brought into `[0, extent)` by adding or removing whole extents.
///
/// The result differs from `position + movement` by a multiple of `extent`: a coordinate
/// below zero comes back in at the far edge.
pub fn wrapped(position: i64, movement: i64, extent: i64) -> (landed: i64)
    requires
        extent > 0,
    ensures
        landed == wrapped_spec(position + movement, extent as int),
        0 <= landed < extent,
        (position + movement - landed) % (extent as int) == 0,
{
    let target: i128 = position as i128 + movement as i128;
    let span: i128 = extent as i128;
    let landed: i128 = if target >= 0 {
        target % span
    } else {
        let beyond: i128 = (-target) % span;
        proof {
            let t = target as int;
            let s = span as int;
            let b = beyond as int;
            let laps = (-t) / s;
            lemma_fundamental_div_mod(-t, s);
            if b == 0 {
                assert(t == s * (-laps) + 0) by (nonlinear_arith)
                    requires
                        -t == s * laps + b,
                        b == 0,
                ;
                lemma_fundamental_div_mod_converse(t, s, -laps, 0);
            } else {
                assert(t == s * (-laps - 1) + (s - b)) by (nonlinear_arith)
                    requires
                        -t == s * laps + b,
                ;
                lemma_fundamental_div_mod_converse(t, s, -laps - 1, s - b);
            }
        }
        if beyond == 0 {
            0
        } else {
            span - beyond
        }
    };
    proof {
        let t = target as int;
        let s = span as int;
        let laps = t / s;
        lemma_fundamental_div_mod(t, s);
        assert(t - landed == s * laps + 0);
        lemma_fundamental_div_mod_converse(t - landed, s, laps, 0);
    }
    landed as i64
}

/// The extent of the plane: what the window measured when it last had a size.
///
/// Both sides are always positive, so wrapping a position never divides by zero.
pub struct WindowDimensions {
    size: Vec2,
}

impl WindowDimensions {
    #[verifier::type_invariant]
    spec fn positive(self) -> bool {
        self.size.x > 0 && self.size.y > 0
    }

    /// The extent as a vector.
    pub closed spec fn extent(self) -> Vec2 {
        self.size
    }

    /// The dimensions of a plane of extent `size`, where both sides are positive.
    pub fn new(size: Vec2) -> (dimensions: Option<WindowDimensions>)
        ensures
            dimensions is Some <==> size.x > 0 && size.y > 0,
            dimensions matches Some(d) ==> d.extent() == size,
    {
        if size.x > 0 && size.y > 0 {
            Some(WindowDimensions { size })
        } else {
            None
        }
    }

    /// The extent as a vector; both sides are positive.
    pub fn get(&self) -> (size: Vec2)
        ensures
            size == self.extent(),
            size.x > 0,
            size.y > 0,
    {
        proof {
            use_type_invariant(self);
        }
        self.size
    }
}

impl Default for WindowDimensions {
    /// A plane of 1600 by 900 units.
    fn default() -> (dimensions: WindowDimensions)
        ensures
            dimensions.extent() == (Vec2 { x: DEFAULT_WIDTH, y: DEFAULT_HEIGHT }),
    {
        WindowDimensions { size: Vec2 { x: DEFAULT_WIDTH, y: DEFAULT_HEIGHT } }
    }
}

/// Takes over what the window measures now; a window that is missing, or that has no
/// width or no height, leaves the last good extent in place.
pub fn update_window_dimensions(dimensions: &mut WindowDimensions, actual: Option<Vec2>)
    ensures
        final(dimensions).extent() == match actual {
            Some(size) if size.x > 0 && size.y > 0 => size,
            _ => old(dimensions).extent(),
        },
{
    match WindowDimensions::new(match actual {
        Some(size) => size,
        None => Vec2::zero(),
    }) {
        Some(fresh) => {
            *dimensions = fresh;
        },
        None => {},
    }
}

/// Whether forces reach across the edges of the plane.
#[derive(Clone, Copy, Debug, PartialEq, Eq, Structural)]
pub struct WrappingForce(pub bool);

impl Default for WrappingForce {
    fn default() -> (wrapping: WrappingForce)
        ensures
            wrapping.0,
    {
        WrappingForce(true)
    }
}

/// Flips the wrapping of forces in the frame in which its action goes down.
pub fn toggle_wrap(action_state: &ActionState, wrapping: &mut WrappingForce)
    ensures
        final(wrapping).0 == (old(wrapping).0 != action_state.just_pressed_spec(Action::ToggleWrap)),
{
    if action_state.just_pressed(&Action::ToggleWrap) {
        wrapping.0 = !wrapping.0;
    }
}

/// The extent that force offsets wrap on, if they wrap at all.
pub open spec fn force_wrap_spec(wrapping: WrappingForce, dimensions: WindowDimensions) -> Option<Vec2> {
    if wrapping.0 {
        Some(dimensions.extent())
    } else {
        None
    }
}

/// The extent that force offsets wrap on, if they wrap at all.
pub fn force_wrap(wrapping: &WrappingForce, dimensions: &WindowDimensions) -> (wrap: Option<Vec2>)
    ensures
        wrap == force_wrap_spec(*wrapping, *dimensions),
{
    if wrapping.0 {
        Some(dimensions.get())
    } else {
        None
    }
}

/// The squared wrap-aware distance between two points.
pub open spec fn distance_squared_spec(window_dimensions: Vec2, first: Vec2, second: Vec2) -> nat {
    wrapping_offset_2d_spec(first, second, window_dimensions).length_squared_spec()
}

/// The squared wrap-aware distance between two points.
pub fn distance_squared(window_dimensions: Vec2, first: Vec2, second: Vec2) -> (squared: u128)
    ensures
        squared == distance_squared_spec(window_dimensions, first, second),
{
    wrapping_offset_2d(first, second, window_dimensions).length_squared()
}

/// Whether two points are less than `radius` apart, wrap-aware.
pub open spec fn within_radius_spec(
    window_dimensions: Vec2,
    first: Vec2,
    second: Vec2,
    radius: u64,
) -> bool {
    distance_squared_spec(window_dimensions, first, second) < radius * radius
}

/// Whether two points are less than `radius` apart, wrap-aware.
pub fn within_radius(window_dimensions: Vec2, first: Vec2, second: Vec2, radius: u64) -> (inside: bool)
    ensures
        inside == within_radius_spec(window_dimensions, first, second, radius),
{
    let reach: u128 = radius as u128;
    assert(reach * reach <= 0xffff_ffff_ffff_ffff_ffff_ffff_ffff_ffff) by (nonlinear_arith)
        requires
            reach <= 0xffff_ffff_ffff_ffff,
    ;
    distance_squared(window_dimensions, first, second) < reach * reach
}

/// The index of the item nearest to `position` among those less than `radius` away; of
/// several equally near, the first.
pub open spec fn nearest_index_spec<T>(
    window_dimensions: Vec2,
    position: Vec2,
    radius: u64,
    items: Seq<(T, Vec2)>,
) -> Option<int>
    decreases items.len(),
{
    if items.len() == 0 {
        None
    } else {
        let last = items.len() - 1;
        let earlier = nearest_index_spec(window_dimensions, position, radius, items.drop_last());
        let distance = distance_squared_spec(window_dimensions, position, items[last].1);
        if distance < radius * radius && match earlier {
            Some(best) => distance < distance_squared_spec(window_dimensions, position, items[best].1),
            None => true,
        } {
            Some(last)
        } else {
            earlier
        }
    }
}

/// The item nearest to `position` among those less than `radius` away.
pub open spec fn nearest_within_radius_spec<T>(
    window_dimensions: Vec2,
    position: Vec2,
    radius: u64,
    items: Seq<(T, Vec2)>,
) -> Option<T> {
    match nearest_index_spec(window_dimensions, position, radius, items) {
        Some(best) => Some(items[best].0),
        None => None,
    }
}

/// What [`nearest_index_spec`] picks: nothing exactly when no item is within the radius;
/// else an item within the radius that none is nearer than, and that every earlier item
/// is farther than.
pub proof fn lemma_nearest_is_first_minimum<T>(
    window_dimensions: Vec2,
    position: Vec2,
    radius: u64,
    items: Seq<(T, Vec2)>,
)
    ensures
        match nearest_index_spec(window_dimensions, position, radius, items) {
            Some(best) => {
                &&& 0 <= best < items.len()
                &&& within_radius_spec(window_dimensions, position, items[best].1, radius)
                &&& forall|j: int|
                    0 <= j < items.len() ==> distance_squared_spec(
                        window_dimensions,
                        position,
                        items[best].1,
                    ) <= distance_squared_spec(window_dimensions, position, #[trigger] items[j].1)
                &&& forall|j: int|
                    0 <= j < best ==> distance_squared_spec(
                        window_dimensions,
                        position,
                        items[best].1,
                    ) < distance_squared_spec(window_dimensions, position, #[trigger] items[j].1)
            },
            None => forall|j: int|
                0 <= j < items.len() ==> !within_radius_spec(
                    window_dimensions,
                    position,
                    #[trigger] items[j].1,
                    radius,
                ),
        },
    decreases items.len(),
{
    if items.len() > 0 {
        lemma_nearest_is_first_minimum(window_dimensions, position, radius, items.drop_last());
        let front = items.drop_last();
        assert forall|j: int| 0 <= j < front.len() implies front[j] == items[j] by {}
    }
}

/// The item nearest to `position` among those less than `radius` away, wrap-aware; of
/// several equally near, the first.
pub fn find_nearest_within_radius<T: Copy>(
    window_dimensions: Vec2,
    position: Vec2,
    radius: u64,
    items: &Vec<(T, Vec2)>,
) -> (nearest: Option<T>)
    ensures
        nearest == nearest_within_radius_spec(window_dimensions, position, radius, items@),
{
    let reach: u128 = radius as u128;
    assert(reach * reach <= 0xffff_ffff_ffff_ffff_ffff_ffff_ffff_ffff) by (nonlinear_arith)
        requires
            reach <= 0xffff_ffff_ffff_ffff,
    ;
    let radius_squared: u128 = reach * reach;
    let mut best: Option<(usize, u128)> = None;
    let mut index: usize = 0;
    while index < items.len()
        invariant
            index <= items.len(),
            radius_squared == radius * radius,
            match best {
                Some((at, distance)) => {
                    &&& at < index
                    &&& distance == distance_squared_spec(window_dimensions, position, items@[at as int].1)
                    &&& nearest_index_spec(window_dimensions, position, radius, items@.take(index as int))
                        == Some(at as int)
                },
                None => nearest_index_spec(
                    window_dimensions,
                    position,
                    radius,
                    items@.take(index as int),
                ) is None,
            },
        decreases items.len() - index,
    {
        let distance: u128 = distance_squared(window_dimensions, position, items[index].1);
        proof {
            let grown = items@.take(index + 1);
            assert(grown.drop_last() == items@.take(index as int));
            assert(grown[index as int] == items@[index as int]);
            if let Some((at, _)) = best {
                assert(grown[at as int] == items@[at as int]);
            }
        }
        let nearer: bool = distance < radius_squared && match best {
            Some((_, least)) => distance < least,
            None => true,
        };
        if nearer {
            best = Some((index, distance));
        }
        index += 1;
    }
    assert(items@.take(items.len() as int) == items@);
    match best {
        Some((at, _)) => Some(items[at].0),
        None => None,
    }
}

/// The entity nearest to the cursor within [`CLICK_RADIUS`] of it.
pub fn find_entity_by_cursor<T: Copy>(
    cursor_pos: Vec2,
    window_dimensions: Vec2,
    entities: &Vec<(T, Vec2)>,
) -> (entity: Option<T>)
    ensures
        entity == nearest_within_radius_spec(window_dimensions, cursor_pos, CLICK_RADIUS, entities@),
{
    find_nearest_within_radius(window_dimensions, cursor_pos, CLICK_RADIUS, entities)
}

} // verus!
