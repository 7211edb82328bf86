//! Plane vectors in fixed-point steps, with saturating arithmetic.

use vstd::prelude::*;

verus! {

/// Steps per world unit.
pub const UNIT: i64 = 65_536;

/// Steps per world unit, for lengths that have no sign.
pub const UNIT_LENGTH: u64 = 65_536;

/// The square root of [`UNIT`].
pub const UNIT_ROOT: i64 = 256;

/// The fourth root of [`UNIT`]. A force constant for a power of `q` quarters is the force
/// in units at one unit, times `UNIT`, times this root `q` times over.
pub const UNIT_FOURTH_ROOT: i64 = 16;

/// Parts of a step that fine lengths are counted in.
pub const PARTS: u64 = 65_536;

/// [`PARTS`] squared.
pub const FINE_SQUARED: u128 = 0x1_0000_0000;

/// Vectors whose squared length is below this, that is vectors shorter than 2^48 steps,
/// have a fine length that fits `u64`.
pub const FINE_LIMIT: u128 = 0x1_0000_0000_0000_0000_0000_0000;

/// The nearest `i64` to `v`.
pub open spec fn clamp_i64(v: int) -> i64 {
    if v < i64::MIN {
        i64::MIN
    } else if v > i64::MAX {
        i64::MAX
    } else {
        v as i64
    }
}

/// The magnitude of `v`.
pub open spec fn abs_spec(v: int) -> nat {
    if v < 0 {
        (-v) as nat
    } else {
        v as nat
    }
}

/// Whether `root` is the largest whole number whose square is at most `n`.
pub open spec fn is_floor_sqrt(n: nat, root: nat) -> bool {
    root * root <= n < (root + 1) * (root + 1)
}

/// The largest whole number whose square is at most `n`.
pub closed spec fn floor_sqrt(n: nat) -> nat {
    choose|root: nat| is_floor_sqrt(n, root)
}

/// At most one number is the floor of a square root.
pub proof fn lemma_floor_sqrt_unique(n: nat, a: nat, b: nat)
    requires
        is_floor_sqrt(n, a),
        is_floor_sqrt(n, b),
    ensures
        a == b,
{
    if a < b {
        assert((a + 1) * (a + 1) <= b * b) by (nonlinear_arith)
            requires
                a + 1 <= b,
        ;
    }
    if b < a {
        assert((b + 1) * (b + 1) <= a * a) by (nonlinear_arith)
            requires
                b + 1 <= a,
        ;
    }
}

/// Any number that brackets `n` between its square and the next is `floor_sqrt(n)`.
pub proof fn lemma_floor_sqrt_is(n: nat, root: nat)
    requires
        is_floor_sqrt(n, root),
    ensures
        floor_sqrt(n) == root,
{
    lemma_floor_sqrt_unique(n, root, floor_sqrt(n));
}

/// Some number brackets `n` between its square and the next.
proof fn lemma_floor_sqrt_exists(n: nat) -> (root: nat)
    ensures
        is_floor_sqrt(n, root),
    decreases n,
{
    if n == 0 {
        assert(is_floor_sqrt(0, 0)) by (nonlinear_arith);
        0
    } else {
        let r = lemma_floor_sqrt_exists((n - 1) as nat);
        if (r + 1) * (r + 1) <= n {
            assert((r + 1 + 1) * (r + 1 + 1) > n) by (nonlinear_arith)
                requires
                    n - 1 < (r + 1) * (r + 1),
            ;
            r + 1
        } else {
            assert(r * r <= n) by (nonlinear_arith)
                requires
                    r * r <= n - 1,
            ;
            r
        }
    }
}

/// `floor_sqrt` brackets its argument.
pub proof fn lemma_floor_sqrt_brackets(n: nat)
    ensures
        is_floor_sqrt(n, floor_sqrt(n)),
{
    let witness = lemma_floor_sqrt_exists(n);
}

/// `a + b`, held to the range of `i64`.
pub fn saturating_add(a: i64, b: i64) -> (sum: i64)
    ensures
        sum == clamp_i64(a + b),
{
    let wide: i128 = a as i128 + b as i128;
    narrow(wide)
}

/// `a - b`, held to the range of `i64`.
pub fn saturating_sub(a: i64, b: i64) -> (difference: i64)
    ensures
        difference == clamp_i64(a - b),
{
    let wide: i128 = a as i128 - b as i128;
    narrow(wide)
}

/// `-a`, held to the range of `i64`.
pub fn saturating_neg(a: i64) -> (negated: i64)
    ensures
        negated == clamp_i64(-a),
{
    if a == i64::MIN {
        i64::MAX
    } else {
        -a
    }
}

/// The nearest `i64` to a wide value.
pub fn narrow(wide: i128) -> (near: i64)
    ensures
        near == clamp_i64(wide as int),
{
    if wide < i64::MIN as i128 {
        i64::MIN
    } else if wide > i64::MAX as i128 {
        i64::MAX
    } else {
        wide as i64
    }
}

/// The magnitude of `a`.
pub fn magnitude(a: i64) -> (m: u64)
    ensures
        m == abs_spec(a as int),
{
    if a >= 0 {
        a as u64
    } else if a == i64::MIN {
        0x8000_0000_0000_0000u64
    } else {
        (-a) as u64
    }
}

/// A whole number at most the root of `n` and a whole number above it, 256 times the
/// first or, for the smallest `n`, 256 itself.
fn isqrt_bracket(n: u128) -> (bracket: (u128, u128))
    ensures
        bracket.0 < bracket.1 <= 0x1_0000_0000_0000_0000,
        bracket.0 * bracket.0 <= n,
        n < bracket.1 * bracket.1,
{
    if n >= 0x1_0000_0000_0000_0000_0000_0000_0000 {
        assert(0x100_0000_0000_0000u128 * 0x100_0000_0000_0000u128
            == 0x1_0000_0000_0000_0000_0000_0000_0000u128) by (nonlinear_arith);
        assert(0x1_0000_0000_0000_0000int * 0x1_0000_0000_0000_0000int
            == 0x1_0000_0000_0000_0000_0000_0000_0000_0000int) by (nonlinear_arith);
        (0x100_0000_0000_0000, 0x1_0000_0000_0000_0000)
    } else if n >= 0x1_0000_0000_0000_0000_0000_0000 {
        assert(0x1_0000_0000_0000u128 * 0x1_0000_0000_0000u128
            == 0x1_0000_0000_0000_0000_0000_0000u128) by (nonlinear_arith);
        assert(0x100_0000_0000_0000u128 * 0x100_0000_0000_0000u128
            == 0x1_0000_0000_0000_0000_0000_0000_0000u128) by (nonlinear_arith);
        (0x1_0000_0000_0000, 0x100_0000_0000_0000)
    } else if n >= 0x1_0000_0000_0000_0000_0000 {
        assert(0x100_0000_0000u128 * 0x100_0000_0000u128 == 0x1_0000_0000_0000_0000_0000u128)
            by (nonlinear_arith);
        assert(0x1_0000_0000_0000u128 * 0x1_0000_0000_0000u128
            == 0x1_0000_0000_0000_0000_0000_0000u128) by (nonlinear_arith);
        (0x100_0000_0000, 0x1_0000_0000_0000)
    } else if n >= 0x1_0000_0000_0000_0000 {
        assert(0x1_0000_0000u128 * 0x1_0000_0000u128 == 0x1_0000_0000_0000_0000u128)
            by (nonlinear_arith);
        assert(0x100_0000_0000u128 * 0x100_0000_0000u128 == 0x1_0000_0000_0000_0000_0000u128)
            by (nonlinear_arith);
        (0x1_0000_0000, 0x100_0000_0000)
    } else if n >= 0x1_0000_0000_0000 {
        assert(0x100_0000u128 * 0x100_0000u128 == 0x1_0000_0000_0000u128) by (nonlinear_arith);
        assert(0x1_0000_0000u128 * 0x1_0000_0000u128 == 0x1_0000_0000_0000_0000u128)
            by (nonlinear_arith);
        (0x100_0000, 0x1_0000_0000)
    } else if n >= 0x1_0000_0000 {
        assert(0x1_0000u128 * 0x1_0000u128 == 0x1_0000_0000u128) by (nonlinear_arith);
        assert(0x100_0000u128 * 0x100_0000u128 == 0x1_0000_0000_0000u128) by (nonlinear_arith);
        (0x1_0000, 0x100_0000)
    } else if n >= 0x1_0000 {
        assert(0x100u128 * 0x100u128 == 0x1_0000u128) by (nonlinear_arith);
        assert(0x1_0000u128 * 0x1_0000u128 == 0x1_0000_0000u128) by (nonlinear_arith);
        (0x100, 0x1_0000)
    } else {
        assert(0u128 * 0u128 == 0) by (nonlinear_arith);
        assert(0x100u128 * 0x100u128 == 0x1_0000u128) by (nonlinear_arith);
        (0, 0x100)
    }
}

/// The largest whole number whose square is at most `n`.
pub fn isqrt(n: u128) -> (root: u64)
    ensures
        root == floor_sqrt(n as nat),
        is_floor_sqrt(n as nat, root as nat),
{
    let bracket: (u128, u128) = isqrt_bracket(n);
    let mut low: u128 = bracket.0;
    let mut high: u128 = bracket.1;
    while high - low > 1
        invariant
            low < high <= 0x1_0000_0000_0000_0000,
            low * low <= n,
            n < high * high,
        decreases high - low,
    {
        let middle: u128 = low + (high - low) / 2;
        assert(middle * middle <= 0xffff_ffff_ffff_ffff_ffff_ffff_ffff_ffff) by (nonlinear_arith)
            requires
                middle <= 0xffff_ffff_ffff_ffff,
        ;
        if middle * middle <= n {
            low = middle;
        } else {
            high = middle;
        }
    }
    proof {
        assert(high == low + 1);
        lemma_floor_sqrt_is(n as nat, low as nat);
    }
    low as u64
}

/// `value * numerator / denominator`, rounded toward zero and held to the range of `i64`.
pub open spec fn scale_spec(value: int, numerator: nat, denominator: nat) -> i64 {
    let scaled = (abs_spec(value) * numerator / denominator) as int;
    if value < 0 {
        clamp_i64(-scaled)
    } else {
        clamp_i64(scaled)
    }
}

/// `value * numerator / denominator`, rounded toward zero and held to the range of `i64`.
pub fn scale(value: i64, numerator: u64, denominator: u64) -> (scaled: i64)
    requires
        denominator > 0,
    ensures
        scaled == scale_spec(value as int, numerator as nat, denominator as nat),
{
    let size: u128 = magnitude(value) as u128;
    let factor: u128 = numerator as u128;
    assert(size * factor <= 0x8000_0000_0000_0000 * 0xffff_ffff_ffff_ffff) by (nonlinear_arith)
        requires
            size <= 0x8000_0000_0000_0000,
            factor <= 0xffff_ffff_ffff_ffff,
    ;
    let quotient: u128 = size * factor / (denominator as u128);
    if value < 0 {
        if quotient > 0x8000_0000_0000_0000u128 {
            i64::MIN
        } else {
            narrow(-(quotient as i128))
        }
    } else {
        if quotient > 0x7fff_ffff_ffff_ffffu128 {
            i64::MAX
        } else {
            quotient as i64
        }
    }
}

/// How large a scaled value is before it is held to the range of `i64`.
pub open spec fn scaled_magnitude_spec(value: int, numerator: nat, denominator: nat) -> nat {
    abs_spec(value) * numerator / denominator
}

/// Scaling is odd while nothing saturates: the opposite value scales to the opposite.
pub proof fn lemma_scale_odd(value: int, numerator: nat, denominator: nat)
    requires
        denominator > 0,
        scaled_magnitude_spec(value, numerator, denominator) <= i64::MAX,
    ensures
        scale_spec(-value, numerator, denominator) == -scale_spec(value, numerator, denominator),
        abs_spec(scale_spec(value, numerator, denominator) as int) == scaled_magnitude_spec(
            value,
            numerator,
            denominator,
        ),
{
    if value == 0 {
        assert(0nat * numerator == 0) by (nonlinear_arith);
    }
}

/// A scaled value is within any bound that the ratio keeps the value within.
pub proof fn lemma_scale_bounded(value: int, numerator: nat, denominator: nat, bound: nat)
    requires
        denominator > 0,
        abs_spec(value) * numerator <= bound * denominator,
    ensures
        scaled_magnitude_spec(value, numerator, denominator) <= bound,
{
    vstd::arithmetic::div_mod::lemma_div_is_ordered(
        (abs_spec(value) * numerator) as int,
        (bound * denominator) as int,
        denominator as int,
    );
    vstd::arithmetic::div_mod::lemma_div_by_multiple(bound as int, denominator as int);
}

/// Scaling by a ratio of at most one does not lengthen.
pub proof fn lemma_scale_shrinks(value: int, numerator: nat, denominator: nat, bound: nat)
    requires
        denominator > 0,
        abs_spec(value) <= bound,
        numerator <= denominator,
    ensures
        scaled_magnitude_spec(value, numerator, denominator) <= bound,
{
    let size = abs_spec(value) as int;
    assert(size * numerator <= bound * denominator) by (nonlinear_arith)
        requires
            0 <= size <= bound,
            0 <= numerator <= denominator,
    ;
    lemma_scale_bounded(value, numerator, denominator, bound);
}

/// Scaling a value that is at most the denominator gives at most the numerator.
pub proof fn lemma_scale_within(value: int, numerator: nat, denominator: nat)
    requires
        denominator > 0,
        abs_spec(value) <= denominator,
    ensures
        scaled_magnitude_spec(value, numerator, denominator) <= numerator,
{
    let size = abs_spec(value) as int;
    assert(size * numerator <= numerator * denominator) by (nonlinear_arith)
        requires
            0 <= size <= denominator,
            0 <= numerator,
    ;
    lemma_scale_bounded(value, numerator, denominator, numerator);
}

/// A number whose square is at most `n` is at most the floor of the square root of `n`.
pub proof fn lemma_floor_sqrt_at_least(n: nat, root: nat)
    requires
        root * root <= n,
    ensures
        root <= floor_sqrt(n),
{
    lemma_floor_sqrt_brackets(n);
    let floor = floor_sqrt(n);
    if root > floor {
        assert(root * root >= (floor + 1) * (floor + 1)) by (nonlinear_arith)
            requires
                root >= floor + 1,
        ;
    }
}

/// The floor of the square root grows with its argument.
pub proof fn lemma_floor_sqrt_grows(smaller: nat, larger: nat)
    requires
        smaller <= larger,
    ensures
        floor_sqrt(smaller) <= floor_sqrt(larger),
{
    lemma_floor_sqrt_brackets(smaller);
    lemma_floor_sqrt_at_least(larger, floor_sqrt(smaller));
}

/// A vector, or a point, of the plane.
#[derive(Clone, Copy, Debug, PartialEq, Eq, Structural)]
pub struct Vec2 {
    pub x: i64,
    pub y: i64,
}

impl Vec2 {
    /// The vector with both components zero.
    pub open spec fn zero_spec() -> Vec2 {
        Vec2 { x: 0, y: 0 }
    }

    /// Component-wise sum, each component held to the range of `i64`.
    pub open spec fn sum_spec(self, other: Vec2) -> Vec2 {
        Vec2 { x: clamp_i64(self.x + other.x), y: clamp_i64(self.y + other.y) }
    }

    /// Component-wise difference, each component held to the range of `i64`.
    pub open spec fn difference_spec(self, other: Vec2) -> Vec2 {
        Vec2 { x: clamp_i64(self.x - other.x), y: clamp_i64(self.y - other.y) }
    }

    /// The opposite vector, each component held to the range of `i64`.
    pub open spec fn negated_spec(self) -> Vec2 {
        Vec2 { x: clamp_i64(-self.x), y: clamp_i64(-self.y) }
    }

    /// The square of the Euclidean length.
    pub open spec fn length_squared_spec(self) -> nat {
        (self.x * self.x + self.y * self.y) as nat
    }

    /// The Euclidean length, rounded down.
    pub open spec fn length_spec(self) -> nat {
        floor_sqrt(self.length_squared_spec())
    }

    /// The Euclidean length in parts of a step, [`PARTS`] to the step, rounded down; the
    /// largest `u64` for a vector of 2^48 steps or more.
    pub open spec fn fine_length_spec(self) -> nat {
        if self.length_squared_spec() < FINE_LIMIT {
            floor_sqrt(self.length_squared_spec() * FINE_SQUARED as nat)
        } else {
            u64::MAX as nat
        }
    }

    /// Both components multiplied by `numerator / denominator`, rounded toward zero.
    pub open spec fn scaled_spec(self, numerator: nat, denominator: nat) -> Vec2 {
        Vec2 {
            x: scale_spec(self.x as int, numerator, denominator),
            y: scale_spec(self.y as int, numerator, denominator),
        }
    }

    /// The Euclidean length, rounded up.
    pub open spec fn length_up_spec(self) -> nat {
        let down = self.length_spec();
        if down * down == self.length_squared_spec() {
            down
        } else {
            down + 1
        }
    }

    /// The vector itself where it is no longer than `max`, else the vector shortened to
    /// `max` over its rounded-up length, so that it is no longer than `max` either.
    pub open spec fn clamp_length_max_spec(self, max: nat) -> Vec2 {
        if self.length_squared_spec() <= max * max {
            self
        } else {
            self.scaled_spec(max, self.length_up_spec())
        }
    }

    /// The vector with the given components.
    pub fn new(x: i64, y: i64) -> (v: Vec2)
        ensures
            v == (Vec2 { x, y }),
    {
        Vec2 { x, y }
    }

    /// The vector with both components zero.
    #[verifier::when_used_as_spec(zero_spec)]
    pub fn zero() -> (v: Vec2)
        ensures
            v == Vec2::zero_spec(),
    {
        Vec2 { x: 0, y: 0 }
    }

    /// Whether both components are zero.
    pub fn is_zero(self) -> (zero: bool)
        ensures
            zero == (self == Vec2::zero_spec()),
    {
        self.x == 0 && self.y == 0
    }

    /// Component-wise sum, each component held to the range of `i64`.
    pub fn saturating_add(self, other: Vec2) -> (sum: Vec2)
        ensures
            sum == self.sum_spec(other),
    {
        Vec2 { x: saturating_add(self.x, other.x), y: saturating_add(self.y, other.y) }
    }

    /// Component-wise difference, each component held to the range of `i64`.
    pub fn saturating_sub(self, other: Vec2) -> (difference: Vec2)
        ensures
            difference == self.difference_spec(other),
    {
        Vec2 { x: saturating_sub(self.x, other.x), y: saturating_sub(self.y, other.y) }
    }

    /// The opposite vector, each component held to the range of `i64`.
    pub fn saturating_neg(self) -> (negated: Vec2)
        ensures
            negated == self.negated_spec(),
    {
        Vec2 { x: saturating_neg(self.x), y: saturating_neg(self.y) }
    }

    /// The square of the Euclidean length.
    pub fn length_squared(self) -> (squared: u128)
        ensures
            squared == self.length_squared_spec(),
            squared <= 0x8000_0000_0000_0000_0000_0000_0000_0000,
    {
        let x: u128 = magnitude(self.x) as u128;
        let y: u128 = magnitude(self.y) as u128;
        assert(x * x <= 0x4000_0000_0000_0000_0000_0000_0000_0000 && x * x == self.x * self.x)
            by (nonlinear_arith)
            requires
                x <= 0x8000_0000_0000_0000,
                x == abs_spec(self.x as int),
        ;
        assert(y * y <= 0x4000_0000_0000_0000_0000_0000_0000_0000 && y * y == self.y * self.y)
            by (nonlinear_arith)
            requires
                y <= 0x8000_0000_0000_0000,
                y == abs_spec(self.y as int),
        ;
        x * x + y * y
    }

    /// The Euclidean length, rounded down.
    pub fn length(self) -> (length: u64)
        ensures
            length == self.length_spec(),
    {
        isqrt(self.length_squared())
    }

    /// The Euclidean length in parts of a step, [`PARTS`] to the step, rounded down; the
    /// largest `u64` for a vector of 2^48 steps or more.
    pub fn fine_length(self) -> (length: u64)
        ensures
            length == self.fine_length_spec(),
    {
        let squared: u128 = self.length_squared();
        if squared < FINE_LIMIT {
            assert(FINE_SQUARED == 0x1_0000_0000 && FINE_LIMIT == 0x1_0000_0000_0000_0000_0000_0000);
            isqrt(squared * 0x1_0000_0000)
        } else {
            u64::MAX
        }
    }

    /// The Euclidean length, rounded up.
    pub fn length_up(self) -> (length: u64)
        ensures
            length == self.length_up_spec(),
            length * length >= self.length_squared_spec(),
    {
        let squared: u128 = self.length_squared();
        let down: u64 = isqrt(squared);
        let wide: u128 = down as u128;
        assert(wide * wide <= squared);
        if wide * wide == squared {
            down
        } else {
            assert(down < 0xffff_ffff_ffff_ffff) by {
                if down >= 0xffff_ffff_ffff_ffff {
                    assert(wide * wide > 0x8000_0000_0000_0000_0000_0000_0000_0000)
                        by (nonlinear_arith)
                        requires
                            wide >= 0xffff_ffff_ffff_ffff,
                    ;
                }
            }
            down + 1
        }
    }

    /// Both components multiplied by `numerator / denominator`, rounded toward zero.
    pub fn scaled(self, numerator: u64, denominator: u64) -> (scaled: Vec2)
        requires
            denominator > 0,
        ensures
            scaled == self.scaled_spec(numerator as nat, denominator as nat),
    {
        Vec2 { x: scale(self.x, numerator, denominator), y: scale(self.y, numerator, denominator) }
    }

    /// The vector itself where it is no longer than `max`, else the vector shortened to
    /// `max` over its rounded-up length. Either way the result is no longer than `max`.
    pub fn clamp_length_max(self, max: u64) -> (clamped: Vec2)
        ensures
            clamped == self.clamp_length_max_spec(max as nat),
            clamped.length_squared_spec() <= max * max,
    {
        let squared: u128 = self.length_squared();
        let limit: u128 = max as u128;
        assert(limit * limit <= 0xffff_ffff_ffff_ffff_ffff_ffff_ffff_ffff) by (nonlinear_arith)
            requires
                limit <= 0xffff_ffff_ffff_ffff,
        ;
        if squared <= limit * limit {
            self
        } else {
            let length: u64 = self.length_up();
            assert(length > 0) by {
                if length == 0 {
                    assert(0nat * 0nat == 0) by (nonlinear_arith);
                }
            }
            proof {
                lemma_scaled_within_circle(self, max as nat, length as nat);
            }
            self.scaled(max, length)
        }
    }
}

/// A vector scaled by `max` over a length that is at least its own is no longer than
/// `max`.
pub proof fn lemma_scaled_within_circle(v: Vec2, max: nat, length: nat)
    requires
        length > 0,
        length * length >= v.length_squared_spec(),
    ensures
        v.scaled_spec(max, length).length_squared_spec() <= max * max,
{
    let x = abs_spec(v.x as int);
    let y = abs_spec(v.y as int);
    let rx = x * max / length;
    let ry = y * max / length;
    let cx = abs_spec(v.scaled_spec(max, length).x as int);
    let cy = abs_spec(v.scaled_spec(max, length).y as int);
    assert(cx <= rx && cy <= ry);
    assert(x * x + y * y == v.x * v.x + v.y * v.y) by (nonlinear_arith)
        requires
            x == v.x || x == -v.x,
            y == v.y || y == -v.y,
    ;
    vstd::arithmetic::div_mod::lemma_fundamental_div_mod((x * max) as int, length as int);
    vstd::arithmetic::div_mod::lemma_fundamental_div_mod((y * max) as int, length as int);
    assert(rx * length <= x * max && ry * length <= y * max) by (nonlinear_arith)
        requires
            x * max == length * rx + (x * max) % length,
            y * max == length * ry + (y * max) % length,
            (x * max) % length >= 0,
            (y * max) % length >= 0,
    ;
    assert((rx * length) * (rx * length) <= (x * max) * (x * max)) by (nonlinear_arith)
        requires
            0 <= rx * length <= x * max,
    ;
    assert((ry * length) * (ry * length) <= (y * max) * (y * max)) by (nonlinear_arith)
        requires
            0 <= ry * length <= y * max,
    ;
    let circle = rx * rx + ry * ry;
    assert(circle * (length * length) == (rx * length) * (rx * length) + (ry * length) * (ry
        * length)) by (nonlinear_arith)
        requires
            circle == rx * rx + ry * ry,
    ;
    assert((x * max) * (x * max) + (y * max) * (y * max) == (x * x + y * y) * (max * max))
        by (nonlinear_arith);
    assert((x * x + y * y) * (max * max) <= (length * length) * (max * max)) by (nonlinear_arith)
        requires
            x * x + y * y <= length * length,
    ;
    assert(length * length > 0) by (nonlinear_arith)
        requires
            length > 0,
    ;
    assert(circle <= max * max) by (nonlinear_arith)
        requires
            circle * (length * length) <= (length * length) * (max * max),
            length * length > 0,
    ;
    assert(cx * cx <= rx * rx && cy * cy <= ry * ry) by (nonlinear_arith)
        requires
            0 <= cx <= rx,
            0 <= cy <= ry,
    ;
    let c = v.scaled_spec(max, length);
    assert(c.x * c.x + c.y * c.y == cx * cx + cy * cy) by (nonlinear_arith)
        requires
            cx == c.x || cx == -c.x,
            cy == c.y || cy == -c.y,
    ;
}

/// Neither component of a vector is longer than the vector, rounded down.
pub proof fn lemma_components_within_length(v: Vec2)
    ensures
        abs_spec(v.x as int) <= v.length_spec(),
        abs_spec(v.y as int) <= v.length_spec(),
{
    lemma_floor_sqrt_brackets(v.length_squared_spec());
    let length = v.length_spec() as int;
    let x = abs_spec(v.x as int) as int;
    let y = abs_spec(v.y as int) as int;
    assert(x * x + y * y == v.x * v.x + v.y * v.y) by (nonlinear_arith)
        requires
            x == v.x || x == -v.x,
            y == v.y || y == -v.y,
    ;
    assert(x <= length) by (nonlinear_arith)
        requires
            x * x + y * y < (length + 1) * (length + 1),
            0 <= x,
            0 <= length,
    ;
    assert(y <= length) by (nonlinear_arith)
        requires
            x * x + y * y < (length + 1) * (length + 1),
            0 <= y,
            0 <= length,
    ;
}

/// The opposite vector is as long.
pub proof fn lemma_negated_length(v: Vec2)
    requires
        v.x > i64::MIN,
        v.y > i64::MIN,
    ensures
        v.negated_spec().length_squared_spec() == v.length_squared_spec(),
        v.negated_spec().x == -v.x,
        v.negated_spec().y == -v.y,
{
    let x = v.x as int;
    let y = v.y as int;
    assert((-x) * (-x) == x * x) by (nonlinear_arith);
    assert((-y) * (-y) == y * y) by (nonlinear_arith);
}

/// A vector other than zero is at least one step long, in steps and in parts; and while
/// it is shorter than 2^48 steps, neither of its components, taken in parts, is longer
/// than its fine length, and neither is as long as 2^48 steps.
pub proof fn lemma_fine_length_covers(v: Vec2)
    requires
        v != Vec2::zero_spec(),
    ensures
        v.length_spec() >= 1,
        v.fine_length_spec() >= PARTS,
        v.length_squared_spec() < FINE_LIMIT ==> {
            &&& abs_spec(v.x as int) * PARTS <= v.fine_length_spec()
            &&& abs_spec(v.y as int) * PARTS <= v.fine_length_spec()
            &&& abs_spec(v.x as int) < 0x1_0000_0000_0000
            &&& abs_spec(v.y as int) < 0x1_0000_0000_0000
        },
{
    let x = abs_spec(v.x as int);
    let y = abs_spec(v.y as int);
    let squared = v.length_squared_spec();
    assert(x * x + y * y == v.x * v.x + v.y * v.y && x * x + y * y >= 1) by (nonlinear_arith)
        requires
            x == v.x || x == -v.x,
            y == v.y || y == -v.y,
            v.x != 0 || v.y != 0,
    ;
    assert(1nat * 1nat <= squared) by (nonlinear_arith)
        requires
            squared >= 1,
    ;
    lemma_floor_sqrt_at_least(squared, 1);
    if squared < FINE_LIMIT {
        let wide = squared * FINE_SQUARED as nat;
        assert((x * 65_536) * (x * 65_536) <= wide && (y * 65_536) * (y * 65_536) <= wide
            && 65_536nat * 65_536nat <= wide) by (nonlinear_arith)
            requires
                wide == (x * x + y * y) * 0x1_0000_0000,
                x * x + y * y >= 1,
        ;
        lemma_floor_sqrt_at_least(wide, x * 65_536);
        lemma_floor_sqrt_at_least(wide, y * 65_536);
        lemma_floor_sqrt_at_least(wide, 65_536);
        assert(x < 0x1_0000_0000_0000 && y < 0x1_0000_0000_0000) by (nonlinear_arith)
            requires
                x * x + y * y < 0x1_0000_0000_0000_0000_0000_0000,
                x >= 0,
                y >= 0,
        ;
    }
}

} // verus!
