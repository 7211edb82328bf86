use particle_sandbox::vector::{
    isqrt, magnitude, narrow, saturating_add, saturating_neg, saturating_sub, scale, Vec2, UNIT,
    UNIT_FOURTH_ROOT, UNIT_LENGTH, UNIT_ROOT,
};

#[test]
fn unit_is_two_to_the_sixteenth_steps() {
    assert_eq!(UNIT, 65_536);
    assert_eq!(UNIT_LENGTH, 65_536);
    assert_eq!(UNIT_ROOT * UNIT_ROOT, UNIT);
    assert_eq!(UNIT_FOURTH_ROOT * UNIT_FOURTH_ROOT, UNIT_ROOT);
}

#[test]
fn scalar_arithmetic_saturates() {
    assert_eq!(saturating_add(1, 2), 3);
    assert_eq!(saturating_add(i64::MAX, 1), i64::MAX);
    assert_eq!(saturating_add(i64::MIN, -1), i64::MIN);
    assert_eq!(saturating_sub(1, 2), -1);
    assert_eq!(saturating_sub(i64::MIN, 1), i64::MIN);
    assert_eq!(saturating_sub(i64::MAX, -1), i64::MAX);
    assert_eq!(saturating_neg(5), -5);
    assert_eq!(saturating_neg(i64::MIN), i64::MAX);
    assert_eq!(saturating_neg(i64::MAX), i64::MIN + 1);
    assert_eq!(narrow(i64::MAX as i128 + 5), i64::MAX);
    assert_eq!(narrow(i64::MIN as i128 - 5), i64::MIN);
    assert_eq!(narrow(-17), -17);
}

#[test]
fn magnitude_of_every_sign() {
    assert_eq!(magnitude(0), 0);
    assert_eq!(magnitude(7), 7);
    assert_eq!(magnitude(-7), 7);
    assert_eq!(magnitude(i64::MIN), 1u64 << 63);
    assert_eq!(magnitude(i64::MAX), i64::MAX as u64);
}

#[test]
fn isqrt_rounds_down() {
    assert_eq!(isqrt(0), 0);
    assert_eq!(isqrt(1), 1);
    assert_eq!(isqrt(3), 1);
    assert_eq!(isqrt(4), 2);
    assert_eq!(isqrt(24), 4);
    assert_eq!(isqrt(25), 5);
    assert_eq!(isqrt(26), 5);
    assert_eq!(isqrt(1_000_000), 1000);
    assert_eq!(isqrt(u128::MAX), u64::MAX);
    assert_eq!(isqrt((u64::MAX as u128) * (u64::MAX as u128)), u64::MAX);
    assert_eq!(isqrt((u64::MAX as u128) * (u64::MAX as u128) - 1), u64::MAX - 1);
}

#[test]
fn isqrt_brackets_its_argument() {
    for n in 0u128..2000 {
        let root = isqrt(n) as u128;
        assert!(root * root <= n && n < (root + 1) * (root + 1));
    }
}

#[test]
fn scale_rounds_toward_zero() {
    assert_eq!(scale(7, 1, 2), 3);
    assert_eq!(scale(-7, 1, 2), -3);
    assert_eq!(scale(120, 1, 60), 2);
    assert_eq!(scale(-160, 1, 60), -2);
    assert_eq!(scale(3, 200, 5), 120);
    assert_eq!(scale(0, 9, 4), 0);
    assert_eq!(scale(i64::MAX, 2, 1), i64::MAX);
    assert_eq!(scale(i64::MIN, 2, 1), i64::MIN);
    assert_eq!(scale(i64::MIN, 1, 1), i64::MIN);
    assert_eq!(scale(i64::MIN, u64::MAX, u64::MAX), i64::MIN);
}

#[test]
fn vector_arithmetic_saturates_by_component() {
    let a = Vec2::new(i64::MAX, -5);
    let b = Vec2::new(1, i64::MIN);
    assert_eq!(a.saturating_add(b), Vec2::new(i64::MAX, i64::MIN));
    assert_eq!(a.saturating_sub(b), Vec2::new(i64::MAX - 1, i64::MAX - 4));
    assert_eq!(Vec2::new(0, 0).saturating_sub(Vec2::new(i64::MIN, 1)), Vec2::new(i64::MAX, -1));
    assert_eq!(b.saturating_neg(), Vec2::new(-1, i64::MAX));
    assert_eq!(Vec2::new(3, 4).saturating_add(Vec2::new(-1, 1)), Vec2::new(2, 5));
    assert!(Vec2::zero().is_zero());
    assert!(!Vec2::new(0, 1).is_zero());
}

#[test]
fn length_is_rounded_down() {
    assert_eq!(Vec2::new(3, 4).length_squared(), 25);
    assert_eq!(Vec2::new(3, 4).length(), 5);
    assert_eq!(Vec2::new(-3, -4).length(), 5);
    assert_eq!(Vec2::new(1, 1).length(), 1);
    assert_eq!(Vec2::new(2, 2).length(), 2);
    assert_eq!(Vec2::new(i64::MIN, i64::MIN).length_squared(), 1u128 << 127);
    assert_eq!(Vec2::new(i64::MIN, i64::MIN).length(), 13_043_817_825_332_782_212);
}

#[test]
fn clamp_keeps_short_vectors_and_shortens_long_ones() {
    assert_eq!(Vec2::new(3, 4).clamp_length_max(5), Vec2::new(3, 4));
    assert_eq!(Vec2::new(3, 4).clamp_length_max(6), Vec2::new(3, 4));
    assert_eq!(Vec2::new(30, 40).clamp_length_max(5), Vec2::new(3, 4));
    assert_eq!(Vec2::new(-30, 40).clamp_length_max(5), Vec2::new(-3, 4));
    assert_eq!(Vec2::new(30, 40).clamp_length_max(0), Vec2::new(0, 0));
    assert_eq!(Vec2::new(0, 0).clamp_length_max(0), Vec2::new(0, 0));
    assert_eq!(Vec2::new(10_000, 0).clamp_length_max(3413), Vec2::new(3413, 0));
    assert_eq!(Vec2::new(1, 1).scaled(3, 2), Vec2::new(1, 1));
    assert_eq!(Vec2::new(5, -5).scaled(3, 2), Vec2::new(7, -7));
}

#[test]
fn clamped_vectors_are_never_longer_than_the_limit() {
    assert_eq!(Vec2::new(1_000_000, 1_000_000).length(), 1_414_213);
    assert_eq!(Vec2::new(1_000_000, 1_000_000).length_up(), 1_414_214);
    assert_eq!(Vec2::new(3, 4).length_up(), 5);
    assert_eq!(Vec2::new(0, 0).length_up(), 0);
    assert_eq!(
        Vec2::new(1_000_000, 1_000_000).clamp_length_max(218_453),
        Vec2::new(154_469, 154_469)
    );
    let mut seed: u64 = 11;
    for _ in 0..2000 {
        seed = seed.wrapping_mul(6364136223846793005).wrapping_add(1442695040888963407);
        let x = (seed >> 20) as i64 - (1 << 43);
        seed = seed.wrapping_mul(6364136223846793005).wrapping_add(1442695040888963407);
        let y = (seed >> 20) as i64 - (1 << 43);
        seed = seed.wrapping_mul(6364136223846793005).wrapping_add(1442695040888963407);
        let max = seed >> 24;
        let clamped = Vec2::new(x, y).clamp_length_max(max);
        assert!(clamped.length_squared() <= (max as u128) * (max as u128));
        assert_eq!(clamped.x.signum() * x.signum() >= 0, true);
        if Vec2::new(x, y).length_squared() > (max as u128) * (max as u128) {
            assert!(clamped.length_up() + 2 >= max);
        } else {
            assert_eq!(clamped, Vec2::new(x, y));
        }
    }
    let huge = Vec2::new(i64::MIN, i64::MIN).clamp_length_max(u64::MAX);
    assert_eq!(huge, Vec2::new(i64::MIN, i64::MIN));
    let cut = Vec2::new(i64::MIN, i64::MAX).clamp_length_max(1 << 63);
    assert!(cut.length_squared() <= 1u128 << 126);
}
