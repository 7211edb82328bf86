use particle_sandbox::force::{
    attenuate, calculate_force, fourth_root, fourth_root_faded, per_tick, root, root_faded,
};
use particle_sandbox::vector::{Vec2, PARTS, UNIT, UNIT_FOURTH_ROOT};

/// The force law in floating point, with lengths in units.
fn test_force(base_force: f64, proximity_cap: f64, exponent: f64, offset: (f64, f64)) -> (f64, f64) {
    if offset == (0.0, 0.0) {
        return (0.0, 0.0);
    }
    let dot_product = offset.0 * offset.0 + offset.1 * offset.1;
    let multiplier = if exponent == 2.0 {
        base_force / dot_product.max(proximity_cap * proximity_cap) / dot_product.sqrt()
    } else {
        let length = dot_product.sqrt();
        base_force / length.max(proximity_cap).powf(exponent) / length
    };
    (offset.0 * multiplier, offset.1 * multiplier)
}

/// The force law of the library, with forces and the cap in units and the offset in half
/// units.
fn library_force(base_force: i64, proximity_cap: i64, exponent_quarters: u32, offset: (i64, i64)) -> (f64, f64) {
    let mut scaled = base_force * UNIT;
    for _ in 0..exponent_quarters {
        scaled *= UNIT_FOURTH_ROOT;
    }
    let force = calculate_force(
        scaled,
        proximity_cap * UNIT,
        exponent_quarters,
        Vec2::new(offset.0 * UNIT / 2, offset.1 * UNIT / 2),
    );
    (force.x as f64 / UNIT as f64, force.y as f64 / UNIT as f64)
}

#[test]
fn force_math() {
    for a in -10i64..10 {
        println!("a: {}", a as f64 / 2.0);
        for b in -10i64..10 {
            for cap in 0i64..16 {
                for force in (-8i64..8).map(|force| force * 100) {
                    for exponent in 0u32..10 {
                        let value_a = library_force(force, cap, exponent, (a, b));
                        let value_b = test_force(
                            force as f64,
                            cap as f64,
                            exponent as f64 / 4.0,
                            (a as f64 / 2.0, b as f64 / 2.0),
                        );
                        assert!(
                            (value_a.0 - value_b.0).abs() < 0.001
                                && (value_a.1 - value_b.1).abs() < 0.001
                        );
                    }
                }
            }
        }
    }
}

#[test]
fn bench_math() {
    let mut list = Vec::with_capacity(20 * 20 * 16 * 16 * 10);
    let timer = std::time::Instant::now();
    for a in -10i64..10 {
        for b in -10i64..10 {
            for cap in 0i64..16 {
                for force in (-8i64..8).map(|force| force * 100) {
                    for _exponent in 0..10 {
                        list.push(library_force(force, cap, 8, (a, b)));
                    }
                }
            }
        }
    }
    println!("Time taken: {:?}", timer.elapsed());
}

#[test]
fn bench_math_2() {
    let mut list = Vec::with_capacity(20 * 20 * 16 * 16 * 10);
    let timer = std::time::Instant::now();
    for a in (-10..10).map(|a| a as f64 / 2.0) {
        for b in (-10..10).map(|b| b as f64 / 2.0) {
            for cap in (0..16).map(|cap| cap as f64) {
                for force in (-8..8).map(|force| force as f64 * 100.0) {
                    for _exponent in 0..10 {
                        list.push(test_force(force, cap, 2.0, (a, b)));
                    }
                }
            }
        }
    }
    println!("Time taken: {:?}", timer.elapsed());
}

#[test]
fn force_is_zero_at_zero_offset() {
    for base in [i64::MIN, -1_000, 0, 1, 1_000_000, i64::MAX] {
        for cap in [i64::MIN, -5, 0, 5, i64::MAX] {
            for exponent_quarters in [0u32, 1, 2, 3, 4, 9, u32::MAX] {
                assert_eq!(calculate_force(base, cap, exponent_quarters, Vec2::zero()), Vec2::zero());
            }
        }
    }
}

#[test]
fn force_follows_the_power_law() {
    assert_eq!(calculate_force(1000, 0, 8, Vec2::new(10, 0)), Vec2::new(10, 0));
    assert_eq!(calculate_force(1000, 0, 6, Vec2::new(10, 0)), Vec2::new(31, 0));
    assert_eq!(calculate_force(1000, 0, 4, Vec2::new(3, 4)), Vec2::new(120, 160));
    assert_eq!(calculate_force(1000, 0, 2, Vec2::new(3, 4)), Vec2::new(268, 357));
    assert_eq!(calculate_force(1000, 0, 0, Vec2::new(3, 4)), Vec2::new(600, 800));
    assert_eq!(calculate_force(1000, 0, 4, Vec2::new(-3, 4)), Vec2::new(-120, 160));
    assert_eq!(calculate_force(1000, 0, 1, Vec2::new(0, 16)), Vec2::new(0, 500));
    assert_eq!(calculate_force(1000, 0, 3, Vec2::new(-16, 0)), Vec2::new(-125, 0));
    assert_eq!(calculate_force(1000, 0, 5, Vec2::new(16, 0)), Vec2::new(31, 0));
    assert_eq!(calculate_force(1000, 0, 4, Vec2::new(1, 1)), Vec2::new(499, 499));
    assert_eq!(calculate_force(1_000_000, 0, 8, Vec2::new(1, 1)), Vec2::new(353_563, 353_563));
}

#[test]
fn negative_force_points_the_other_way() {
    assert_eq!(calculate_force(-1000, 0, 4, Vec2::new(3, 4)), Vec2::new(-120, -160));
    assert_eq!(calculate_force(-1000, 0, 8, Vec2::new(0, -10)), Vec2::new(0, 10));
}

#[test]
fn proximity_cap_holds_the_force_down() {
    assert_eq!(calculate_force(1000, 10, 4, Vec2::new(3, 4)), Vec2::new(60, 80));
    assert_eq!(calculate_force(1000, 5, 4, Vec2::new(3, 4)), Vec2::new(120, 160));
    assert_eq!(calculate_force(1000, 4, 4, Vec2::new(3, 4)), Vec2::new(120, 160));
    assert_eq!(calculate_force(1000, -4, 4, Vec2::new(3, 4)), Vec2::new(120, 160));
    assert_eq!(calculate_force(1000, 10, 8, Vec2::new(1, 0)), Vec2::new(10, 0));
}

#[test]
fn force_is_odd() {
    for offset in [Vec2::new(3, 4), Vec2::new(-7, 1), Vec2::new(1000, -999), Vec2::new(0, 5)] {
        for base in [-12_345i64, 77, 1_000_000] {
            for exponent_quarters in 0u32..12 {
                assert_eq!(
                    calculate_force(base, 3, exponent_quarters, offset.saturating_neg()),
                    calculate_force(base, 3, exponent_quarters, offset).saturating_neg()
                );
            }
        }
    }
}

#[test]
fn extreme_forces_do_not_overflow() {
    let force = calculate_force(i64::MIN, 0, 0, Vec2::new(-1, 0));
    assert_eq!(force, Vec2::new(i64::MAX, 0));
    let force = calculate_force(i64::MAX, 0, 0, Vec2::new(i64::MIN, i64::MIN));
    assert!(force.x < 0 && force.y < 0);
    let force = calculate_force(i64::MAX, i64::MAX, u32::MAX, Vec2::new(5, 5));
    assert_eq!(force, Vec2::zero());
    let force = calculate_force(i64::MAX, 0, u32::MAX, Vec2::new(1, 0));
    assert_eq!(force, Vec2::new(i64::MAX, 0));
}

#[test]
fn attenuation_divides_by_powers_and_roots() {
    assert_eq!(PARTS, 65_536);
    assert_eq!(attenuate(1000, 10 * PARTS, 0), 1000);
    assert_eq!(attenuate(1000, 10 * PARTS, 4), 100);
    assert_eq!(attenuate(1000, 10 * PARTS, 8), 10);
    assert_eq!(attenuate(1000, 10 * PARTS, 12), 1);
    assert_eq!(attenuate(1000, 10 * PARTS, 16), 0);
    assert_eq!(attenuate(1000, 10 * PARTS, 2), 316);
    assert_eq!(attenuate(1000, 10 * PARTS, 6), 31);
    assert_eq!(attenuate(1000, 10 * PARTS, 1), 562);
    assert_eq!(attenuate(1000, 4 * PARTS, 2), 500);
    assert_eq!(attenuate(1000, 16 * PARTS, 1), 500);
    assert_eq!(attenuate(1000, 16 * PARTS, 3), 125);
    assert_eq!(attenuate(1000, 16 * PARTS, 5), 31);
    assert_eq!(attenuate(1000, 16 * PARTS, 7), 7);
    assert_eq!(attenuate(1000, PARTS, 7), 1000);
    assert_eq!(attenuate(1000, PARTS * 3 / 2, 4), 666);
    assert_eq!(attenuate(1000, PARTS * 3 / 2, 8), 444);
    assert_eq!(attenuate(u64::MAX, PARTS, u32::MAX), u64::MAX);
    assert_eq!(attenuate(u64::MAX, 2 * PARTS, 4), u64::MAX / 2);
    assert_eq!(attenuate(u64::MAX, u64::MAX, 4), 65_536);
    assert_eq!(attenuate(7, 3 * PARTS, 4), 2);
    assert_eq!(attenuate(7, 3 * PARTS, 8), 0);
    assert_eq!(attenuate(7, 3 * PARTS, u32::MAX), 0);
    assert_eq!(root(PARTS), 1 << 40);
    assert_eq!(root(4 * PARTS), 1 << 41);
    assert_eq!(fourth_root(PARTS), 1 << 52);
    assert_eq!(fourth_root(16 * PARTS), 1 << 53);
    assert_eq!(root_faded(1000, 10 * PARTS), 316);
    assert_eq!(root_faded(u64::MAX, PARTS), u64::MAX);
    assert_eq!(fourth_root_faded(1000, 10 * PARTS), 562);
    assert_eq!(fourth_root_faded(1000, 81 * PARTS), 333);
    assert_eq!(fourth_root_faded(u64::MAX, PARTS), u64::MAX);
}

#[test]
fn a_tick_takes_a_sixtieth() {
    assert_eq!(per_tick(Vec2::new(120, -160)), Vec2::new(2, -2));
    assert_eq!(per_tick(Vec2::new(59, -59)), Vec2::new(0, 0));
    assert_eq!(per_tick(Vec2::new(60, -60)), Vec2::new(1, -1));
    assert_eq!(per_tick(Vec2::new(4096, 0)), Vec2::new(68, 0));
}

#[test]
fn force_fades_with_distance_and_is_held_at_the_cap() {
    for exponent_quarters in 0u32..14 {
        let mut last = u64::MAX;
        for distance in 0u64..400 {
            let faded = attenuate(1_000_000_000, PARTS + distance * 7_001, exponent_quarters);
            assert!(faded <= last);
            last = faded;
        }
    }
    for exponent_quarters in 0u32..10 {
        let at_cap = attenuate(1_000_000, 50 * PARTS, exponent_quarters) as i64;
        for reach in [1i64, 7, 49, 50] {
            assert_eq!(
                calculate_force(1_000_000, 50, exponent_quarters, Vec2::new(reach, 0)),
                Vec2::new(at_cap, 0)
            );
        }
        for offset in [Vec2::new(30, 40), Vec2::new(-51, 0), Vec2::new(3, -4), Vec2::new(600, 800)] {
            let force = calculate_force(1_000_000, 50, exponent_quarters, offset);
            assert!(force.x.abs() <= at_cap && force.y.abs() <= at_cap);
        }
    }
}
