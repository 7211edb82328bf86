use particle_sandbox::topology::{
    find_entity_by_cursor, find_nearest_within_radius, offset_2d, update_window_dimensions,
    wrapped, wrapping_offset, wrapping_offset_2d, WindowDimensions, CLICK_RADIUS,
};
use particle_sandbox::vector::{Vec2, UNIT};

#[test]
fn offset_is_plain_difference_within_half_the_ring() {
    assert_eq!(wrapping_offset(30, 10, 100), 20);
    assert_eq!(wrapping_offset(10, 30, 100), -20);
    assert_eq!(wrapping_offset(50, 0, 100), 50);
    assert_eq!(wrapping_offset(0, 50, 100), -50);
}

#[test]
fn offset_goes_round_the_ring_when_that_is_shorter() {
    assert_eq!(wrapping_offset(90, 10, 100), -20);
    assert_eq!(wrapping_offset(10, 90, 100), 20);
    assert_eq!(wrapping_offset(51, 0, 100), -49);
    assert_eq!(wrapping_offset(0, 51, 100), 49);
}

#[test]
fn offset_is_shortest_and_congruent_on_a_whole_ring() {
    let extent: i64 = 37;
    for a in 0..extent {
        for b in 0..extent {
            let offset = wrapping_offset(a, b, extent);
            assert!(2 * offset.abs() <= extent);
            assert_eq!((b + offset - a).rem_euclid(extent), 0);
        }
    }
}

#[test]
fn offset_saturates_at_the_ends_of_the_range() {
    assert_eq!(wrapping_offset(i64::MAX, i64::MIN, i64::MAX), i64::MAX);
    assert_eq!(wrapping_offset(i64::MIN, i64::MAX, 0), i64::MIN);
}

#[test]
fn offset_2d_wraps_each_axis_by_itself() {
    let wrap = Vec2::new(100, 60);
    let offset = wrapping_offset_2d(Vec2::new(90, 20), Vec2::new(10, 30), wrap);
    assert_eq!(offset, Vec2::new(-20, -10));
    let offset = wrapping_offset_2d(Vec2::new(10, 55), Vec2::new(20, 5), wrap);
    assert_eq!(offset, Vec2::new(-10, -10));
}

#[test]
fn offset_without_wrap_is_plain() {
    assert_eq!(offset_2d(Vec2::new(90, 20), Vec2::new(10, 30), None), Vec2::new(80, -10));
    assert_eq!(
        offset_2d(Vec2::new(90, 20), Vec2::new(10, 30), Some(Vec2::new(100, 100))),
        Vec2::new(-20, -10)
    );
}

#[test]
fn wrapped_lands_on_the_ring() {
    assert_eq!(wrapped(5, 10, 100), 15);
    assert_eq!(wrapped(95, 10, 100), 5);
    assert_eq!(wrapped(5, -10, 100), 95);
    assert_eq!(wrapped(0, -100, 100), 0);
    assert_eq!(wrapped(0, -1, 100), 99);
    assert_eq!(wrapped(99, 1, 100), 0);
    assert_eq!(wrapped(i64::MAX, i64::MAX, 7), ((i64::MAX as i128 * 2) % 7) as i64);
    assert_eq!(wrapped(i64::MIN, i64::MIN, 7), (i64::MIN as i128 * 2).rem_euclid(7) as i64);
}

#[test]
fn wrapped_differs_by_whole_extents() {
    for position in -50i64..50 {
        for movement in [-1000i64, -101, -100, -1, 0, 1, 99, 100, 1000] {
            let landed = wrapped(position, movement, 13);
            assert!((0..13).contains(&landed));
            assert_eq!((position + movement - landed).rem_euclid(13), 0);
        }
    }
}

#[test]
fn window_dimensions_keep_the_last_good_size() {
    let mut dimensions = WindowDimensions::default();
    assert_eq!(dimensions.get(), Vec2::new(1600 * UNIT, 900 * UNIT));
    update_window_dimensions(&mut dimensions, Some(Vec2::new(800, 600)));
    assert_eq!(dimensions.get(), Vec2::new(800, 600));
    update_window_dimensions(&mut dimensions, Some(Vec2::new(0, 600)));
    assert_eq!(dimensions.get(), Vec2::new(800, 600));
    update_window_dimensions(&mut dimensions, Some(Vec2::new(800, 0)));
    assert_eq!(dimensions.get(), Vec2::new(800, 600));
    update_window_dimensions(&mut dimensions, None);
    assert_eq!(dimensions.get(), Vec2::new(800, 600));
    assert!(WindowDimensions::new(Vec2::new(0, 0)).is_none());
    assert!(WindowDimensions::new(Vec2::new(-1, 5)).is_none());
    assert!(WindowDimensions::new(Vec2::new(1, 1)).is_some());
}

#[test]
fn nearest_is_the_first_of_the_nearest_within_the_radius() {
    let extent = Vec2::new(1000, 1000);
    let items = vec![
        ('a', Vec2::new(500, 530)),
        ('b', Vec2::new(510, 500)),
        ('c', Vec2::new(490, 500)),
        ('d', Vec2::new(500, 509)),
    ];
    let at = Vec2::new(500, 500);
    assert_eq!(find_nearest_within_radius(extent, at, 100, &items), Some('d'));
    assert_eq!(find_nearest_within_radius(extent, at, 10, &items), Some('d'));
    assert_eq!(find_nearest_within_radius(extent, at, 9, &items), None);
    let tied = vec![('b', Vec2::new(510, 500)), ('c', Vec2::new(490, 500))];
    assert_eq!(find_nearest_within_radius(extent, at, 11, &tied), Some('b'));
    assert_eq!(find_nearest_within_radius(extent, at, 10, &tied), None);
    let none: Vec<(char, Vec2)> = Vec::new();
    assert_eq!(find_nearest_within_radius(extent, at, 10, &none), None);
}

#[test]
fn nearest_looks_across_the_edge() {
    let extent = Vec2::new(1000, 1000);
    let items = vec![(1u8, Vec2::new(995, 5)), (2u8, Vec2::new(20, 20))];
    assert_eq!(find_nearest_within_radius(extent, Vec2::new(2, 998), 15, &items), Some(1));
}

#[test]
fn cursor_picks_within_the_click_radius() {
    let extent = Vec2::new(1600 * UNIT, 900 * UNIT);
    let cursor = Vec2::new(100 * UNIT, 100 * UNIT);
    let near = vec![(7usize, Vec2::new(100 * UNIT + CLICK_RADIUS as i64 - 1, 100 * UNIT))];
    let far = vec![(7usize, Vec2::new(100 * UNIT + CLICK_RADIUS as i64, 100 * UNIT))];
    assert_eq!(find_entity_by_cursor(cursor, extent, &near), Some(7));
    assert_eq!(find_entity_by_cursor(cursor, extent, &far), None);
}
