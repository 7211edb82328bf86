use particle_sandbox::heading::{circular_points, Heading};
use particle_sandbox::vector::{Vec2, UNIT};

#[test]
fn rotation_turns_by_quarter_turns_exactly() {
    let east = Heading::default();
    let north = Heading::toward(Vec2::zero(), Vec2::new(0, 5));
    let west = Heading::toward(Vec2::zero(), Vec2::new(-5, 0));
    let south = Heading::toward(Vec2::zero(), Vec2::new(0, -5));
    let vector = Vec2::new(30, 40);
    assert_eq!(east.rotate(vector), Vec2::new(30, 40));
    assert_eq!(north.rotate(vector), Vec2::new(-40, 30));
    assert_eq!(west.rotate(vector), Vec2::new(-30, -40));
    assert_eq!(south.rotate(vector), Vec2::new(40, -30));
}

#[test]
fn rotation_rounds_toward_zero_and_saturates() {
    let diagonal = Heading::toward(Vec2::zero(), Vec2::new(1, 1));
    assert_eq!(diagonal.get(), Vec2::new(46_341, 46_341));
    assert_eq!(diagonal.rotate(Vec2::new(3, 0)), Vec2::new(2, 2));
    assert_eq!(diagonal.rotate(Vec2::new(-3, 0)), Vec2::new(-2, -2));
    assert_eq!(diagonal.rotate(Vec2::new(0, 3)), Vec2::new(-2, 2));
    assert_eq!(diagonal.rotate(Vec2::new(100_000, 100_000)), Vec2::new(0, 141_421));
    let east = Heading::default();
    assert_eq!(east.rotate(Vec2::new(i64::MAX, i64::MIN)), Vec2::new(i64::MAX, i64::MIN));
    let north = Heading::toward(Vec2::zero(), Vec2::new(0, 5));
    assert_eq!(north.rotate(Vec2::new(i64::MAX, i64::MIN)), Vec2::new(i64::MAX, i64::MAX));
}

#[test]
fn headings_are_one_unit_long() {
    for target in [(1i64, 1i64), (3, -4), (-700, 1), (123_456_789, -987_654_321), (i64::MAX, 1)] {
        let direction = Heading::toward(Vec2::zero(), Vec2::new(target.0, target.1)).get();
        let length = ((direction.x * direction.x + direction.y * direction.y) as f64).sqrt();
        assert!((length - UNIT as f64).abs() <= 2.0);
        assert_eq!(direction.x.signum(), target.0.signum());
    }
    let huge = Heading::toward(Vec2::new(i64::MIN, 0), Vec2::new(i64::MAX, i64::MAX)).get();
    assert_eq!(huge, Vec2::new(46_340, 46_340));
}

#[test]
fn circular_points_lie_round_the_midpoint() {
    let midpoint = Vec2::new(100, 200);
    let directions = vec![
        Heading::default(),
        Heading::toward(Vec2::zero(), Vec2::new(0, 1)),
        Heading::toward(Vec2::zero(), Vec2::new(-1, 0)),
        Heading::toward(Vec2::zero(), Vec2::new(0, -1)),
    ];
    assert_eq!(
        circular_points(midpoint, 10, &directions),
        vec![Vec2::new(100, 210), Vec2::new(90, 200), Vec2::new(100, 190), Vec2::new(110, 200)]
    );
    assert_eq!(circular_points(midpoint, 10, &Vec::new()), Vec::new());
    assert_eq!(
        circular_points(midpoint, u64::MAX, &directions[..1].to_vec()),
        vec![Vec2::new(100, i64::MAX)]
    );
}
