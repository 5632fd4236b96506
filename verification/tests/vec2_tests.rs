use galaxy_engine::vec2::Vec2;
use galaxy_engine::{SCALAR_MAX, UNIT};

#[test]
fn construction_and_tuple_round_trip() {
    let v = Vec2::new(3, -4);
    assert_eq!(v.as_tuple(), (3, -4));
    assert_eq!(Vec2::new_null(), Vec2::new(0, 0));
    assert_eq!(Vec2::new_one(), Vec2::new(UNIT, UNIT));
}

#[test]
fn componentwise_arithmetic() {
    let a = Vec2::new(2 * UNIT, -3 * UNIT);
    let b = Vec2::new(UNIT, UNIT);
    assert_eq!(a.add(b), Vec2::new(3 * UNIT, -2 * UNIT));
    assert_eq!(a.sub(b), Vec2::new(UNIT, -4 * UNIT));
    assert_eq!(a.neg(), Vec2::new(-2 * UNIT, 3 * UNIT));
    // scale by 0.5 and divide by 2.0 agree
    assert_eq!(a.mul(UNIT / 2), a.div(2 * UNIT));
    assert_eq!(a.mul(UNIT / 2), Vec2::new(UNIT, -(3 * UNIT) / 2));
}

#[test]
fn arithmetic_saturates_at_world_range() {
    let edge = Vec2::new(SCALAR_MAX, -SCALAR_MAX);
    assert_eq!(edge.add(edge), edge);
    assert_eq!(edge.mul(2 * UNIT), edge);
}

#[test]
fn length_is_the_euclidean_norm() {
    // a 3-4-5 triangle
    let v = Vec2::new(3 * UNIT, 4 * UNIT);
    assert_eq!(v.length(), 5 * UNIT);
    assert_eq!(Vec2::new_null().length(), 0);
    // direction does not matter
    assert_eq!(v.neg().length(), 5 * UNIT);
}
