use galaxy_engine::initial::{add_orbital_velocity, VelocityDirection};
use galaxy_engine::object::{Object, Rgba};
use galaxy_engine::vec2::Vec2;
use galaxy_engine::UNIT;

fn grey() -> Rgba {
    Rgba { r: 128, g: 128, b: 128, a: 255 }
}

#[test]
fn orbital_velocity_is_perpendicular_left() {
    // satellite at (100, 0) around an origin of mass 100 at (0, 0):
    // orbital speed sqrt(G * 100 / 100) == 1.0, a quarter turn to the
    // left of the direction toward the origin, i.e. straight down
    let origin = Object::new_inactive(100 * UNIT, Vec2::new_null(), false, grey()).unwrap();
    let mut sat =
        Object::new_inactive(UNIT, Vec2::new(100 * UNIT, 0), true, grey()).unwrap();
    let before = sat;
    add_orbital_velocity(&mut sat, &vec![origin], VelocityDirection::Left);
    assert_eq!(sat.velocity, Vec2::new(0, -UNIT));
    // nothing else changes
    assert_eq!(sat.location, before.location);
    assert_eq!(sat.mass, before.mass);
    assert_eq!(sat.force, before.force);
}

#[test]
fn orbital_velocity_is_perpendicular_right() {
    let origin = Object::new_inactive(100 * UNIT, Vec2::new_null(), false, grey()).unwrap();
    let mut sat =
        Object::new_inactive(UNIT, Vec2::new(100 * UNIT, 0), true, grey()).unwrap();
    add_orbital_velocity(&mut sat, &vec![origin], VelocityDirection::Right);
    assert_eq!(sat.velocity, Vec2::new(0, UNIT));
}

#[test]
fn orbital_velocity_skips_colocated_origin_and_sums_the_rest() {
    let colocated =
        Object::new_inactive(500 * UNIT, Vec2::new(100 * UNIT, 0), false, grey()).unwrap();
    let origin = Object::new_inactive(100 * UNIT, Vec2::new_null(), false, grey()).unwrap();
    let mut sat =
        Object::new_inactive(UNIT, Vec2::new(100 * UNIT, 0), true, grey()).unwrap();
    add_orbital_velocity(&mut sat, &vec![colocated, origin, origin], VelocityDirection::Left);
    // the co-located origin contributes nothing; the two real passes
    // stack up
    assert_eq!(sat.velocity, Vec2::new(0, -2 * UNIT));
}
