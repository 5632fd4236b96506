use galaxy_engine::engine::engine_step;
use galaxy_engine::object::{snapshot, NegativeOrNullMassError, Object, Rgba};
use galaxy_engine::vec2::Vec2;

fn cyan() -> Rgba {
    Rgba { r: 0, g: 255, b: 255, a: 255 }
}

#[test]
fn construction_fails_for_null_mass() {
    let r = Object::new_inactive(0, Vec2::new(1, 2), true, cyan());
    assert_eq!(r, Err(NegativeOrNullMassError { mass: 0 }));
    assert!(r.unwrap_err().is_null_mass());
}

#[test]
fn construction_fails_for_negative_mass() {
    let r = Object::new(-5, Vec2::new(1, 2), Vec2::new_null(), Vec2::new_null(), true, cyan());
    assert_eq!(r, Err(NegativeOrNullMassError { mass: -5 }));
    assert!(!r.unwrap_err().is_null_mass());
    assert_eq!(
        Object::new_inactive(i64::MIN, Vec2::new_null(), false, cyan()),
        Err(NegativeOrNullMassError { mass: i64::MIN })
    );
}

#[test]
fn construction_remembers_every_field() {
    let loc = Vec2::new(10_000_000, -3_000_000);
    let vel = Vec2::new(42, -42);
    let force = Vec2::new(7, 8);
    let o = Object::new(1_000_000, loc, force, vel, true, cyan()).unwrap();
    assert_eq!(o.mass, 1_000_000);
    assert_eq!(o.location, loc);
    assert_eq!(o.force, force);
    assert_eq!(o.velocity, vel);
    assert!(o.can_move);
    assert_eq!(o.color, cyan());

    // the smallest positive mass is accepted too
    let tiny = Object::new_inactive(1, loc, false, cyan()).unwrap();
    assert_eq!(tiny.mass, 1);
    assert!(!tiny.can_move);
    assert_eq!(tiny.velocity, Vec2::new_null());
    assert_eq!(tiny.force, Vec2::new_null());
}

#[test]
fn snapshots_are_deep_copies() {
    let heavy = Object::new_inactive(1_000_000_000, Vec2::new_null(), false, cyan()).unwrap();
    let light =
        Object::new_inactive(1_000_000, Vec2::new(100_000_000, 0), true, cyan()).unwrap();
    let mut live = vec![heavy, light];
    let mut reference = vec![heavy, light];

    // hand the consumer a snapshot and let it scribble all over it
    let mut published = snapshot(&live);
    assert_eq!(published, live);
    published[0].location = Vec2::new(123, 456);
    published[1].velocity = Vec2::new(-1, -1);
    published.pop();

    // the worker's subsequent steps are exactly what they would have
    // been had no snapshot ever been taken
    engine_step(&mut live, 0, 1_000_000, 1);
    engine_step(&mut reference, 0, 1_000_000, 1);
    assert_eq!(live, reference);

    // and a snapshot taken now is unaffected by the consumer's edits
    let fresh = snapshot(&live);
    assert_eq!(fresh, live);
    assert_ne!(fresh[0].location, Vec2::new(123, 456));
}
