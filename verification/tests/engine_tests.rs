use galaxy_engine::engine::{engine_step, engine_substep, latest_snapshot, WorkerState};
use galaxy_engine::object::{snapshot, Object, Rgba};
use galaxy_engine::vec2::Vec2;
use galaxy_engine::UNIT;

fn white() -> Rgba {
    Rgba { r: 255, g: 255, b: 255, a: 255 }
}

fn two_body_system() -> Vec<Object> {
    let heavy = Object::new_inactive(1000 * UNIT, Vec2::new_null(), false, white()).unwrap();
    let light =
        Object::new_inactive(UNIT, Vec2::new(100 * UNIT, 0), true, white()).unwrap();
    vec![heavy, light]
}

#[test]
fn one_step_with_one_substep_matches_kernel() {
    // one engine step of delta_t = 1.0 with a single sub-step is one
    // force pass plus one integration pass
    let mut stepped = two_body_system();
    engine_step(&mut stepped, 0, UNIT, 1);
    let mut manual = two_body_system();
    engine_substep(&mut manual, 0, UNIT);
    assert_eq!(stepped, manual);
    assert_eq!(stepped[1].velocity, Vec2::new(-UNIT / 10, 0));
}

#[test]
fn substeps_divide_the_time_increment() {
    // four sub-steps of delta_t = 1.0 are four sub-steps of 0.25 each
    let mut stepped = two_body_system();
    engine_step(&mut stepped, 0, UNIT, 4);
    let mut manual = two_body_system();
    for _ in 0..4 {
        engine_substep(&mut manual, 0, UNIT / 4);
    }
    assert_eq!(stepped, manual);
}

#[test]
fn substepping_converges_to_the_single_step() {
    // for a small total increment, n sub-steps approximate one plain
    // step of the same total; tolerance in raw scalar units
    let total: i64 = UNIT / 100;
    let mut fine = two_body_system();
    engine_step(&mut fine, 0, total, 10);
    let mut coarse = two_body_system();
    engine_step(&mut coarse, 0, total, 1);
    let dv = (fine[1].velocity.x - coarse[1].velocity.x).abs();
    let dx = (fine[1].location.x - coarse[1].location.x).abs();
    assert!(dv <= 16, "velocity gap {} too wide", dv);
    assert!(dx <= 16, "location gap {} too wide", dx);
    // both runs leave the immovable body alone
    assert_eq!(fine[0], coarse[0]);
    assert_eq!(fine[0].velocity, Vec2::new_null());
}

#[test]
fn immovable_body_is_fixed_across_engine_steps() {
    let mut objects = two_body_system();
    let anchor = objects[0];
    for _ in 0..10 {
        engine_step(&mut objects, 50 * UNIT, 36_000 * UNIT, 5);
    }
    assert_eq!(objects[0], anchor);
    assert_ne!(objects[1].velocity, Vec2::new_null());
}

#[test]
fn worker_state_lifecycle() {
    let idle = WorkerState::Idle;
    assert!(!idle.is_running());

    // starting moves Idle to Running and nothing else
    let running = idle.start();
    assert_eq!(running, WorkerState::Running);
    assert!(running.is_running());

    // publishing to a connected consumer keeps the worker running
    let still_running = running.after_publish(true);
    assert_eq!(still_running, WorkerState::Running);

    // a closed channel is the sole termination condition
    let stopped = still_running.after_publish(false);
    assert_eq!(stopped, WorkerState::Stopped);
    assert!(!stopped.is_running());

    // stopping is final: no event revives the worker
    assert_eq!(stopped.after_publish(true), WorkerState::Stopped);
    assert_eq!(stopped.after_publish(false), WorkerState::Stopped);
    assert_eq!(stopped.start(), WorkerState::Stopped);
    assert_eq!(running.start(), WorkerState::Running);
}

#[test]
fn consumer_poll_adopts_latest_and_falls_back() {
    let objects = two_body_system();
    let current = snapshot(&objects);

    let mut advanced = two_body_system();
    engine_step(&mut advanced, 0, UNIT, 1);
    let newer = snapshot(&advanced);

    let adopted = latest_snapshot(current.clone(), Some(newer.clone()));
    assert_eq!(adopted, newer);
    let kept = latest_snapshot(current.clone(), None);
    assert_eq!(kept, current);
}
