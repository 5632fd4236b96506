//! The sub-stepped engine loop, the worker state machine and the
//! snapshot handoff.
//!
//! One full engine step runs a fixed number of sub-steps, each at the
//! fraction `delta_t / n` of the outer time increment, and then a
//! deep-copy snapshot of the whole body list is published to the
//! consumer.  The worker's lifecycle is the three-state machine
//! [`WorkerState`]: it starts once, runs until a publish finds the
//! consumer gone, and then stops for good.

use crate::object::Object;
use crate::physics::{
    compute_object_global_force_for_each, compute_object_next_position_for_each, force_pass_spec,
    integrate_pass_spec, lemma_force_pass_preserves, lemma_integrate_pass_preserves,
};
use crate::scalar::{abs_int, sgn};
use vstd::prelude::*;

verus! {

/// The per-sub-step time increment: `delta_t / n`, magnitude rounded
/// toward zero.
pub open spec fn substep_delta_spec(delta_t: int, n: int) -> int
    recommends
        n >= 1,
{
    sgn(delta_t) * (abs_int(delta_t) / n)
}

/// One sub-step: a force pass over the whole list, then an integration
/// pass — forces are complete before any location is advanced.
pub open spec fn substep_spec(objects: Seq<Object>, s: int, dt: int) -> Seq<Object> {
    integrate_pass_spec(force_pass_spec(objects, s), dt)
}

/// `k` sub-steps in sequence, each with the same increment `dt`.
pub open spec fn substeps_spec(objects: Seq<Object>, s: int, dt: int, k: nat) -> Seq<Object>
    decreases k,
{
    if k == 0 {
        objects
    } else {
        substep_spec(substeps_spec(objects, s, dt, (k - 1) as nat), s, dt)
    }
}

/// One full engine step: `n` sub-steps of `delta_t / n` each.
pub open spec fn engine_step_spec(objects: Seq<Object>, s: int, delta_t: int, n: nat) -> Seq<
    Object,
>
    recommends
        n >= 1,
{
    substeps_spec(objects, s, substep_delta_spec(delta_t, n as int), n)
}

/// A sub-step preserves length, masses, mobility flags and colours,
/// and leaves every immovable object exactly as it was.
pub proof fn lemma_substep_preserves(objects: Seq<Object>, s: int, dt: int)
    ensures
        substep_spec(objects, s, dt).len() == objects.len(),
        forall|i: int|
            0 <= i < objects.len() ==> {
                let o = #[trigger] substep_spec(objects, s, dt)[i];
                &&& o.mass == objects[i].mass
                &&& o.can_move == objects[i].can_move
                &&& o.color == objects[i].color
            },
        forall|i: int|
            0 <= i < objects.len() && !objects[i].can_move ==> #[trigger] substep_spec(
                objects,
                s,
                dt,
            )[i] == objects[i],
{
    lemma_force_pass_preserves(objects, s);
    lemma_integrate_pass_preserves(force_pass_spec(objects, s), dt);
}

/// However many sub-steps run, every object keeps its mass, its
/// mobility flag and its colour, and an immovable object keeps its
/// whole state: it never changes location or velocity.
pub proof fn lemma_substeps_preserve_immovable(objects: Seq<Object>, s: int, dt: int, k: nat)
    ensures
        substeps_spec(objects, s, dt, k).len() == objects.len(),
        forall|i: int|
            0 <= i < objects.len() ==> {
                let o = #[trigger] substeps_spec(objects, s, dt, k)[i];
                &&& o.mass == objects[i].mass
                &&& o.can_move == objects[i].can_move
                &&& o.color == objects[i].color
            },
        forall|i: int|
            0 <= i < objects.len() && !objects[i].can_move ==> #[trigger] substeps_spec(
                objects,
                s,
                dt,
                k,
            )[i] == objects[i],
    decreases k,
{
    if k == 0 {
    } else {
        lemma_substeps_preserve_immovable(objects, s, dt, (k - 1) as nat);
        lemma_substep_preserves(substeps_spec(objects, s, dt, (k - 1) as nat), s, dt);
    }
}

/// Running sub-step batches one after the other is the same as running
/// all the sub-steps in one batch.
pub proof fn lemma_substeps_compose(objects: Seq<Object>, s: int, dt: int, k1: nat, k2: nat)
    ensures
        substeps_spec(substeps_spec(objects, s, dt, k1), s, dt, k2) == substeps_spec(
            objects,
            s,
            dt,
            (k1 + k2) as nat,
        ),
    decreases k2,
{
    if k2 == 0 {
    } else {
        lemma_substeps_compose(objects, s, dt, k1, (k2 - 1) as nat);
    }
}

/// Divide the outer time increment by the sub-step count, magnitude
/// rounded toward zero.
fn substep_delta(delta_t: i64, sub_steps: u32) -> (r: i64)
    requires
        sub_steps >= 1,
    ensures
        r as int == substep_delta_spec(delta_t as int, sub_steps as int),
{
    let neg: bool = delta_t < 0;
    let mag: u64 = if neg {
        (-(delta_t as i128)) as u64
    } else {
        delta_t as u64
    };
    let q: u64 = mag / (sub_steps as u64);
    proof {
        vstd::arithmetic::div_mod::lemma_div_nonincreasing(mag as int, sub_steps as int);
    }
    let qi: i128 = if neg {
        -(q as i128)
    } else {
        q as i128
    };
    qi as i64
}

/// Run one sub-step over the body list: recompute every movable
/// object's force against the list as it stood at entry, then advance
/// every movable object by `dt`.
pub fn engine_substep(objects: &mut Vec<Object>, force_smoothings: i64, dt: i64)
    requires
        forall|j: int| 0 <= j < old(objects)@.len() ==> old(objects)@[j].valid(),
        force_smoothings >= 0,
    ensures
        final(objects)@ == substep_spec(old(objects)@, force_smoothings as int, dt as int),
{
    let ghost orig: Seq<Object> = objects@;
    compute_object_global_force_for_each(objects, force_smoothings);
    proof {
        lemma_force_pass_preserves(orig, force_smoothings as int);
    }
    compute_object_next_position_for_each(objects, dt);
}

/// Run one full engine step: `sub_steps` sub-steps, each with the
/// increment `delta_t / sub_steps`.  Masses never change, so the body
/// list stays valid, and an immovable object keeps its whole state.
pub fn engine_step(objects: &mut Vec<Object>, force_smoothings: i64, delta_t: i64, sub_steps: u32)
    requires
        forall|j: int| 0 <= j < old(objects)@.len() ==> old(objects)@[j].valid(),
        force_smoothings >= 0,
        sub_steps >= 1,
    ensures
        final(objects)@ == engine_step_spec(
            old(objects)@,
            force_smoothings as int,
            delta_t as int,
            sub_steps as nat,
        ),
        final(objects)@.len() == old(objects)@.len(),
        forall|j: int| 0 <= j < final(objects)@.len() ==> final(objects)@[j].valid(),
{
    let ghost orig: Seq<Object> = objects@;
    let dt: i64 = substep_delta(delta_t, sub_steps);
    let mut k: u32 = 0;
    while k < sub_steps
        invariant
            0 <= k <= sub_steps,
            force_smoothings >= 0,
            forall|j: int| 0 <= j < orig.len() ==> orig[j].valid(),
            objects@ == substeps_spec(orig, force_smoothings as int, dt as int, k as nat),
        decreases sub_steps - k,
    {
        proof {
            lemma_substeps_preserve_immovable(orig, force_smoothings as int, dt as int, k as nat);
        }
        engine_substep(objects, force_smoothings, dt);
        k = k + 1;
    }
    proof {
        lemma_substeps_preserve_immovable(
            orig,
            force_smoothings as int,
            dt as int,
            sub_steps as nat,
        );
    }
}

/// Execution state of the simulation worker.
#[derive(Clone, Copy, PartialEq, Eq, Structural, Debug)]
pub enum WorkerState {
    /// Not yet started.
    Idle,
    /// Looping sub-steps and publishing snapshots.
    Running,
    /// The consumer disconnected; the worker has exited cleanly.
    Stopped,
}

impl WorkerState {
    /// Enter the engine loop: an idle worker starts running; starting
    /// changes nothing else.
    pub fn start(self) -> (r: Self)
        ensures
            r == (if self == WorkerState::Idle {
                WorkerState::Running
            } else {
                self
            }),
    {
        match self {
            WorkerState::Idle => WorkerState::Running,
            _ => self,
        }
    }

    /// Account one publish attempt.  A running worker keeps running
    /// while the consumer is still connected and stops — its sole
    /// termination condition — when the channel is found closed.
    /// A worker that is not running is unchanged: stopping is final.
    pub fn after_publish(self, receiver_connected: bool) -> (r: Self)
        ensures
            r == (if self == WorkerState::Running && !receiver_connected {
                WorkerState::Stopped
            } else {
                self
            }),
    {
        match self {
            WorkerState::Running => if receiver_connected {
                WorkerState::Running
            } else {
                WorkerState::Stopped
            },
            _ => self,
        }
    }

    /// Whether the worker should keep looping.
    pub fn is_running(&self) -> (r: bool)
        ensures
            r == (*self == WorkerState::Running),
    {
        match self {
            WorkerState::Running => true,
            _ => false,
        }
    }
}

/// The consumer's non-blocking poll: adopt the received snapshot if
/// one arrived, else keep rendering the one it already has.
pub fn latest_snapshot(current: Vec<Object>, received: Option<Vec<Object>>) -> (r: Vec<Object>)
    ensures
        match received {
            Some(snap) => r@ == snap@,
            None => r@ == current@,
        },
{
    match received {
        Some(snap) => snap,
        None => current,
    }
}

} // verus!
