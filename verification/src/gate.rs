//! The start gate: a one-shot synchronization primitive. The producer
//! signals it exactly once, after warmup and before the first counted write;
//! the consumer polls it at a bounded interval until the signal is observed,
//! and aborts rather than hang forever if the signal never comes.
//!
//! The start-gate value itself is plain data; the surrounding program shares it
//! between the two workers and supplies the clock. The world model at the
//! bottom of this file states the guarantee that the sharing discipline
//! yields: under a monotone clock, no sample is recorded before the signal.

use vstd::prelude::*;

verus! {

/// The bounded interval between two consumer polls of the start gate, in
/// milliseconds.
pub const GATE_POLL_INTERVAL_MILLIS: u64 = 10;

/// The maximum total time the consumer waits for the signal before the
/// fatal abort, in microseconds (ten minutes).
pub const GATE_WAIT_MAX_MICROS: i64 = 600_000_000;

/// The one-shot gate: the timestamp (microseconds) at which the producer
/// signaled, or nothing while the signal has not been raised.
#[derive(Clone, Copy, Debug)]
pub struct StartGate {
    pub signaled_at: Option<i64>,
}

/// What the consumer does after one poll of the start gate.
#[derive(Clone, Copy, Debug, PartialEq, Eq, Structural)]
pub enum WaitDecision {
    /// The signal was observed: start reading.
    Proceed,
    /// Not signaled yet and the deadline has not passed: poll again after
    /// the bounded interval.
    KeepWaiting,
    /// Not signaled and the maximum wait has elapsed: abort the run rather
    /// than hang indefinitely.
    Abort,
}

impl StartGate {
    /// Creates the start gate in its unsignaled state.
    pub fn new() -> (g: StartGate)
        ensures
            g.signaled_at is None,
    {
        StartGate { signaled_at: None }
    }

    /// Raises the signal, recording the current time. May be called only
    /// once: the start gate must still be unsignaled.
    pub fn signal(&mut self, now: i64)
        requires
            old(self).signaled_at is None,
        ensures
            final(self).signaled_at == Some(now),
    {
        self.signaled_at = Some(now);
    }

    /// One consumer-side poll at time `now` with the fatal-abort deadline
    /// `deadline`: proceed exactly when signaled, abort exactly when
    /// unsignaled past the deadline, keep waiting otherwise.
    pub fn wait_decision(&self, now: i64, deadline: i64) -> (d: WaitDecision)
        ensures
            d is Proceed <==> self.signaled_at is Some,
            d is Abort <==> (self.signaled_at is None && now > deadline),
            d is KeepWaiting <==> (self.signaled_at is None && now <= deadline),
    {
        match self.signaled_at {
            Some(_) => WaitDecision::Proceed,
            None => if now > deadline {
                WaitDecision::Abort
            } else {
                WaitDecision::KeepWaiting
            },
        }
    }
}

/// The world shared by the producer, the consumer and the clock: the current
/// time, the start gate, the time at which the consumer observed the signal and
/// started running (if it has), and the times at which it recorded samples.
pub struct GateWorld {
    pub now: int,
    pub signaled_at: Option<int>,
    pub running_since: Option<int>,
    pub sample_times: Seq<int>,
}

/// One step of the world.
pub enum GateStep {
    /// The clock advances; time never runs backwards.
    Tick { delta: int },
    /// The producer raises the start gate, once.
    Signal,
    /// The consumer polls the start gate; it starts running exactly when the
    /// signal is visible.
    Poll,
    /// The running consumer records a sample at the current time.
    Record,
}

/// The world as it is before anything has happened at clock value `start`.
pub open spec fn gate_world_init(w: GateWorld, start: int) -> bool {
    &&& w.now == start
    &&& w.signaled_at is None
    &&& w.running_since is None
    &&& w.sample_times == Seq::<int>::empty()
}

/// The transition relation of the world.
pub open spec fn gate_world_step(pre: GateWorld, post: GateWorld, step: GateStep) -> bool {
    match step {
        GateStep::Tick { delta } => {
            &&& delta >= 0
            &&& post == GateWorld { now: pre.now + delta, ..pre }
        },
        GateStep::Signal => {
            &&& pre.signaled_at is None
            &&& post == GateWorld { signaled_at: Some(pre.now), ..pre }
        },
        GateStep::Poll => {
            &&& pre.running_since is None
            &&& if pre.signaled_at is Some {
                post == GateWorld { running_since: Some(pre.now), ..pre }
            } else {
                post == pre
            }
        },
        GateStep::Record => {
            &&& pre.running_since is Some
            &&& post == GateWorld { sample_times: pre.sample_times.push(pre.now), ..pre }
        },
    }
}

/// The inductive invariant: the signal time never lies in the future, the
/// consumer runs only from a time at or after the signal, and every recorded
/// sample time is at or after the consumer started running.
pub open spec fn gate_world_inv(w: GateWorld) -> bool {
    &&& (w.signaled_at matches Some(s) ==> s <= w.now)
    &&& (w.running_since matches Some(t) ==> {
        &&& t <= w.now
        &&& w.signaled_at matches Some(s) && s <= t
    })
    &&& (w.sample_times.len() > 0 ==> w.running_since is Some)
    &&& (forall|i: int|
        0 <= i < w.sample_times.len() ==> w.running_since->0 <= #[trigger] w.sample_times[i]
            <= w.now)
}

/// The invariant holds of a freshly initialized world.
pub proof fn lemma_gate_world_init(w: GateWorld, start: int)
    requires
        gate_world_init(w, start),
    ensures
        gate_world_inv(w),
{
}

/// The invariant is preserved by every step of the world.
pub proof fn lemma_gate_world_step(pre: GateWorld, post: GateWorld, step: GateStep)
    requires
        gate_world_inv(pre),
        gate_world_step(pre, post, step),
    ensures
        gate_world_inv(post),
{
}

/// The start-gate guarantee: in any reachable world, the consumer has
/// recorded no sample with a timestamp earlier than the producer's signal.
pub proof fn lemma_no_sample_before_signal(w: GateWorld)
    requires
        gate_world_inv(w),
    ensures
        w.sample_times.len() > 0 ==> w.signaled_at is Some,
        forall|i: int|
            0 <= i < w.sample_times.len() ==> w.signaled_at->0 <= #[trigger] w.sample_times[i],
{
}

} // verus!
