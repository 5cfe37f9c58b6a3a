//! Drain policy of the metrics channel. The preferred termination is the
//! explicit close: both workers drop their sender halves and the aggregator
//! stops the moment the channel reports disconnection. The idle-timeout
//! heuristic backs it up: a bounded number of consecutive empty polls also
//! ends the drain, so a sender handle kept alive elsewhere cannot hang the
//! aggregator forever.

use vstd::prelude::*;
use crate::event::LatencyEvent;

verus! {

/// How many consecutive empty polls the aggregator tolerates before it
/// concludes the run is over.
pub const DRAIN_IDLE_LIMIT: u32 = 60;

/// What one poll of the metrics channel yielded.
#[derive(Clone, Copy, Debug)]
pub enum PollOutcome {
    /// An event arrived.
    Received(LatencyEvent),
    /// The poll timed out with the channel still open.
    TimedOut,
    /// Both sender halves are gone: the channel is closed.
    Disconnected,
}

/// Whether the aggregator keeps draining.
#[derive(Clone, Copy, Debug, PartialEq, Eq, Structural)]
pub enum DrainDecision {
    Continue,
    Stop,
}

/// The drain loop's state: how many empty polls arrived in a row.
#[derive(Clone, Copy, Debug, PartialEq, Eq, Structural)]
pub struct DrainState {
    pub idle_polls: u32,
}

impl DrainState {
    /// States reachable while draining.
    pub open spec fn inv(self) -> bool {
        self.idle_polls < DRAIN_IDLE_LIMIT
    }
}

/// The drain state before the first poll.
pub fn drain_init() -> (st: DrainState)
    ensures
        st.idle_polls == 0,
        st.inv(),
{
    DrainState { idle_polls: 0 }
}

/// The decision taken for one poll outcome.
pub open spec fn spec_drain_step(st: DrainState, outcome: PollOutcome) -> (
    DrainState,
    DrainDecision,
)
    recommends
        st.inv(),
{
    match outcome {
        PollOutcome::Received(_) => (DrainState { idle_polls: 0 }, DrainDecision::Continue),
        PollOutcome::TimedOut => {
            if st.idle_polls + 1 >= DRAIN_IDLE_LIMIT {
                (DrainState { idle_polls: 0 }, DrainDecision::Stop)
            } else {
                (DrainState { idle_polls: (st.idle_polls + 1) as u32 }, DrainDecision::Continue)
            }
        },
        PollOutcome::Disconnected => (st, DrainDecision::Stop),
    }
}

/// Advances the drain loop by one poll: a received event resets the idle
/// count, a timeout increments it and stops the drain at the limit, and a
/// disconnected channel stops it at once.
pub fn drain_step(st: &DrainState, outcome: PollOutcome) -> (r: (DrainState, DrainDecision))
    requires
        st.inv(),
    ensures
        r == spec_drain_step(*st, outcome),
        r.0.inv(),
        r.1 is Stop <==> (outcome is Disconnected || (outcome is TimedOut && st.idle_polls + 1
            >= DRAIN_IDLE_LIMIT)),
{
    match outcome {
        PollOutcome::Received(_) => (DrainState { idle_polls: 0 }, DrainDecision::Continue),
        PollOutcome::TimedOut => {
            if st.idle_polls + 1 >= DRAIN_IDLE_LIMIT {
                (DrainState { idle_polls: 0 }, DrainDecision::Stop)
            } else {
                (DrainState { idle_polls: st.idle_polls + 1 }, DrainDecision::Continue)
            }
        },
        PollOutcome::Disconnected => (*st, DrainDecision::Stop),
    }
}

} // verus!
