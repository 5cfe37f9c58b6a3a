//! The consumer loop as a state machine: after the start gate opens, the
//! driver pulls events from the reader's current segment and hands each
//! outcome to `consumer_step`, which decides whether the sample is still
//! warmup, a measured read, or a data-integrity error, and when the loop
//! must move to the next segment or terminate.
//!
//! Warmup accounting uses an explicit counter with an exclusive threshold:
//! every event read advances the counter (integrity errors included, since
//! they consumed an event), and a sample is forwarded only once the counter
//! has moved strictly past the warmup count.

use vstd::prelude::*;

verus! {

/// The consumer's slice of the benchmark configuration.
#[derive(Clone, Copy, Debug, PartialEq, Eq, Structural)]
pub struct ConsumerConfig {
    /// Number of leading events to discard as warmup.
    pub warmup: u32,
    /// Expected payload length of every event, in bytes.
    pub expected_size: usize,
}

#[derive(Clone, Copy, Debug, PartialEq, Eq, Structural)]
pub struct ConsumerState {
    pub cfg: ConsumerConfig,
    /// Events read so far, warmup and malformed events included.
    pub seen: u64,
    /// Set once the stream reported no further segments.
    pub finished: bool,
}

/// What the driver observed from the reader.
#[derive(Clone, Copy, Debug, PartialEq, Eq, Structural)]
pub enum ReadEvent {
    /// One event was read: its payload length and the measured read latency
    /// in microseconds.
    Data { len: usize, latency: i64 },
    /// The current segment has no more events.
    SliceExhausted,
    /// No further segment is available: the stream is over for this run.
    StreamEnd,
}

/// What the driver must do with the observation.
#[derive(Clone, Copy, Debug, PartialEq, Eq, Structural)]
pub enum ConsumerAction {
    /// A warmup-phase sample: drop it.
    Discard,
    /// A measured sample: emit a read-latency event carrying it.
    Forward { sample: i64 },
    /// The payload length does not match the configuration: report the
    /// integrity error, skip the sample, and keep reading.
    ReportMismatch { got: usize },
    /// Release the exhausted segment and acquire the next one.
    AcquireNext,
    /// Release the segment, mark the reader offline and stop: the clean
    /// terminal state.
    Finish,
}

/// The initial state: nothing read, not finished.
pub open spec fn spec_consumer_init(cfg: ConsumerConfig) -> ConsumerState {
    ConsumerState { cfg, seen: 0, finished: false }
}

/// The transition function.
pub open spec fn spec_consumer_step(st: ConsumerState, ev: ReadEvent) -> (
    ConsumerState,
    ConsumerAction,
)
    recommends
        !st.finished,
        st.seen < u64::MAX,
{
    match ev {
        ReadEvent::Data { len, latency } => {
            let advanced = ConsumerState { seen: (st.seen + 1) as u64, ..st };
            if len != st.cfg.expected_size {
                (advanced, ConsumerAction::ReportMismatch { got: len })
            } else if st.seen + 1 <= st.cfg.warmup {
                (advanced, ConsumerAction::Discard)
            } else {
                (advanced, ConsumerAction::Forward { sample: latency })
            }
        },
        ReadEvent::SliceExhausted => (st, ConsumerAction::AcquireNext),
        ReadEvent::StreamEnd => (ConsumerState { finished: true, ..st }, ConsumerAction::Finish),
    }
}

/// Creates the consumer in its initial state.
pub fn consumer_init(cfg: ConsumerConfig) -> (st: ConsumerState)
    ensures
        st == spec_consumer_init(cfg),
{
    ConsumerState { cfg, seen: 0, finished: false }
}

/// Advances the consumer by one observation.
pub fn consumer_step(st: &ConsumerState, ev: ReadEvent) -> (r: (ConsumerState, ConsumerAction))
    requires
        !st.finished,
        st.seen < u64::MAX,
    ensures
        r == spec_consumer_step(*st, ev),
{
    match ev {
        ReadEvent::Data { len, latency } => {
            let advanced = ConsumerState { seen: st.seen + 1, ..*st };
            if len != st.cfg.expected_size {
                (advanced, ConsumerAction::ReportMismatch { got: len })
            } else if st.seen + 1 <= st.cfg.warmup as u64 {
                (advanced, ConsumerAction::Discard)
            } else {
                (advanced, ConsumerAction::Forward { sample: latency })
            }
        },
        ReadEvent::SliceExhausted => (*st, ConsumerAction::AcquireNext),
        ReadEvent::StreamEnd => (
            ConsumerState { finished: true, ..*st },
            ConsumerAction::Finish,
        ),
    }
}

/// The state after the consumer has processed a sequence of observations.
pub open spec fn consumer_run(st: ConsumerState, evs: Seq<ReadEvent>) -> ConsumerState
    decreases evs.len(),
{
    if evs.len() == 0 {
        st
    } else {
        spec_consumer_step(consumer_run(st, evs.drop_last()), evs.last()).0
    }
}

/// How many samples a sequence of observations makes the consumer forward.
pub open spec fn forwards_in_run(st: ConsumerState, evs: Seq<ReadEvent>) -> int
    decreases evs.len(),
{
    if evs.len() == 0 {
        0
    } else {
        forwards_in_run(st, evs.drop_last()) + if spec_consumer_step(
            consumer_run(st, evs.drop_last()),
            evs.last(),
        ).1 is Forward {
            1int
        } else {
            0int
        }
    }
}

/// How many observations of a sequence carry data.
pub open spec fn data_events_in(evs: Seq<ReadEvent>) -> int
    decreases evs.len(),
{
    if evs.len() == 0 {
        0
    } else {
        data_events_in(evs.drop_last()) + if evs.last() is Data {
            1int
        } else {
            0int
        }
    }
}

/// Every observation of the sequence that carries data has the expected
/// payload length.
pub open spec fn all_well_sized(evs: Seq<ReadEvent>, expected: usize) -> bool {
    forall|i: int|
        0 <= i < evs.len() ==> (#[trigger] evs[i] matches ReadEvent::Data { len, .. } ==> len
            == expected)
}

/// Warmup suppression: over any run of well-sized data events from the
/// initial state, the first `warmup` events are discarded and every later
/// one is forwarded, so exactly `max(0, data - warmup)` samples reach the
/// metrics channel.
pub proof fn lemma_warmup_suppression(cfg: ConsumerConfig, evs: Seq<ReadEvent>)
    requires
        all_well_sized(evs, cfg.expected_size),
        evs.len() <= u64::MAX,
    ensures
        consumer_run(spec_consumer_init(cfg), evs).cfg == cfg,
        consumer_run(spec_consumer_init(cfg), evs).seen == data_events_in(evs),
        forwards_in_run(spec_consumer_init(cfg), evs) == if data_events_in(evs) <= cfg.warmup {
            0int
        } else {
            data_events_in(evs) - cfg.warmup
        },
    decreases evs.len(),
{
    let init = spec_consumer_init(cfg);
    if evs.len() > 0 {
        let rest = evs.drop_last();
        assert(all_well_sized(rest, cfg.expected_size)) by {
            assert(forall|i: int| 0 <= i < rest.len() ==> rest[i] == #[trigger] evs[i]);
        }
        lemma_warmup_suppression(cfg, rest);
        lemma_data_events_nonneg(rest);
        let prev = consumer_run(init, rest);
        assert(consumer_run(init, evs) == spec_consumer_step(prev, evs.last()).0);
        assert(forwards_in_run(init, evs) == forwards_in_run(init, rest) + if spec_consumer_step(
            prev,
            evs.last(),
        ).1 is Forward {
            1int
        } else {
            0int
        });
        assert(data_events_in(evs) == data_events_in(rest) + if evs.last() is Data {
            1int
        } else {
            0int
        });
        match evs.last() {
            ReadEvent::Data { len, latency } => {
                assert(evs[evs.len() - 1] == evs.last());
                assert(len == cfg.expected_size);
                assert(prev.seen + 1 <= u64::MAX);
            },
            _ => {},
        }
    }
}

proof fn lemma_data_events_nonneg(evs: Seq<ReadEvent>)
    ensures
        0 <= data_events_in(evs) <= evs.len(),
    decreases evs.len(),
{
    if evs.len() > 0 {
        lemma_data_events_nonneg(evs.drop_last());
    }
}

} // verus!
