//! The rate-limited producer loop as a state machine: from the current state
//! to the next state and the action the surrounding program must perform
//! (issue a write, sleep one pacing window, raise the start gate, emit the
//! final duration sample).
//!
//! The driver owns the clock, the event writer and the metrics channel; it
//! repeatedly calls `producer_step` and performs the returned action until
//! the `Done` phase is reached. The timeline lemmas at the bottom prove the
//! orchestration contract: every warmup write comes before the start gate,
//! which is raised exactly once, every counted write comes after it, exactly
//! `count` counted writes are issued, and the loop terminates.

use vstd::prelude::*;

verus! {

/// The producer's slice of the benchmark configuration.
#[derive(Clone, Copy, Debug, PartialEq, Eq, Structural)]
pub struct ProducerConfig {
    /// Number of unmeasured warmup writes.
    pub warmup: u32,
    /// Number of counted writes.
    pub count: u32,
    /// Writes per pacing window; the pacing window is one second.
    pub rate: u32,
}

impl ProducerConfig {
    /// The pacing rate divides the loop counters, so it must be positive.
    pub open spec fn wf(self) -> bool {
        self.rate > 0
    }
}

#[derive(Clone, Copy, Debug, PartialEq, Eq, Structural)]
pub enum ProducerPhase {
    /// Issuing unmeasured warmup writes.
    Warmup,
    /// Issuing counted, measured writes.
    Measured,
    /// Counted writes done; the trailing pacing pause has been taken and
    /// only the duration sample remains.
    Closing,
    /// Everything emitted; the loop is over.
    Done,
}

#[derive(Clone, Copy, Debug, PartialEq, Eq, Structural)]
pub struct ProducerState {
    pub cfg: ProducerConfig,
    pub phase: ProducerPhase,
    /// Writes issued so far within the current phase.
    pub issued: u32,
}

/// What the driver must do next. Writes carry `pause_after`: when the
/// running count within the phase reaches a multiple of the rate, the driver
/// sleeps one pacing window after the write.
#[derive(Clone, Copy, Debug, PartialEq, Eq, Structural)]
pub enum ProducerAction {
    /// Issue one warmup write; its latency is not recorded.
    WriteWarmup { pause_after: bool },
    /// Raise the start gate, exactly once, between warmup and counted work.
    RaiseGate,
    /// Issue one counted write, measure its wall-clock latency and emit a
    /// write-latency sample (the failure sentinel when the write fails).
    WriteMeasured { pause_after: bool },
    /// One trailing pacing pause, taken only when `count` is not an exact
    /// multiple of `rate`, so the elapsed time reaches at least
    /// `ceil(count / rate)` pacing windows.
    FinalPause,
    /// Join outstanding writes and emit the duration sample: the counted
    /// phase's elapsed wall time, warmup excluded.
    EmitDuration,
}

impl ProducerState {
    /// States reachable from `producer_init`.
    pub open spec fn inv(self) -> bool {
        &&& self.cfg.wf()
        &&& match self.phase {
            ProducerPhase::Warmup => self.issued <= self.cfg.warmup,
            ProducerPhase::Measured => self.issued <= self.cfg.count,
            ProducerPhase::Closing => self.issued == self.cfg.count,
            ProducerPhase::Done => true,
        }
    }
}

/// The initial state: no write issued, warmup phase.
pub open spec fn spec_producer_init(cfg: ProducerConfig) -> ProducerState {
    ProducerState { cfg, phase: ProducerPhase::Warmup, issued: 0 }
}

/// The transition function. A finished producer demands nothing new:
/// stepping it leaves the state unchanged (the executable step is never
/// called in that phase).
pub open spec fn spec_producer_step(st: ProducerState) -> (ProducerState, ProducerAction)
    recommends
        st.inv(),
{
    match st.phase {
        ProducerPhase::Warmup => {
            if st.issued < st.cfg.warmup {
                (
                    ProducerState { issued: (st.issued + 1) as u32, ..st },
                    ProducerAction::WriteWarmup {
                        pause_after: (st.issued + 1) % (st.cfg.rate as int) == 0,
                    },
                )
            } else {
                (
                    ProducerState { phase: ProducerPhase::Measured, issued: 0, ..st },
                    ProducerAction::RaiseGate,
                )
            }
        },
        ProducerPhase::Measured => {
            if st.issued < st.cfg.count {
                (
                    ProducerState { issued: (st.issued + 1) as u32, ..st },
                    ProducerAction::WriteMeasured {
                        pause_after: (st.issued + 1) % (st.cfg.rate as int) == 0,
                    },
                )
            } else if st.cfg.count % st.cfg.rate != 0 {
                (
                    ProducerState { phase: ProducerPhase::Closing, ..st },
                    ProducerAction::FinalPause,
                )
            } else {
                (ProducerState { phase: ProducerPhase::Done, ..st }, ProducerAction::EmitDuration)
            }
        },
        ProducerPhase::Closing => {
            (ProducerState { phase: ProducerPhase::Done, ..st }, ProducerAction::EmitDuration)
        },
        ProducerPhase::Done => (st, ProducerAction::EmitDuration),
    }
}

/// Creates the producer in its initial state.
pub fn producer_init(cfg: ProducerConfig) -> (st: ProducerState)
    requires
        cfg.wf(),
    ensures
        st == spec_producer_init(cfg),
        st.inv(),
{
    ProducerState { cfg, phase: ProducerPhase::Warmup, issued: 0 }
}

/// Advances the producer by one step, returning the new state and the
/// action the driver must perform.
pub fn producer_step(st: &ProducerState) -> (r: (ProducerState, ProducerAction))
    requires
        st.inv(),
        !(st.phase is Done),
    ensures
        r == spec_producer_step(*st),
        r.0.inv(),
{
    match st.phase {
        ProducerPhase::Warmup => {
            if st.issued < st.cfg.warmup {
                let next = st.issued + 1;
                (
                    ProducerState { issued: next, ..*st },
                    ProducerAction::WriteWarmup { pause_after: next % st.cfg.rate == 0 },
                )
            } else {
                (
                    ProducerState { phase: ProducerPhase::Measured, issued: 0, ..*st },
                    ProducerAction::RaiseGate,
                )
            }
        },
        ProducerPhase::Measured => {
            if st.issued < st.cfg.count {
                let next = st.issued + 1;
                (
                    ProducerState { issued: next, ..*st },
                    ProducerAction::WriteMeasured { pause_after: next % st.cfg.rate == 0 },
                )
            } else if st.cfg.count % st.cfg.rate != 0 {
                (
                    ProducerState { phase: ProducerPhase::Closing, ..*st },
                    ProducerAction::FinalPause,
                )
            } else {
                (
                    ProducerState { phase: ProducerPhase::Done, ..*st },
                    ProducerAction::EmitDuration,
                )
            }
        },
        ProducerPhase::Closing => {
            (ProducerState { phase: ProducerPhase::Done, ..*st }, ProducerAction::EmitDuration)
        },
        ProducerPhase::Done => {
            // unreachable under the precondition
            (ProducerState { phase: ProducerPhase::Done, ..*st }, ProducerAction::EmitDuration)
        },
    }
}

/// The state after `n` steps from the initial state.
pub open spec fn producer_state_at(cfg: ProducerConfig, n: nat) -> ProducerState
    decreases n,
{
    if n == 0 {
        spec_producer_init(cfg)
    } else {
        spec_producer_step(producer_state_at(cfg, (n - 1) as nat)).0
    }
}

/// The action taken by step `n` (leading from state `n` to state `n + 1`).
pub open spec fn producer_action_at(cfg: ProducerConfig, n: nat) -> ProducerAction {
    spec_producer_step(producer_state_at(cfg, n)).1
}

/// The step index after which the producer is done: warmup writes, the
/// gate, the counted writes, the trailing pause when the count is not a
/// multiple of the rate, and the duration sample.
pub open spec fn producer_done_at(cfg: ProducerConfig) -> int {
    cfg.warmup + cfg.count + 2 + if cfg.count % cfg.rate != 0 {
        1int
    } else {
        0int
    }
}

/// The producer's exact timeline, by step index.
pub proof fn lemma_producer_timeline(cfg: ProducerConfig, n: nat)
    requires
        cfg.wf(),
    ensures
        n <= cfg.warmup ==> producer_state_at(cfg, n) == (ProducerState {
            cfg,
            phase: ProducerPhase::Warmup,
            issued: n as u32,
        }),
        cfg.warmup < n <= cfg.warmup + cfg.count + 1 ==> producer_state_at(cfg, n)
            == (ProducerState {
            cfg,
            phase: ProducerPhase::Measured,
            issued: (n - cfg.warmup - 1) as u32,
        }),
        cfg.warmup + cfg.count + 1 < n < producer_done_at(cfg) ==> producer_state_at(cfg, n)
            == (ProducerState { cfg, phase: ProducerPhase::Closing, issued: cfg.count }),
        n >= producer_done_at(cfg) ==> producer_state_at(cfg, n).phase is Done,
        producer_state_at(cfg, n).inv(),
        producer_state_at(cfg, n).cfg == cfg,
    decreases n,
{
    if n > 0 {
        lemma_producer_timeline(cfg, (n - 1) as nat);
    }
}

/// Ordering of the orchestration: warmup writes strictly precede the start gate,
/// the start gate is raised at exactly one step, and counted writes strictly
/// follow it.
pub proof fn lemma_gate_between_warmup_and_measured(cfg: ProducerConfig, n: nat)
    requires
        cfg.wf(),
    ensures
        producer_action_at(cfg, n) is RaiseGate <==> n == cfg.warmup,
        producer_action_at(cfg, n) is WriteWarmup <==> n < cfg.warmup,
        producer_action_at(cfg, n) is WriteMeasured <==> cfg.warmup < n <= cfg.warmup + cfg.count,
{
    lemma_producer_timeline(cfg, n);
}

/// Exactly `count` counted writes are issued, and the loop terminates: from
/// step `producer_done_at(cfg)` on, the producer is done and the counted
/// writes issued are exactly `cfg.count`.
pub proof fn lemma_producer_completes(cfg: ProducerConfig, n: nat)
    requires
        cfg.wf(),
        n >= producer_done_at(cfg),
    ensures
        producer_state_at(cfg, n).phase is Done,
        measured_writes_upto(cfg, n) == cfg.count,
{
    lemma_producer_timeline(cfg, n);
    lemma_measured_write_count(cfg, n);
}

/// How many counted writes the first `n` steps issue.
pub open spec fn measured_writes_upto(cfg: ProducerConfig, n: nat) -> int
    decreases n,
{
    if n == 0 {
        0
    } else {
        measured_writes_upto(cfg, (n - 1) as nat) + if producer_action_at(
            cfg,
            (n - 1) as nat,
        ) is WriteMeasured {
            1int
        } else {
            0int
        }
    }
}

/// How many pacing pauses the first `n` steps take within the counted
/// phase: the pauses after counted writes, plus the trailing pause.
pub open spec fn measured_pauses_upto(cfg: ProducerConfig, n: nat) -> int
    decreases n,
{
    if n == 0 {
        0
    } else {
        measured_pauses_upto(cfg, (n - 1) as nat) + match producer_action_at(cfg, (n - 1) as nat) {
            ProducerAction::WriteMeasured { pause_after } => if pause_after {
                1int
            } else {
                0int
            },
            ProducerAction::FinalPause => 1int,
            _ => 0int,
        }
    }
}

/// One counted write moves the number of pacing windows so far from
/// `(i - 1) / rate` to `i / rate`: it pauses exactly when `i` is a multiple
/// of the rate.
proof fn lemma_pause_step(i: int, rate: int)
    requires
        1 <= i,
        1 <= rate,
    ensures
        i % rate == 0 ==> i / rate == (i - 1) / rate + 1,
        i % rate != 0 ==> i / rate == (i - 1) / rate,
{
    vstd::arithmetic::div_mod::lemma_fundamental_div_mod(i, rate);
    let q = i / rate;
    let r = i % rate;
    vstd::arithmetic::div_mod::lemma_mod_bound(i, rate);
    vstd::arithmetic::div_mod::lemma_div_pos_is_pos(i, rate);
    if r == 0 {
        assert(q >= 1) by {
            if q == 0 {
                assert(i == rate * 0 + 0);
            }
        }
        assert(i - 1 == rate * (q - 1) + (rate - 1)) by {
            vstd::arithmetic::mul::lemma_mul_is_distributive_sub(rate, q, 1);
        }
        vstd::arithmetic::div_mod::lemma_div_multiples_vanish_fancy(q - 1, rate - 1, rate);
    } else {
        assert(i - 1 == rate * q + (r - 1));
        vstd::arithmetic::div_mod::lemma_div_multiples_vanish_fancy(q, r - 1, rate);
    }
}

/// The pacing law: once the producer is done, the counted phase has taken
/// exactly `ceil(count / rate)` pacing windows, so its elapsed wall time is
/// at least that many seconds.
pub proof fn lemma_pacing_reaches_ceiling(cfg: ProducerConfig, n: nat)
    requires
        cfg.wf(),
        n >= producer_done_at(cfg),
    ensures
        measured_pauses_upto(cfg, n) == cfg.count as int / cfg.rate as int + if cfg.count % cfg.rate != 0 {
            1int
        } else {
            0int
        },
{
    lemma_pause_count(cfg, n);
}

proof fn lemma_pause_count(cfg: ProducerConfig, n: nat)
    requires
        cfg.wf(),
    ensures
        n <= cfg.warmup + 1 ==> measured_pauses_upto(cfg, n) == 0,
        cfg.warmup + 1 < n <= cfg.warmup + 1 + cfg.count ==> measured_pauses_upto(cfg, n) == (n
            - cfg.warmup - 1) / cfg.rate as int,
        n > cfg.warmup + 1 + cfg.count ==> measured_pauses_upto(cfg, n) == cfg.count as int
            / cfg.rate as int + if cfg.count % cfg.rate != 0 {
            1int
        } else {
            0int
        },
    decreases n,
{
    if n > 0 {
        let m = (n - 1) as nat;
        lemma_pause_count(cfg, m);
        lemma_producer_timeline(cfg, m);
        lemma_gate_between_warmup_and_measured(cfg, m);
        if cfg.warmup + 1 <= m <= cfg.warmup + cfg.count {
            // step m is the counted write number m - warmup
            let i = m - cfg.warmup;
            lemma_pause_step(i as int, cfg.rate as int);
        }
        if m == cfg.warmup + 1 + cfg.count {
            // step m is the trailing pause or the duration sample
            if cfg.count % cfg.rate != 0 {
                assert(producer_action_at(cfg, m) is FinalPause);
            } else {
                assert(producer_action_at(cfg, m) is EmitDuration);
            }
        }
    }
}

proof fn lemma_measured_write_count(cfg: ProducerConfig, n: nat)
    requires
        cfg.wf(),
    ensures
        n <= cfg.warmup + 1 ==> measured_writes_upto(cfg, n) == 0,
        cfg.warmup + 1 < n <= cfg.warmup + 1 + cfg.count ==> measured_writes_upto(cfg, n) == n
            - cfg.warmup - 1,
        n > cfg.warmup + 1 + cfg.count ==> measured_writes_upto(cfg, n) == cfg.count,
    decreases n,
{
    if n > 0 {
        lemma_measured_write_count(cfg, (n - 1) as nat);
        lemma_gate_between_warmup_and_measured(cfg, (n - 1) as nat);
    }
}

} // verus!
