//! Tests of the orchestration: the producer and consumer state machines,
//! the start gate, the drain policy, and the end-to-end scenarios against
//! mock writers and readers.

use pravega_bench::channel::drain_init;
use pravega_bench::channel::drain_step;
use pravega_bench::channel::DrainDecision;
use pravega_bench::channel::PollOutcome;
use pravega_bench::config::Config;
use pravega_bench::consumer::consumer_init;
use pravega_bench::consumer::consumer_step;
use pravega_bench::consumer::ConsumerAction;
use pravega_bench::consumer::ConsumerConfig;
use pravega_bench::consumer::ReadEvent;
use pravega_bench::event::elapsed_micros;
use pravega_bench::event::write_sample;
use pravega_bench::event::LatencyEvent;
use pravega_bench::gate::StartGate;
use pravega_bench::gate::WaitDecision;
use pravega_bench::producer::producer_init;
use pravega_bench::producer::producer_step;
use pravega_bench::producer::ProducerAction;
use pravega_bench::producer::ProducerConfig;
use pravega_bench::result::TestResult;
use pravega_bench::stats::percentile;
use pravega_bench::stats::StatsError;

#[test]
fn elapsed_micros_handles_forward_and_backward_clocks() {
    assert_eq!(elapsed_micros(5, 15), 10);
    assert_eq!(elapsed_micros(5, 5), 0);
    // a backwards clock step yields the failure sentinel, not a bogus value
    assert_eq!(elapsed_micros(15, 5), -1);
}

#[test]
fn write_sample_is_sentinel_on_failed_acknowledgment() {
    assert_eq!(write_sample(100, 250, true), 150);
    assert_eq!(write_sample(100, 250, false), -1);
}

#[test]
fn producer_emits_warmup_gate_writes_pause_duration_in_order() {
    let cfg = ProducerConfig { warmup: 2, count: 3, rate: 2 };
    let mut st = producer_init(cfg);
    let mut actions: Vec<ProducerAction> = Vec::new();
    for _ in 0..100 {
        let (next, action) = producer_step(&st);
        st = next;
        actions.push(action);
        if matches!(action, ProducerAction::EmitDuration) {
            break;
        }
    }
    assert_eq!(
        actions,
        vec![
            ProducerAction::WriteWarmup { pause_after: false },
            ProducerAction::WriteWarmup { pause_after: true },
            ProducerAction::RaiseGate,
            ProducerAction::WriteMeasured { pause_after: false },
            ProducerAction::WriteMeasured { pause_after: true },
            ProducerAction::WriteMeasured { pause_after: false },
            ProducerAction::FinalPause,
            ProducerAction::EmitDuration,
        ]
    );
}

#[test]
fn producer_skips_final_pause_when_count_divides_evenly() {
    let cfg = ProducerConfig { warmup: 0, count: 2, rate: 2 };
    let mut st = producer_init(cfg);
    let mut actions: Vec<ProducerAction> = Vec::new();
    for _ in 0..100 {
        let (next, action) = producer_step(&st);
        st = next;
        actions.push(action);
        if matches!(action, ProducerAction::EmitDuration) {
            break;
        }
    }
    assert_eq!(
        actions,
        vec![
            ProducerAction::RaiseGate,
            ProducerAction::WriteMeasured { pause_after: false },
            ProducerAction::WriteMeasured { pause_after: true },
            ProducerAction::EmitDuration,
        ]
    );
}

#[test]
fn gate_wait_proceeds_only_after_signal_and_aborts_past_deadline() {
    let mut gate = StartGate::new();
    let deadline: i64 = 10_000;
    assert_eq!(gate.wait_decision(0, deadline), WaitDecision::KeepWaiting);
    assert_eq!(gate.wait_decision(10_000, deadline), WaitDecision::KeepWaiting);
    assert_eq!(gate.wait_decision(10_001, deadline), WaitDecision::Abort);
    gate.signal(500);
    assert_eq!(gate.wait_decision(600, deadline), WaitDecision::Proceed);
    assert_eq!(gate.wait_decision(20_000, deadline), WaitDecision::Proceed);
}

#[test]
fn consumer_observes_no_sample_before_the_signal_under_a_mock_clock() {
    // a single mock clock drives both sides; sample timestamps recorded by
    // the consumer must all be at or after the signal time
    let mut gate = StartGate::new();
    let mut now: i64 = 0;
    let deadline: i64 = 1_000_000;
    let mut observed: Vec<i64> = Vec::new();
    let mut signal_time: i64 = -1;
    for _ in 0..200 {
        match gate.wait_decision(now, deadline) {
            WaitDecision::Proceed => {
                observed.push(now);
                now += 10;
                if observed.len() == 20 {
                    break;
                }
            }
            WaitDecision::KeepWaiting => {
                now += 10;
                if now >= 70 && signal_time < 0 {
                    signal_time = now;
                    gate.signal(now);
                }
            }
            WaitDecision::Abort => panic!("gate abort under an active producer"),
        }
    }
    assert_eq!(observed.len(), 20);
    assert!(signal_time >= 0);
    for &t in &observed {
        assert!(t >= signal_time);
    }
}

#[test]
fn consumer_discards_warmup_then_forwards() {
    let cfg = ConsumerConfig { warmup: 3, expected_size: 64 };
    let mut st = consumer_init(cfg);
    let mut forwarded: Vec<i64> = Vec::new();
    for i in 0..8 {
        let (next, action) = consumer_step(&st, ReadEvent::Data { len: 64, latency: 100 + i });
        st = next;
        match action {
            ConsumerAction::Discard => assert!(i < 3),
            ConsumerAction::Forward { sample } => forwarded.push(sample),
            _ => panic!("unexpected action"),
        }
    }
    assert_eq!(forwarded, vec![103, 104, 105, 106, 107]);
}

#[test]
fn one_malformed_read_is_skipped_without_stopping_the_loop() {
    let cfg = ConsumerConfig { warmup: 0, expected_size: 512 };
    let mut st = consumer_init(cfg);
    let mut forwarded = 0;
    let mut mismatches = 0;
    for i in 0..10 {
        let len = if i == 4 { 100 } else { 512 };
        let (next, action) = consumer_step(&st, ReadEvent::Data { len, latency: 700 + i });
        st = next;
        match action {
            ConsumerAction::Forward { .. } => forwarded += 1,
            ConsumerAction::ReportMismatch { got } => {
                mismatches += 1;
                assert_eq!(got, 100);
            }
            _ => panic!("unexpected action"),
        }
    }
    // the read sample count is reduced by exactly one, the loop went on
    assert_eq!(forwarded, 9);
    assert_eq!(mismatches, 1);
    let (next, action) = consumer_step(&st, ReadEvent::SliceExhausted);
    assert!(matches!(action, ConsumerAction::AcquireNext));
    let (_next, action) = consumer_step(&next, ReadEvent::StreamEnd);
    assert!(matches!(action, ConsumerAction::Finish));
}

#[test]
fn drain_stops_after_sixty_consecutive_empty_polls() {
    let mut st = drain_init();
    for _ in 0..59 {
        let (next, decision) = drain_step(&st, PollOutcome::TimedOut);
        st = next;
        assert_eq!(decision, DrainDecision::Continue);
    }
    let (_next, decision) = drain_step(&st, PollOutcome::TimedOut);
    assert_eq!(decision, DrainDecision::Stop);
}

#[test]
fn drain_resets_idle_count_on_received_event_and_stops_on_close() {
    let mut st = drain_init();
    for _ in 0..59 {
        let (next, decision) = drain_step(&st, PollOutcome::TimedOut);
        st = next;
        assert_eq!(decision, DrainDecision::Continue);
    }
    let (next, decision) = drain_step(
        &st,
        PollOutcome::Received(LatencyEvent::WriteLatency(5)),
    );
    st = next;
    assert_eq!(decision, DrainDecision::Continue);
    for _ in 0..59 {
        let (next2, decision2) = drain_step(&st, PollOutcome::TimedOut);
        st = next2;
        assert_eq!(decision2, DrainDecision::Continue);
    }
    // the explicit close is honored at once
    let (_next, decision) = drain_step(&st, PollOutcome::Disconnected);
    assert_eq!(decision, DrainDecision::Stop);
}

#[test]
fn end_to_end_successful_run_reports_all_writes() {
    let mut conf = Config::new();
    conf.name = String::from("scenario-success");
    conf.message_num = 100;
    conf.producer_rate = 10;
    conf.message = vec![0u8; 1024];
    conf.message_size = 1024;
    conf.scope = String::from("scope1");
    conf.stream = String::from("stream1");
    let mut result = TestResult::new(conf);

    // the producer drives a mock writer: every write succeeds after one
    // microsecond; pacing pauses advance the mock clock one second
    let pcfg = ProducerConfig { warmup: 5, count: 100, rate: 10 };
    let mut st = producer_init(pcfg);
    let mut gate = StartGate::new();
    let mut now: u64 = 1_000;
    let mut bench_start: u64 = 0;
    loop {
        let (next, action) = producer_step(&st);
        st = next;
        match action {
            ProducerAction::WriteWarmup { pause_after } => {
                now += 1;
                if pause_after {
                    now += 1_000_000;
                }
            }
            ProducerAction::RaiseGate => {
                gate.signal(now as i64);
                bench_start = now;
            }
            ProducerAction::WriteMeasured { pause_after } => {
                let start = now;
                now += 1;
                let sample = write_sample(start, now, true);
                result.record(LatencyEvent::WriteLatency(sample));
                if pause_after {
                    now += 1_000_000;
                }
            }
            ProducerAction::FinalPause => {
                now += 1_000_000;
            }
            ProducerAction::EmitDuration => {
                result.record(LatencyEvent::WriteDuration(elapsed_micros(bench_start, now)));
                break;
            }
        }
    }

    // the consumer reads the 105 events back, one microsecond each
    assert_eq!(
        gate.wait_decision(now as i64, now as i64 + 1_000_000),
        WaitDecision::Proceed
    );
    let ccfg = ConsumerConfig { warmup: 5, expected_size: 1024 };
    let mut cst = consumer_init(ccfg);
    for _ in 0..105 {
        let (next, action) = consumer_step(&cst, ReadEvent::Data { len: 1024, latency: 1 });
        cst = next;
        match action {
            ConsumerAction::Forward { sample } => {
                result.record(LatencyEvent::ReadLatency(sample))
            }
            ConsumerAction::Discard => {}
            _ => panic!("unexpected action"),
        }
    }
    let (cst, action) = consumer_step(&cst, ReadEvent::SliceExhausted);
    assert!(matches!(action, ConsumerAction::AcquireNext));
    let (_cst, action) = consumer_step(&cst, ReadEvent::StreamEnd);
    assert!(matches!(action, ConsumerAction::Finish));

    assert_eq!(result.calculate_metrics(), Ok(()));
    assert_eq!(result.message_num, 100);
    assert_eq!(result.sent_data, 102_400);
    // 100 one-microsecond writes plus ten one-second pacing pauses
    assert_eq!(result.duration_micros, 10_000_100);
    // 102400 bytes over 10.0001 s: 0.010 MB/s
    assert_eq!(result.throughput, 10);
    assert_eq!(result.write_latency_50pct, 1);
    assert_eq!(result.write_latency_99pct, 1);
    assert_eq!(result.write_latency_avg, 1);
    assert_eq!(result.write_latency_max, 1);
    // no histogram key outside the zero-millisecond bucket
    assert_eq!(result.write_latency_hist.total(), 100);
    assert_eq!(result.write_latency_hist.count(0), 100);
    assert_eq!(result.write_latency_hist.buckets.len(), 1);
    assert_eq!(result.read_latency_hist.total(), 100);
    assert_eq!(result.read_latency_hist.count(0), 100);
}

#[test]
fn end_to_end_failed_writes_are_excluded_and_count_corrected() {
    let mut conf = Config::new();
    conf.name = String::from("scenario-failures");
    conf.message_num = 100;
    conf.message = vec![7u8; 1024];
    conf.message_size = 1024;
    let mut result = TestResult::new(conf);

    // 10 write failures (the sentinel) among 100 attempts
    let mut valid: Vec<i64> = Vec::new();
    for i in 1..=100i64 {
        let sample = if i % 10 == 0 { -1 } else { 1000 * i };
        if sample > 0 {
            valid.push(sample);
        }
        result.record(LatencyEvent::WriteLatency(sample));
    }
    result.record(LatencyEvent::WriteDuration(5_000_000));

    assert_eq!(result.calculate_metrics(), Ok(()));
    assert_eq!(result.message_num, 90);
    assert_eq!(result.write_latencies.len(), 90);
    assert_eq!(result.sent_data, 90 * 1024);
    // percentiles are computed over the 90 valid samples alone
    assert_eq!(Ok(result.write_latency_50pct), percentile(&valid, 50));
    assert_eq!(Ok(result.write_latency_75pct), percentile(&valid, 75));
    assert_eq!(Ok(result.write_latency_95pct), percentile(&valid, 95));
    assert_eq!(Ok(result.write_latency_99pct), percentile(&valid, 99));
    assert_eq!(result.write_latency_50pct, 50_000);
    assert_eq!(result.write_latency_max, 99_000);
    assert_eq!(result.write_latency_hist.total(), 90);
}

#[test]
fn aggregation_without_valid_samples_is_a_structured_error() {
    let mut conf = Config::new();
    conf.message_num = 3;
    let mut result = TestResult::new(conf);
    result.record(LatencyEvent::WriteLatency(-1));
    result.record(LatencyEvent::WriteLatency(0));
    result.record(LatencyEvent::WriteDuration(1_000_000));
    assert_eq!(result.calculate_metrics(), Err(StatsError::NoValidSamples));
    // the record is untouched
    assert_eq!(result.message_num, 3);
    assert_eq!(result.write_latency_50pct, 0);
    assert_eq!(result.write_latencies.len(), 2);
}

#[test]
fn aggregation_without_a_positive_duration_is_a_structured_error() {
    let conf = Config::new();
    let mut result = TestResult::new(conf);
    result.record(LatencyEvent::WriteLatency(1500));
    assert_eq!(result.calculate_metrics(), Err(StatsError::InvalidDuration));
    assert_eq!(result.throughput, 0);
}
