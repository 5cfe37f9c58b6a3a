//! The result record: configuration echo, raw sample accumulation from the
//! metrics channel, and the aggregation step that turns raw samples into
//! percentiles, mean, max, histograms and throughput.
//!
//! The reported `message_num` is corrected downstream: it is the count of
//! successful writes (strictly-positive samples), not the configured count.
//! An aggregation over an empty or degenerate sample set is a structured
//! error that leaves the record untouched, never a silent zero.

use vstd::prelude::*;
use crate::config::Config;
use crate::event::LatencyEvent;
use crate::hist::Histogram;
use crate::hist::bucket_count_in;
use crate::stats::StatsError;
use crate::stats::filter_valid;
use crate::stats::filter_nonneg;
use crate::stats::lemma_filtered_elements;
use crate::stats::lemma_sort_of_sorted;
use crate::stats::lemma_sorted_micros_elements;
use crate::stats::max_micros;
use crate::stats::max_of;
use crate::stats::mean_micros;
use crate::stats::mean_of;
use crate::stats::nonneg_only;
use crate::stats::percentile_of;
use crate::stats::percentile_sorted;
use crate::stats::sort_micros;
use crate::stats::sorted_micros;
use crate::stats::throughput_milli_mb_per_s;
use crate::stats::throughput_of;
use crate::stats::valid_only;

verus! {

/// The aggregated outcome of one benchmark run. Latency metrics are integer
/// microseconds; `throughput` is thousandths of a megabyte per second;
/// `sent_data` is bytes.
#[derive(Debug)]
pub struct TestResult {
    pub name: String,
    /// Count of successful counted writes (corrected by the aggregation).
    pub message_num: u32,
    pub message_size: usize,
    pub scope: String,
    pub stream: String,
    /// Wall-clock duration of the counted phase, microseconds.
    pub duration_micros: i64,
    pub write_latency_50pct: i64,
    pub write_latency_75pct: i64,
    pub write_latency_95pct: i64,
    pub write_latency_99pct: i64,
    pub write_latency_avg: i64,
    pub write_latency_max: i64,
    pub write_latency_hist: Histogram,
    pub read_latency_hist: Histogram,
    /// Thousandths of a megabyte per second.
    pub throughput: u64,
    /// Bytes sent by the successful counted writes.
    pub sent_data: u64,
    pub write_latencies: Vec<i64>,
    pub read_latencies: Vec<i64>,
}

/// The configuration echo and duration of two records agree.
pub open spec fn same_identity(a: TestResult, b: TestResult) -> bool {
    &&& a.name@ == b.name@
    &&& a.message_size == b.message_size
    &&& a.scope@ == b.scope@
    &&& a.stream@ == b.stream@
}

/// The computed metrics of two records agree.
pub open spec fn same_metrics(a: TestResult, b: TestResult) -> bool {
    &&& a.message_num == b.message_num
    &&& a.write_latency_50pct == b.write_latency_50pct
    &&& a.write_latency_75pct == b.write_latency_75pct
    &&& a.write_latency_95pct == b.write_latency_95pct
    &&& a.write_latency_99pct == b.write_latency_99pct
    &&& a.write_latency_avg == b.write_latency_avg
    &&& a.write_latency_max == b.write_latency_max
    &&& a.write_latency_hist.buckets@ == b.write_latency_hist.buckets@
    &&& a.read_latency_hist.buckets@ == b.read_latency_hist.buckets@
    &&& a.throughput == b.throughput
    &&& a.sent_data == b.sent_data
}

impl TestResult {
    /// A fresh record echoing the configuration, with no samples and every
    /// metric still zero.
    pub fn new(conf: Config) -> (r: TestResult)
        ensures
            r.name == conf.name,
            r.message_num == conf.message_num,
            r.message_size == conf.message_size,
            r.scope == conf.scope,
            r.stream == conf.stream,
            r.duration_micros == 0,
            r.write_latency_50pct == 0,
            r.write_latency_75pct == 0,
            r.write_latency_95pct == 0,
            r.write_latency_99pct == 0,
            r.write_latency_avg == 0,
            r.write_latency_max == 0,
            r.write_latency_hist.wf(),
            r.write_latency_hist.spec_total() == 0,
            r.read_latency_hist.wf(),
            r.read_latency_hist.spec_total() == 0,
            r.throughput == 0,
            r.sent_data == 0,
            r.write_latencies@ == Seq::<i64>::empty(),
            r.read_latencies@ == Seq::<i64>::empty(),
    {
        TestResult {
            name: conf.name,
            message_num: conf.message_num,
            message_size: conf.message_size,
            scope: conf.scope,
            stream: conf.stream,
            duration_micros: 0,
            write_latency_50pct: 0,
            write_latency_75pct: 0,
            write_latency_95pct: 0,
            write_latency_99pct: 0,
            write_latency_avg: 0,
            write_latency_max: 0,
            write_latency_hist: Histogram::new(),
            read_latency_hist: Histogram::new(),
            throughput: 0,
            sent_data: 0,
            write_latencies: Vec::new(),
            read_latencies: Vec::new(),
        }
    }

    /// Appends one write-latency sample.
    pub fn add_write_latency(&mut self, v: i64)
        ensures
            same_identity(*final(self), *old(self)),
            same_metrics(*final(self), *old(self)),
            final(self).duration_micros == old(self).duration_micros,
            final(self).write_latencies@ == old(self).write_latencies@.push(v),
            final(self).read_latencies@ == old(self).read_latencies@,
    {
        self.write_latencies.push(v);
    }

    /// Appends one read-latency sample.
    pub fn add_read_latency(&mut self, v: i64)
        ensures
            same_identity(*final(self), *old(self)),
            same_metrics(*final(self), *old(self)),
            final(self).duration_micros == old(self).duration_micros,
            final(self).write_latencies@ == old(self).write_latencies@,
            final(self).read_latencies@ == old(self).read_latencies@.push(v),
    {
        self.read_latencies.push(v);
    }

    /// Sets the counted-phase duration.
    pub fn set_duration(&mut self, v: i64)
        ensures
            same_identity(*final(self), *old(self)),
            same_metrics(*final(self), *old(self)),
            final(self).duration_micros == v,
            final(self).write_latencies@ == old(self).write_latencies@,
            final(self).read_latencies@ == old(self).read_latencies@,
    {
        self.duration_micros = v;
    }

    /// Routes one metrics-channel event into the record.
    pub fn record(&mut self, ev: LatencyEvent)
        ensures
            same_identity(*final(self), *old(self)),
            same_metrics(*final(self), *old(self)),
            match ev {
                LatencyEvent::WriteLatency(v) => {
                    &&& final(self).write_latencies@ == old(self).write_latencies@.push(v)
                    &&& final(self).read_latencies@ == old(self).read_latencies@
                    &&& final(self).duration_micros == old(self).duration_micros
                },
                LatencyEvent::ReadLatency(v) => {
                    &&& final(self).write_latencies@ == old(self).write_latencies@
                    &&& final(self).read_latencies@ == old(self).read_latencies@.push(v)
                    &&& final(self).duration_micros == old(self).duration_micros
                },
                LatencyEvent::WriteDuration(v) => {
                    &&& final(self).write_latencies@ == old(self).write_latencies@
                    &&& final(self).read_latencies@ == old(self).read_latencies@
                    &&& final(self).duration_micros == v
                },
            },
    {
        match ev {
            LatencyEvent::WriteLatency(v) => self.add_write_latency(v),
            LatencyEvent::ReadLatency(v) => self.add_read_latency(v),
            LatencyEvent::WriteDuration(v) => self.set_duration(v),
        }
    }

    /// The aggregation step. Failed writes are dropped, the effective
    /// message count becomes the number of successful writes, percentiles,
    /// mean and max are computed over those, both sample vectors are sorted
    /// and histogrammed, and throughput is the sent volume over the
    /// counted-phase duration. With no successful write, or a duration that
    /// is not positive, the record is left untouched and the error says
    /// which degenerate condition was hit.
    pub fn calculate_metrics(&mut self) -> (r: Result<(), StatsError>)
        requires
            old(self).write_latencies@.len() <= u32::MAX,
            old(self).write_latencies@.len() * old(self).message_size * 1000 <= u64::MAX,
        ensures
            same_identity(*final(self), *old(self)),
            final(self).duration_micros == old(self).duration_micros,
            r == Err::<(), StatsError>(StatsError::NoValidSamples) <==> valid_only(
                old(self).write_latencies@,
            ).len() == 0,
            r == Err::<(), StatsError>(StatsError::InvalidDuration) <==> (valid_only(
                old(self).write_latencies@,
            ).len() > 0 && old(self).duration_micros <= 0),
            r is Err ==> {
                &&& same_metrics(*final(self), *old(self))
                &&& final(self).write_latencies@ == old(self).write_latencies@
                &&& final(self).read_latencies@ == old(self).read_latencies@
            },
            r is Ok ==> {
                let valid = valid_only(old(self).write_latencies@);
                let reads_sorted = sorted_micros(old(self).read_latencies@);
                &&& final(self).message_num == valid.len()
                &&& final(self).write_latencies@ == sorted_micros(valid)
                &&& final(self).read_latencies@ == reads_sorted
                &&& final(self).write_latency_50pct == percentile_of(valid, 50)
                &&& final(self).write_latency_75pct == percentile_of(valid, 75)
                &&& final(self).write_latency_95pct == percentile_of(valid, 95)
                &&& final(self).write_latency_99pct == percentile_of(valid, 99)
                &&& final(self).write_latency_avg == mean_of(valid)
                &&& final(self).write_latency_max == max_of(valid)
                &&& final(self).write_latency_hist.wf()
                &&& final(self).write_latency_hist.spec_total() == valid.len()
                &&& (forall|key: u64|
                    final(self).write_latency_hist.spec_count(key) == bucket_count_in(
                        sorted_micros(valid),
                        key,
                    ))
                &&& final(self).read_latency_hist.wf()
                &&& final(self).read_latency_hist.spec_total() == nonneg_only(reads_sorted).len()
                &&& (forall|key: u64|
                    final(self).read_latency_hist.spec_count(key) == bucket_count_in(
                        nonneg_only(reads_sorted),
                        key,
                    ))
                &&& final(self).sent_data == valid.len() * old(self).message_size
                &&& final(self).throughput == throughput_of(
                    final(self).sent_data as int,
                    old(self).duration_micros as int,
                )
            },
    {
        let ghost all_writes = self.write_latencies@;
        let valid = filter_valid(&self.write_latencies);
        if valid.len() == 0 {
            return Err(StatsError::NoValidSamples);
        }
        if self.duration_micros <= 0 {
            return Err(StatsError::InvalidDuration);
        }
        proof {
            lemma_filtered_elements(all_writes);
            all_writes.lemma_filter_len(|x: i64| crate::event::is_valid_sample(x));
        }
        let sorted = sort_micros(&valid);
        proof {
            assert(forall|i: int| 0 <= i < valid@.len() ==> #[trigger] valid@[i] >= 1);
            lemma_sorted_micros_elements(valid@, 1);
            assert(forall|i: int| 0 <= i < sorted@.len() ==> 0 <= #[trigger] sorted@[i]);
            lemma_sort_of_sorted(sorted@);
            assert(percentile_of(sorted@, 50) == percentile_of(valid@, 50));
            assert(percentile_of(sorted@, 75) == percentile_of(valid@, 75));
            assert(percentile_of(sorted@, 95) == percentile_of(valid@, 95));
            assert(percentile_of(sorted@, 99) == percentile_of(valid@, 99));
        }
        let p50 = percentile_sorted(&sorted, 50);
        let p75 = percentile_sorted(&sorted, 75);
        let p95 = percentile_sorted(&sorted, 95);
        let p99 = percentile_sorted(&sorted, 99);
        let avg = mean_micros(&valid);
        let mx = max_micros(&valid);
        let write_hist = Histogram::from_samples(&sorted);
        let reads_sorted = sort_micros(&self.read_latencies);
        let reads_ok = filter_nonneg(&reads_sorted);
        proof {
            lemma_filtered_elements(reads_sorted@);
        }
        let read_hist = Histogram::from_samples(&reads_ok);
        let count = valid.len();
        proof {
            assert(count * self.message_size <= all_writes.len() * self.message_size) by {
                vstd::arithmetic::mul::lemma_mul_inequality(
                    count as int,
                    all_writes.len() as int,
                    self.message_size as int,
                );
            }
            assert(all_writes.len() * self.message_size * 1000 >= all_writes.len()
                * self.message_size) by {
                vstd::arithmetic::mul::lemma_mul_nonnegative(
                    all_writes.len() as int,
                    self.message_size as int,
                );
            }
            assert(count * self.message_size * 1000 <= all_writes.len() * self.message_size
                * 1000) by {
                vstd::arithmetic::mul::lemma_mul_inequality(
                    count * self.message_size as int,
                    all_writes.len() * self.message_size as int,
                    1000,
                );
            }
        }
        let bytes = (count as u64) * (self.message_size as u64);
        let thr = throughput_milli_mb_per_s(bytes, self.duration_micros);
        self.message_num = count as u32;
        self.write_latency_50pct = p50;
        self.write_latency_75pct = p75;
        self.write_latency_95pct = p95;
        self.write_latency_99pct = p99;
        self.write_latency_avg = avg;
        self.write_latency_max = mx;
        self.write_latency_hist = write_hist;
        self.read_latency_hist = read_hist;
        self.sent_data = bytes;
        self.throughput = thr;
        self.write_latencies = sorted;
        self.read_latencies = reads_sorted;
        Ok(())
    }
}

} // verus!
