//! Tests of the statistics engine: percentiles, filtering, histograms,
//! throughput, and the error conditions of the aggregation step.

use pravega_bench::hist::Histogram;
use pravega_bench::stats::filter_nonneg;
use pravega_bench::stats::filter_valid;
use pravega_bench::stats::max_micros;
use pravega_bench::stats::mean_micros;
use pravega_bench::stats::percentile;
use pravega_bench::stats::sort_micros;
use pravega_bench::stats::sum_micros;
use pravega_bench::stats::throughput_milli_mb_per_s;
use pravega_bench::stats::Stats;
use pravega_bench::stats::StatsError;

#[test]
fn median_odd_length_is_middle_order_statistic() {
    // sorted: [1000, 2000, 3000, 4000, 5000]; rank 50/100*(5-1) = 2 exactly
    let samples: Vec<i64> = vec![5000, 1000, 4000, 2000, 3000];
    assert_eq!(percentile(&samples, 50), Ok(3000));
}

#[test]
fn median_even_length_interpolates_half_way() {
    // sorted: [1000, 2000, 3000, 4000]; rank 50/100*(4-1) = 1.5:
    // 2000 + (3000-2000)*0.5 = 2500
    let samples: Vec<i64> = vec![4000, 2000, 1000, 3000];
    assert_eq!(percentile(&samples, 50), Ok(2500));
}

#[test]
fn median_even_length_rounds_half_up() {
    // sorted: [1, 2]; 1 + (2-1)*0.5 = 1.5, rounded half up to 2
    let samples: Vec<i64> = vec![2, 1];
    assert_eq!(percentile(&samples, 50), Ok(2));
}

#[test]
fn percentile_at_fractional_rank_interpolates_linearly() {
    // sorted: [1000, 2000]; rank 75/100*(2-1) = 0.75:
    // 1000 + 1000*0.75 = 1750
    let samples: Vec<i64> = vec![2000, 1000];
    assert_eq!(percentile(&samples, 75), Ok(1750));
    // rank 99/100*(2-1) = 0.99: 1000 + 990 = 1990
    assert_eq!(percentile(&samples, 99), Ok(1990));
    // rank 0 and rank 100 are the extremes
    assert_eq!(percentile(&samples, 0), Ok(1000));
    assert_eq!(percentile(&samples, 100), Ok(2000));
}

#[test]
fn percentile_is_invariant_to_input_order() {
    let ascending: Vec<i64> = vec![100, 200, 300, 400, 500, 600, 700];
    let shuffled: Vec<i64> = vec![400, 700, 100, 600, 300, 500, 200];
    for p in [0u8, 25, 50, 75, 95, 99, 100] {
        assert_eq!(percentile(&ascending, p), percentile(&shuffled, p));
    }
}

#[test]
fn percentile_of_empty_input_is_an_error() {
    let samples: Vec<i64> = vec![];
    assert_eq!(percentile(&samples, 50), Err(StatsError::NoValidSamples));
}

#[test]
fn filtering_keeps_exactly_the_strictly_positive_samples() {
    let samples: Vec<i64> = vec![-1, 1200, 0, 900, -1, -1, 4, 0];
    let valid = filter_valid(&samples);
    assert_eq!(valid, vec![1200, 900, 4]);
    // non-negative filtering keeps the zeros
    let nonneg = filter_nonneg(&samples);
    assert_eq!(nonneg, vec![1200, 0, 900, 4, 0]);
}

#[test]
fn sorting_is_ascending_and_keeps_duplicates() {
    let samples: Vec<i64> = vec![5, 3, 3, 9, 1];
    assert_eq!(sort_micros(&samples), vec![1, 3, 3, 5, 9]);
}

#[test]
fn mean_rounds_half_up_and_max_is_largest() {
    let samples: Vec<i64> = vec![1, 2]; // mean 1.5 -> 2
    assert_eq!(mean_micros(&samples), 2);
    let samples2: Vec<i64> = vec![1, 1, 2]; // mean 1.33 -> 1
    assert_eq!(mean_micros(&samples2), 1);
    assert_eq!(max_micros(&samples2), 2);
    assert_eq!(sum_micros(&samples2), 4);
}

#[test]
fn histogram_buckets_accumulate_counts_for_equal_keys() {
    let mut h = Histogram::new();
    h.insert(7);
    h.insert(7);
    h.insert(3);
    assert_eq!(h.count(7), 2);
    assert_eq!(h.count(3), 1);
    assert_eq!(h.count(0), 0);
    assert_eq!(h.total(), 3);
}

#[test]
fn histogram_total_equals_number_of_inserted_samples() {
    // 999 and 1 land in bucket 0; 1000 and 1999 in bucket 1; 2000 in 2
    let samples: Vec<i64> = vec![999, 1, 1000, 1999, 2000];
    let h = Histogram::from_samples(&samples);
    assert_eq!(h.total(), samples.len() as u64);
    assert_eq!(h.count(0), 2);
    assert_eq!(h.count(1), 2);
    assert_eq!(h.count(2), 1);
    // keys are strictly increasing
    assert_eq!(h.buckets, vec![(0, 2), (1, 2), (2, 1)]);
}

#[test]
fn throughput_is_bytes_per_microsecond_scaled_to_thousandths() {
    // 1 MB over 1 s: 1.000 MB/s -> 1000 thousandths
    assert_eq!(throughput_milli_mb_per_s(1_000_000, 1_000_000), 1000);
    // 102400 bytes over 10.0001 s -> 0.010 MB/s
    assert_eq!(throughput_milli_mb_per_s(102_400, 10_000_100), 10);
}

#[test]
fn throughput_is_monotone_in_duration_and_count() {
    let t_fast = throughput_milli_mb_per_s(4096, 1_000_000);
    let t_slow = throughput_milli_mb_per_s(4096, 2_000_000);
    assert!(t_slow <= t_fast);
    let t_few = throughput_milli_mb_per_s(10 * 1024, 1_000_000);
    let t_many = throughput_milli_mb_per_s(20 * 1024, 1_000_000);
    assert!(t_few <= t_many);
}

#[test]
fn simple_stats_mean_and_throughput() {
    let mut s = Stats::new();
    s.write_latencies = vec![1000, 2000, 3000];
    // total time 6000 us; 3 messages of 2000 bytes = 6000 bytes:
    // 6000 * 1000 / 6000 = 1000 thousandths of a MB/s
    assert_eq!(s.calculate_metrics(3, 2000), Ok(()));
    assert_eq!(s.write_latency_mean, 2000);
    assert_eq!(s.throughput, 1000);
}

#[test]
fn simple_stats_errors_on_empty_and_zero_time() {
    let mut s = Stats::new();
    assert_eq!(s.calculate_metrics(3, 2000), Err(StatsError::NoValidSamples));
    s.write_latencies = vec![0, 0];
    assert_eq!(s.calculate_metrics(3, 2000), Err(StatsError::InvalidDuration));
}
