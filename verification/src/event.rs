//! Latency samples and the events that carry them from the workers to the
//! aggregator.
//!
//! A sample is a latency in integer microseconds: one microsecond is one
//! thousandth of a millisecond, so this is a fixed-point encoding of
//! milliseconds with three decimal places. A sample that is zero or negative
//! is a sentinel for a failed operation; it is excluded from percentile,
//! mean and max computation but still counted for failure reporting.

use vstd::prelude::*;

verus! {

/// Sentinel sample recorded for a failed operation.
pub const FAILED_SAMPLE: i64 = -1;

/// A sample is valid (counts toward statistics) when it is strictly positive.
pub open spec fn is_valid_sample(s: i64) -> bool {
    s > 0
}

/// One message on the metrics channel: a per-write latency, a per-read
/// latency, or the producer's final wall-clock duration of the counted
/// phase. All values are microseconds.
#[derive(Clone, Copy, Debug)]
pub enum LatencyEvent {
    WriteLatency(i64),
    ReadLatency(i64),
    WriteDuration(i64),
}

/// The latency between two wall-clock readings, both in microseconds since
/// a common epoch. A backwards clock step or an elapsed time too large for
/// `i64` yields the failure sentinel rather than a bogus value.
pub open spec fn spec_elapsed_micros(start: u64, end: u64) -> i64 {
    if start <= end && end - start <= i64::MAX {
        (end - start) as i64
    } else {
        FAILED_SAMPLE
    }
}

/// Computes the elapsed time between two clock readings in microseconds.
pub fn elapsed_micros(start: u64, end: u64) -> (r: i64)
    ensures
        r == spec_elapsed_micros(start, end),
{
    if start <= end && end - start <= i64::MAX as u64 {
        (end - start) as i64
    } else {
        FAILED_SAMPLE
    }
}

/// The sample recorded for one write attempt: the elapsed wall time when the
/// write was acknowledged, the failure sentinel when it was not.
pub open spec fn spec_write_sample(start: u64, end: u64, acknowledged: bool) -> i64 {
    if acknowledged {
        spec_elapsed_micros(start, end)
    } else {
        FAILED_SAMPLE
    }
}

/// Turns the outcome of one write attempt into the sample to record.
pub fn write_sample(start: u64, end: u64, acknowledged: bool) -> (r: i64)
    ensures
        r == spec_write_sample(start, end, acknowledged),
{
    if acknowledged {
        elapsed_micros(start, end)
    } else {
        FAILED_SAMPLE
    }
}

} // verus!
