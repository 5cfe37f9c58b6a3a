//! The statistics engine: pure functions from latency-sample vectors and a
//! duration to percentiles, mean, max and throughput.
//!
//! Numeric policy. Samples are integer microseconds (milliseconds with three
//! fixed decimal places). Percentile uses linear interpolation between order
//! statistics at rank `p/100 * (n-1)`; interpolated values and the mean are
//! rounded to the nearest microsecond, half away from zero. Throughput is
//! reported in thousandths of a megabyte per second: one megabyte is 10^6
//! bytes and one second is 10^6 microseconds, so megabytes per second equal
//! bytes per microsecond, and the thousandths-scaled value is
//! `bytes * 1000 / duration_micros`. These conversions are defined here and
//! nowhere else.

use vstd::prelude::*;
use vstd::seq_lib::*;
use vstd::relations::*;
use vstd::arithmetic::div_mod::*;
use vstd::arithmetic::mul::*;
use crate::event::is_valid_sample;

verus! {

/// Errors of the aggregation step. An empty or degenerate sample set is
/// reported explicitly, never silently turned into zeros.
#[derive(Clone, Copy, Debug, PartialEq, Eq, Structural)]
pub enum StatsError {
    /// No strictly-positive write sample was collected, so percentiles,
    /// mean and max are undefined.
    NoValidSamples,
    /// The measured wall-clock duration is zero or negative, so throughput
    /// is undefined.
    InvalidDuration,
}

/// The total order on samples used for sorting.
pub open spec fn micros_le() -> spec_fn(i64, i64) -> bool {
    |x: i64, y: i64| x <= y
}

/// The canonical ascending arrangement of a sample sequence.
pub open spec fn sorted_micros(s: Seq<i64>) -> Seq<i64> {
    s.sort_by(micros_le())
}

/// The strictly-positive (successful) samples, in their original order.
pub open spec fn valid_only(s: Seq<i64>) -> Seq<i64> {
    s.filter(|x: i64| is_valid_sample(x))
}

/// The number of strictly-positive entries of a sample sequence.
pub open spec fn count_valid(s: Seq<i64>) -> int
    decreases s.len(),
{
    if s.len() == 0 {
        0
    } else {
        count_valid(s.drop_last()) + if is_valid_sample(s.last()) {
            1int
        } else {
            0int
        }
    }
}

/// Filtering law: the effective message count after removing failure
/// sentinels equals exactly the number of strictly-positive entries.
pub proof fn lemma_filter_keeps_exactly_the_valid(s: Seq<i64>)
    ensures
        valid_only(s).len() == count_valid(s),
    decreases s.len(),
{
    reveal(Seq::filter);
    if s.len() != 0 {
        lemma_filter_keeps_exactly_the_valid(s.drop_last());
    }
}

proof fn lemma_valid_only_push(s: Seq<i64>, x: i64)
    ensures
        valid_only(s.push(x)) == if is_valid_sample(x) {
            valid_only(s).push(x)
        } else {
            valid_only(s)
        },
{
    reveal(Seq::filter);
    assert(s.push(x).drop_last() =~= s);
}

/// Drops the failure sentinels, keeping the successful samples in order.
pub fn filter_valid(samples: &Vec<i64>) -> (r: Vec<i64>)
    ensures
        r@ == valid_only(samples@),
        r@.len() == count_valid(samples@),
{
    let mut r: Vec<i64> = Vec::new();
    let mut i: usize = 0;
    while i < samples.len()
        invariant
            i <= samples.len(),
            r@ == valid_only(samples@.subrange(0, i as int)),
        decreases samples.len() - i,
    {
        let x = samples[i];
        proof {
            assert(samples@.subrange(0, i + 1 as int) =~= samples@.subrange(0, i as int).push(
                samples@[i as int],
            ));
            lemma_valid_only_push(samples@.subrange(0, i as int), samples@[i as int]);
        }
        if x > 0 {
            r.push(x);
        }
        i = i + 1;
    }
    proof {
        assert(samples@.subrange(0, samples@.len() as int) =~= samples@);
        lemma_filter_keeps_exactly_the_valid(samples@);
    }
    r
}

/// The samples that are not failure sentinels (non-negative), in their
/// original order.
pub open spec fn nonneg_only(s: Seq<i64>) -> Seq<i64> {
    s.filter(|x: i64| x >= 0)
}

proof fn lemma_nonneg_only_push(s: Seq<i64>, x: i64)
    ensures
        nonneg_only(s.push(x)) == if x >= 0 {
            nonneg_only(s).push(x)
        } else {
            nonneg_only(s)
        },
{
    reveal(Seq::filter);
    assert(s.push(x).drop_last() =~= s);
}

/// Drops the failure sentinels but keeps zero-latency samples, in order.
pub fn filter_nonneg(samples: &Vec<i64>) -> (r: Vec<i64>)
    ensures
        r@ == nonneg_only(samples@),
{
    let mut r: Vec<i64> = Vec::new();
    let mut i: usize = 0;
    while i < samples.len()
        invariant
            i <= samples.len(),
            r@ == nonneg_only(samples@.subrange(0, i as int)),
        decreases samples.len() - i,
    {
        let x = samples[i];
        proof {
            assert(samples@.subrange(0, i + 1 as int) =~= samples@.subrange(0, i as int).push(
                samples@[i as int],
            ));
            lemma_nonneg_only_push(samples@.subrange(0, i as int), samples@[i as int]);
        }
        if x >= 0 {
            r.push(x);
        }
        i = i + 1;
    }
    proof {
        assert(samples@.subrange(0, samples@.len() as int) =~= samples@);
    }
    r
}

/// Every element of a filtered sequence satisfies the filter: the valid
/// samples are strictly positive, the non-negative ones non-negative.
pub proof fn lemma_filtered_elements(s: Seq<i64>)
    ensures
        forall|i: int| 0 <= i < valid_only(s).len() ==> #[trigger] valid_only(s)[i] > 0,
        forall|i: int| 0 <= i < nonneg_only(s).len() ==> #[trigger] nonneg_only(s)[i] >= 0,
{
    broadcast use group_filter_ensures;

    assert(valid_only(s) == s.filter(|x: i64| is_valid_sample(x)));
    assert(nonneg_only(s) == s.filter(|x: i64| x >= 0));
}

/// Sorting keeps length and any elementwise lower bound.
pub proof fn lemma_sorted_micros_elements(s: Seq<i64>, bound: i64)
    requires
        forall|i: int| 0 <= i < s.len() ==> #[trigger] s[i] >= bound,
    ensures
        sorted_micros(s).len() == s.len(),
        forall|i: int| 0 <= i < sorted_micros(s).len() ==> #[trigger] sorted_micros(s)[i] >= bound,
{
    broadcast use group_to_multiset_ensures;

    s.lemma_sort_by_ensures(micros_le());
    let sorted = sorted_micros(s);
    assert(s.len() == s.to_multiset().len());
    assert(sorted.len() == sorted.to_multiset().len());
    assert forall|i: int| 0 <= i < sorted.len() implies #[trigger] sorted[i] >= bound by {
        assert(sorted.to_multiset().count(sorted[i]) > 0);
        assert(s.contains(sorted[i]));
    }
}

/// Sorts the samples ascending; the result is the canonical arrangement
/// `sorted_micros` of the input.
pub fn sort_micros(samples: &Vec<i64>) -> (r: Vec<i64>)
    ensures
        r@ == sorted_micros(samples@),
        sorted_by(r@, micros_le()),
        r@.len() == samples@.len(),
{
    let mut r: Vec<i64> = Vec::new();
    proof {
        assert(samples@.subrange(0, 0) =~= r@);
    }
    let mut i: usize = 0;
    while i < samples.len()
        invariant
            i <= samples.len(),
            r@.len() == i,
            sorted_by(r@, micros_le()),
            r@.to_multiset() == samples@.subrange(0, i as int).to_multiset(),
        decreases samples.len() - i,
    {
        let x = samples[i];
        let mut k: usize = 0;
        while k < r.len() && r[k] <= x
            invariant
                k <= r@.len(),
                forall|j: int| 0 <= j < k ==> r@[j] <= x,
            decreases r@.len() - k,
        {
            k = k + 1;
        }
        let ghost old_r = r@;
        r.insert(k, x);
        proof {
            broadcast use group_to_multiset_ensures;

            assert forall|a: int, b: int| 0 <= a < b < r@.len() implies micros_le()(
                r@[a],
                r@[b],
            ) by {
                if b < k {
                    assert(r@[a] == old_r[a] && r@[b] == old_r[b]);
                } else if b == k {
                    assert(r@[a] == old_r[a] && r@[b] == x);
                } else if a < k {
                    assert(r@[a] == old_r[a] && r@[b] == old_r[b - 1]);
                    assert(micros_le()(old_r[a], old_r[b - 1]));
                } else if a == k {
                    assert(r@[b] == old_r[b - 1]);
                    assert(old_r[k as int] > x);
                    if k < b - 1 {
                        assert(micros_le()(old_r[k as int], old_r[b - 1]));
                    }
                } else {
                    assert(r@[a] == old_r[a - 1] && r@[b] == old_r[b - 1]);
                    assert(micros_le()(old_r[a - 1], old_r[b - 1]));
                }
            }
            assert(sorted_by(r@, micros_le()));
            assert(samples@.subrange(0, i + 1 as int) =~= samples@.subrange(0, i as int).push(
                samples@[i as int],
            ));
        }
        i = i + 1;
    }
    proof {
        assert(samples@.subrange(0, samples@.len() as int) =~= samples@);
        samples@.lemma_sort_by_ensures(micros_le());
        lemma_sorted_unique(r@, sorted_micros(samples@), micros_le());
    }
    r
}

/// A sequence that is already ascending is its own canonical arrangement.
pub proof fn lemma_sort_of_sorted(s: Seq<i64>)
    requires
        sorted_by(s, micros_le()),
    ensures
        sorted_micros(s) == s,
{
    s.lemma_sort_by_ensures(micros_le());
    lemma_sorted_unique(s, sorted_micros(s), micros_le());
}

/// The percentile of a sample sequence by linear interpolation between order
/// statistics. The rank is `p/100 * (n-1)`: at an integral rank the order
/// statistic itself, otherwise the interpolation between the two surrounding
/// order statistics, rounded to the nearest microsecond (half up).
pub open spec fn percentile_of(s: Seq<i64>, p: int) -> int
    recommends
        1 <= s.len(),
        0 <= p <= 100,
{
    let sorted = sorted_micros(s);
    let n = s.len() as int;
    let k = p * (n - 1) / 100;
    let f = p * (n - 1) % 100;
    if f == 0 {
        sorted[k] as int
    } else {
        sorted[k] + ((sorted[k + 1] - sorted[k]) * f + 50) / 100
    }
}

/// Computes the percentile of an already-sorted, non-negative sample vector.
pub fn percentile_sorted(sorted: &Vec<i64>, p: u8) -> (r: i64)
    requires
        sorted@.len() >= 1,
        sorted_by(sorted@, micros_le()),
        forall|i: int| 0 <= i < sorted@.len() ==> 0 <= #[trigger] sorted@[i],
        p <= 100,
    ensures
        r == percentile_of(sorted@, p as int),
{
    proof {
        lemma_sort_of_sorted(sorted@);
    }
    let n = sorted.len();
    let ghost n_int = n as int;
    proof {
        lemma_mul_inequality(p as int, 100, n_int - 1);
        assert((n_int - 1) * 100 <= usize::MAX as int * 100) by {
            lemma_mul_inequality(n_int - 1, usize::MAX as int, 100);
        }
        lemma_mul_is_commutative(100, n_int - 1);
        lemma_mul_is_commutative(100, usize::MAX as int);
    }
    let rank: u128 = (p as u128) * ((n - 1) as u128);
    proof {
        lemma_div_is_ordered(rank as int, 100 * (n_int - 1), 100);
        lemma_div_multiples_vanish(n_int - 1, 100);
        assert(rank as int / 100 <= n_int - 1);
    }
    let k = (rank / 100) as usize;
    let f = rank % 100;
    if f == 0 {
        sorted[k]
    } else {
        proof {
            lemma_fundamental_div_mod(rank as int, 100);
            if k as int == n_int - 1 {
                assert(rank as int == 100 * (n_int - 1) + f);
                assert(rank as int <= 100 * (n_int - 1));
                assert(false);
            }
        }
        let lo = sorted[k];
        let hi = sorted[k + 1];
        proof {
            assert(micros_le()(sorted@[k as int], sorted@[k + 1]));
            lemma_mod_bound(rank as int, 100);
        }
        let diff = hi - lo;
        proof {
            assert(diff * f <= diff * 100) by {
                lemma_mul_inequality(f as int, 100, diff as int);
                lemma_mul_is_commutative(diff as int, f as int);
                lemma_mul_is_commutative(diff as int, 100);
            }
            assert(diff * 100 <= i64::MAX as int * 100) by {
                lemma_mul_inequality(diff as int, i64::MAX as int, 100);
            }
            assert(0 <= diff * f) by {
                lemma_mul_nonnegative(diff as int, f as int);
            }
        }
        let interp_wide = ((diff as i128) * (f as i128) + 50) / 100;
        proof {
            let d = diff as int;
            let fi = f as int;
            lemma_mul_inequality(fi, 100, d);
            assert(d * fi == fi * d) by {
                lemma_mul_is_commutative(d, fi);
            }
            assert(d * fi + 50 < 100 * d + 100);
            assert(100 * d + 100 == 100 * (d + 1)) by {
                lemma_mul_is_distributive_add(100, d, 1);
            }
            lemma_multiply_divide_lt(d * fi + 50, 100, d + 1);
            lemma_div_pos_is_pos(d * fi + 50, 100);
            assert(0 <= (d * fi + 50) / 100 <= d);
        }
        let interp = interp_wide as i64;
        lo + interp
    }
}

/// Percentile of an arbitrary non-negative sample vector: an empty vector is
/// an error, never a silent zero.
pub fn percentile(samples: &Vec<i64>, p: u8) -> (r: Result<i64, StatsError>)
    requires
        p <= 100,
        forall|i: int| 0 <= i < samples@.len() ==> 0 <= #[trigger] samples@[i],
    ensures
        r is Err <==> samples@.len() == 0,
        r is Err ==> r == Err::<i64, StatsError>(StatsError::NoValidSamples),
        r matches Ok(v) ==> v == percentile_of(samples@, p as int),
{
    if samples.len() == 0 {
        return Err(StatsError::NoValidSamples);
    }
    let sorted = sort_micros(samples);
    proof {
        samples@.lemma_sort_by_ensures(micros_le());
        broadcast use group_to_multiset_ensures;

        assert(sorted@.to_multiset() == samples@.to_multiset());
        assert(sorted@.to_multiset().len() == sorted@.len());
        assert(samples@.to_multiset().len() == samples@.len());
        assert forall|i: int| 0 <= i < sorted@.len() implies 0 <= #[trigger] sorted@[i] by {
            assert(sorted@.to_multiset().count(sorted@[i]) > 0);
            assert(samples@.contains(sorted@[i]));
        }
        lemma_sort_of_sorted(sorted@);
        assert(percentile_of(sorted@, p as int) == percentile_of(samples@, p as int));
    }
    Ok(percentile_sorted(&sorted, p))
}

/// The sum of a sample sequence.
pub open spec fn sum_of(s: Seq<i64>) -> int
    decreases s.len(),
{
    if s.len() == 0 {
        0
    } else {
        sum_of(s.drop_last()) + s.last()
    }
}

/// The mean of a non-empty sample sequence, rounded to the nearest
/// microsecond (half up).
pub open spec fn mean_of(s: Seq<i64>) -> int
    recommends
        s.len() > 0,
{
    (sum_of(s) + s.len() / 2) / s.len() as int
}

proof fn lemma_sum_bounds(s: Seq<i64>)
    requires
        forall|i: int| 0 <= i < s.len() ==> 0 <= #[trigger] s[i],
    ensures
        0 <= sum_of(s) <= s.len() * i64::MAX,
    decreases s.len(),
{
    if s.len() == 0 {
    } else {
        lemma_sum_bounds(s.drop_last());
        assert((s.len() - 1) * i64::MAX + i64::MAX == s.len() * i64::MAX) by {
            lemma_mul_is_distributive_sub_other_way(i64::MAX as int, s.len() as int, 1);
        }
    }
}

/// Computes the mean of a non-empty, non-negative sample vector.
pub fn mean_micros(samples: &Vec<i64>) -> (r: i64)
    requires
        samples@.len() >= 1,
        forall|i: int| 0 <= i < samples@.len() ==> 0 <= #[trigger] samples@[i],
    ensures
        r == mean_of(samples@),
{
    let sum = sum_micros(samples);
    let n = samples.len() as u128;
    proof {
        lemma_sum_bounds(samples@);
        lemma_mul_inequality(samples@.len() as int, usize::MAX as int, i64::MAX as int);
    }
    let m = (sum + n / 2) / n;
    proof {
        let s = sum as int;
        let ni = n as int;
        assert(s + ni / 2 < ni * (i64::MAX as int + 1)) by {
            assert(s <= ni * i64::MAX as int);
            assert(ni * (i64::MAX as int) + ni == ni * (i64::MAX as int + 1)) by {
                lemma_mul_is_distributive_add(ni, i64::MAX as int, 1);
            }
        }
        lemma_multiply_divide_lt(s + ni / 2, ni, i64::MAX as int + 1);
        lemma_div_pos_is_pos(s + ni / 2, ni);
    }
    m as i64
}

/// Computes the sum of a non-negative sample vector.
pub fn sum_micros(samples: &Vec<i64>) -> (s: u128)
    requires
        forall|i: int| 0 <= i < samples@.len() ==> 0 <= #[trigger] samples@[i],
    ensures
        s == sum_of(samples@),
{
    let mut sum: u128 = 0;
    let mut i: usize = 0;
    while i < samples.len()
        invariant
            i <= samples.len(),
            forall|j: int| 0 <= j < samples@.len() ==> 0 <= #[trigger] samples@[j],
            sum == sum_of(samples@.subrange(0, i as int)),
        decreases samples.len() - i,
    {
        proof {
            let prefix = samples@.subrange(0, i as int);
            let next = samples@.subrange(0, i + 1 as int);
            assert(next.drop_last() =~= prefix);
            lemma_sum_bounds(prefix);
            lemma_mul_inequality(i as int, usize::MAX as int, i64::MAX as int);
        }
        sum = sum + (samples[i] as u128);
        i = i + 1;
    }
    proof {
        assert(samples@.subrange(0, samples@.len() as int) =~= samples@);
    }
    sum
}

/// The maximum of a non-empty sample sequence.
pub open spec fn max_of(s: Seq<i64>) -> int
    recommends
        s.len() > 0,
    decreases s.len(),
{
    if s.len() <= 1 {
        s[0] as int
    } else {
        let m = max_of(s.drop_last());
        if s.last() > m {
            s.last() as int
        } else {
            m
        }
    }
}

/// Computes the maximum of a non-empty sample vector.
pub fn max_micros(samples: &Vec<i64>) -> (r: i64)
    requires
        samples@.len() >= 1,
    ensures
        r == max_of(samples@),
{
    let mut cur = samples[0];
    let mut i: usize = 1;
    proof {
        assert(samples@.subrange(0, 1) =~= seq![samples@[0]]);
    }
    while i < samples.len()
        invariant
            1 <= i <= samples.len(),
            cur == max_of(samples@.subrange(0, i as int)),
        decreases samples.len() - i,
    {
        proof {
            let prefix = samples@.subrange(0, i as int);
            let next = samples@.subrange(0, i + 1 as int);
            assert(next.drop_last() =~= prefix);
        }
        let x = samples[i];
        if x > cur {
            cur = x;
        }
        i = i + 1;
    }
    proof {
        assert(samples@.subrange(0, samples@.len() as int) =~= samples@);
    }
    cur
}

/// Throughput in thousandths of a megabyte per second. Megabytes per second
/// equal bytes per microsecond (both scale by 10^6), so the value scaled by
/// 1000 is `bytes * 1000 / duration_micros`.
pub open spec fn throughput_of(bytes: int, duration_micros: int) -> int
    recommends
        duration_micros > 0,
{
    bytes * 1000 / duration_micros
}

/// Percentiles do not depend on the order in which samples arrived: two
/// sequences holding the same samples (as a multiset) have the same
/// percentile, for every rank.
pub proof fn lemma_percentile_order_invariant(s1: Seq<i64>, s2: Seq<i64>, p: int)
    requires
        s1.to_multiset() == s2.to_multiset(),
    ensures
        percentile_of(s1, p) == percentile_of(s2, p),
{
    broadcast use group_to_multiset_ensures;

    s1.lemma_sort_by_ensures(micros_le());
    s2.lemma_sort_by_ensures(micros_le());
    assert(s1.len() == s1.to_multiset().len());
    assert(s2.len() == s2.to_multiset().len());
    lemma_sorted_unique(sorted_micros(s1), sorted_micros(s2), micros_le());
}

/// The 50th percentile is the linear-interpolated median: the middle order
/// statistic for an odd number of samples, and for an even number the
/// rounded midpoint of the two middle order statistics.
pub proof fn lemma_median_is_interpolated(s: Seq<i64>)
    requires
        s.len() >= 2,
    ensures
        s.len() % 2 == 1 ==> percentile_of(s, 50) == sorted_micros(s)[(s.len() - 1) as int / 2],
        s.len() % 2 == 0 ==> percentile_of(s, 50) == sorted_micros(s)[s.len() as int / 2 - 1] + (
        sorted_micros(s)[s.len() as int / 2] - sorted_micros(s)[s.len() as int / 2 - 1] + 1) / 2,
{
    let n = s.len() as int;
    let h = n / 2;
    let sorted = sorted_micros(s);
    s.lemma_sort_by_ensures(micros_le());
    assert(sorted.len() == n) by {
        broadcast use group_to_multiset_ensures;

        assert(s.len() == s.to_multiset().len());
        assert(sorted.len() == sorted.to_multiset().len());
    }
    lemma_fundamental_div_mod(n, 2);
    if n % 2 == 1 {
        assert(50 * (n - 1) == 100 * h);
        lemma_div_multiples_vanish(h, 100);
        assert(h * 100 == 100 * h) by {
            lemma_mul_is_commutative(h, 100);
        }
        lemma_mod_multiples_basic(h, 100);
        assert(50 * (n - 1) / 100 == h);
        assert(50 * (n - 1) % 100 == 0);
        assert((n - 1) / 2 == h) by {
            lemma_div_multiples_vanish(h, 2);
            lemma_mul_is_commutative(h, 2);
        }
    } else {
        assert(50 * (n - 1) == 100 * (h - 1) + 50);
        lemma_div_multiples_vanish_fancy(h - 1, 50, 100);
        assert(50 * (n - 1) / 100 == h - 1);
        lemma_fundamental_div_mod(100 * (h - 1) + 50, 100);
        assert(50 * (n - 1) % 100 == 50);
        let lo = sorted[h - 1];
        let hi = sorted[h];
        assert(micros_le()(sorted[h - 1], sorted[h]));
        let d = hi - lo;
        assert((d * 50 + 50) / 100 == (d + 1) / 2) by {
            assert(d * 50 + 50 == (d + 1) * 50) by {
                lemma_mul_is_distributive_add_other_way(50, d, 1);
            }
            assert((d + 1) * 50 == 50 * (d + 1)) by {
                lemma_mul_is_commutative(d + 1, 50);
            }
            lemma_div_denominator(50 * (d + 1), 50, 2);
            assert(50 * (d + 1) >= 0) by {
                lemma_mul_nonnegative(50, d + 1);
            }
            lemma_div_multiples_vanish(d + 1, 50);
            assert((d + 1) * 50 == 50 * (d + 1)) by {
                lemma_mul_is_commutative(d + 1, 50);
            }
        }
    }
}

/// Throughput is monotone: it does not increase when the duration grows at a
/// fixed message count and size, and it does not decrease when the message
/// count grows at a fixed duration and size.
pub proof fn lemma_throughput_monotonic(count1: int, count2: int, size: int, d1: int, d2: int)
    requires
        0 <= count1 <= count2,
        0 <= size,
        0 < d1 <= d2,
    ensures
        throughput_of(count2 * size, d2) <= throughput_of(count2 * size, d1),
        throughput_of(count1 * size, d1) <= throughput_of(count2 * size, d1),
{
    lemma_mul_nonnegative(count1, size);
    lemma_mul_nonnegative(count2, size);
    assert(count1 * size <= count2 * size) by {
        lemma_mul_inequality(count1, count2, size);
        lemma_mul_is_commutative(count1, size);
        lemma_mul_is_commutative(count2, size);
    }
    assert(count1 * size * 1000 <= count2 * size * 1000) by {
        lemma_mul_inequality(count1 * size, count2 * size, 1000);
    }
    assert(0 <= count2 * size * 1000) by {
        lemma_mul_nonnegative(count2 * size, 1000);
    }
    lemma_div_is_ordered(count1 * size * 1000, count2 * size * 1000, d1);
    lemma_div_is_ordered_by_denominator(count2 * size * 1000, d1, d2);
}

/// Computes the throughput of `bytes` sent over `duration_micros`.
pub fn throughput_milli_mb_per_s(bytes: u64, duration_micros: i64) -> (t: u64)
    requires
        duration_micros > 0,
        bytes * 1000 <= u64::MAX,
    ensures
        t == throughput_of(bytes as int, duration_micros as int),
{
    (bytes * 1000) / (duration_micros as u64)
}

/// A minimal aggregate over write latencies alone: their mean, and the
/// throughput of the sent volume over the summed write time.
#[derive(Debug)]
pub struct Stats {
    /// Mean write latency, microseconds.
    pub write_latency_mean: i64,
    pub write_latencies: Vec<i64>,
    /// Thousandths of a megabyte per second.
    pub throughput: u64,
}

impl Stats {
    /// An empty aggregate.
    pub fn new() -> (s: Stats)
        ensures
            s.write_latency_mean == 0,
            s.write_latencies@ == Seq::<i64>::empty(),
            s.throughput == 0,
    {
        Stats { write_latency_mean: 0, write_latencies: Vec::new(), throughput: 0 }
    }

    /// Computes the mean write latency and the throughput of `messages_num`
    /// messages of `message_size` bytes over the total write time. An empty
    /// sample set, or a total time of zero, is a structured error that
    /// leaves the aggregate untouched.
    pub fn calculate_metrics(&mut self, messages_num: u32, message_size: usize) -> (r: Result<
        (),
        StatsError,
    >)
        requires
            forall|i: int|
                0 <= i < old(self).write_latencies@.len() ==> 0 <= #[trigger] old(
                    self,
                ).write_latencies@[i],
            sum_of(old(self).write_latencies@) <= i64::MAX,
            messages_num * message_size * 1000 <= u64::MAX,
        ensures
            final(self).write_latencies@ == old(self).write_latencies@,
            r == Err::<(), StatsError>(StatsError::NoValidSamples) <==> old(
                self,
            ).write_latencies@.len() == 0,
            r == Err::<(), StatsError>(StatsError::InvalidDuration) <==> (old(
                self,
            ).write_latencies@.len() > 0 && sum_of(old(self).write_latencies@) == 0),
            r is Err ==> {
                &&& final(self).write_latency_mean == old(self).write_latency_mean
                &&& final(self).throughput == old(self).throughput
            },
            r is Ok ==> {
                &&& final(self).write_latency_mean == mean_of(old(self).write_latencies@)
                &&& final(self).throughput == throughput_of(
                    messages_num * message_size,
                    sum_of(old(self).write_latencies@),
                )
            },
    {
        if self.write_latencies.len() == 0 {
            return Err(StatsError::NoValidSamples);
        }
        let time = sum_micros(&self.write_latencies);
        if time == 0 {
            return Err(StatsError::InvalidDuration);
        }
        proof {
            lemma_sum_bounds(self.write_latencies@);
        }
        let mean = mean_micros(&self.write_latencies);
        let data_sent = (messages_num as u64) * (message_size as u64);
        proof {
            lemma_mul_nonnegative(messages_num as int, message_size as int);
            assert(messages_num * message_size <= messages_num * message_size * 1000) by {
                lemma_mul_inequality(1, 1000, messages_num * message_size as int);
                lemma_mul_is_commutative(messages_num * message_size as int, 1000);
            }
        }
        let throughput = throughput_milli_mb_per_s(data_sent, time as i64);
        self.write_latency_mean = mean;
        self.throughput = throughput;
        Ok(())
    }
}

} // verus!
