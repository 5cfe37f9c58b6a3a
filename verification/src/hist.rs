//! Latency histogram: bucket key = whole milliseconds (the sample truncated
//! to integer milliseconds), value = occurrence count. Buckets accumulate,
//! never overwrite; keys are kept strictly increasing, so each key is unique.

use vstd::prelude::*;

verus! {

/// The histogram bucket of a non-negative sample: its whole milliseconds.
/// Samples are microseconds, so the key is the sample divided by 1000,
/// truncated.
pub open spec fn bucket_of(sample: i64) -> u64
    recommends
        sample >= 0,
{
    (sample / 1000) as u64
}

/// The sum of all bucket counts of a bucket sequence.
pub open spec fn hist_total(s: Seq<(u64, u64)>) -> int
    decreases s.len(),
{
    if s.len() == 0 {
        0
    } else {
        hist_total(s.drop_last()) + s.last().1
    }
}

/// The count recorded for one key in a bucket sequence.
pub open spec fn hist_count(s: Seq<(u64, u64)>, key: u64) -> int
    decreases s.len(),
{
    if s.len() == 0 {
        0
    } else {
        hist_count(s.drop_last(), key) + if s.last().0 == key {
            s.last().1 as int
        } else {
            0int
        }
    }
}

/// How many samples of a sequence fall into one bucket.
pub open spec fn bucket_count_in(samples: Seq<i64>, key: u64) -> int
    decreases samples.len(),
{
    if samples.len() == 0 {
        0
    } else {
        bucket_count_in(samples.drop_last(), key) + if bucket_of(samples.last()) == key {
            1int
        } else {
            0int
        }
    }
}

/// Bucket keys are strictly increasing: sorted and therefore unique.
pub open spec fn hist_keys_increasing(s: Seq<(u64, u64)>) -> bool {
    forall|i: int, j: int| 0 <= i < j < s.len() ==> (#[trigger] s[i]).0 < (#[trigger] s[j]).0
}

proof fn lemma_hist_total_concat(a: Seq<(u64, u64)>, b: Seq<(u64, u64)>)
    ensures
        hist_total(a + b) == hist_total(a) + hist_total(b),
    decreases b.len(),
{
    if b.len() == 0 {
        assert(a + b =~= a);
    } else {
        assert((a + b).drop_last() =~= a + b.drop_last());
        lemma_hist_total_concat(a, b.drop_last());
    }
}

proof fn lemma_hist_count_concat(a: Seq<(u64, u64)>, b: Seq<(u64, u64)>, key: u64)
    ensures
        hist_count(a + b, key) == hist_count(a, key) + hist_count(b, key),
    decreases b.len(),
{
    if b.len() == 0 {
        assert(a + b =~= a);
    } else {
        assert((a + b).drop_last() =~= a + b.drop_last());
        lemma_hist_count_concat(a, b.drop_last(), key);
    }
}

proof fn lemma_hist_singleton(p: (u64, u64))
    ensures
        hist_total(seq![p]) == p.1,
        forall|key: u64| hist_count(seq![p], key) == if p.0 == key {
            p.1 as int
        } else {
            0int
        },
{
    assert(seq![p].drop_last() =~= Seq::<(u64, u64)>::empty());
    assert(hist_total(Seq::<(u64, u64)>::empty()) == 0);
    assert(seq![p].len() == 1 && seq![p].last() == p);
    assert forall|key: u64|
        hist_count(seq![p], key) == (if p.0 == key {
            p.1 as int
        } else {
            0int
        }) by {
        assert(hist_count(Seq::<(u64, u64)>::empty(), key) == 0);
    }
}

/// With every count non-negative, one key's count never exceeds the total.
proof fn lemma_hist_count_le_total(s: Seq<(u64, u64)>, key: u64)
    ensures
        0 <= hist_count(s, key) <= hist_total(s),
    decreases s.len(),
{
    if s.len() != 0 {
        lemma_hist_count_le_total(s.drop_last(), key);
    }
}

/// A latency histogram with strictly increasing bucket keys.
#[derive(Debug)]
pub struct Histogram {
    pub buckets: Vec<(u64, u64)>,
}

impl Histogram {
    /// Well-formed: keys strictly increasing and the total small enough
    /// that one more insertion cannot overflow a count.
    pub open spec fn wf(self) -> bool {
        hist_keys_increasing(self.buckets@) && hist_total(self.buckets@) <= u64::MAX
    }

    /// The sum of all bucket counts.
    pub open spec fn spec_total(self) -> int {
        hist_total(self.buckets@)
    }

    /// The count recorded for one key.
    pub open spec fn spec_count(self, key: u64) -> int {
        hist_count(self.buckets@, key)
    }

    /// Creates an empty histogram.
    pub fn new() -> (h: Histogram)
        ensures
            h.wf(),
            h.spec_total() == 0,
            forall|key: u64| h.spec_count(key) == 0,
            h.buckets@.len() == 0,
    {
        Histogram { buckets: Vec::new() }
    }

    /// Accumulates one occurrence of `key`: that bucket's count grows by
    /// one, every other bucket is unchanged.
    pub fn insert(&mut self, key: u64)
        requires
            old(self).wf(),
            old(self).spec_total() < u64::MAX,
        ensures
            final(self).wf(),
            final(self).spec_total() == old(self).spec_total() + 1,
            final(self).spec_count(key) == old(self).spec_count(key) + 1,
            forall|k: u64| k != key ==> final(self).spec_count(k) == old(self).spec_count(k),
    {
        let mut idx: usize = 0;
        while idx < self.buckets.len() && self.buckets[idx].0 < key
            invariant
                idx <= self.buckets@.len(),
                forall|j: int| 0 <= j < idx ==> (#[trigger] self.buckets@[j]).0 < key,
                self == old(self),
            decreases self.buckets@.len() - idx,
        {
            idx = idx + 1;
        }
        let ghost pre = self.buckets@;
        let ghost i = idx as int;
        if idx < self.buckets.len() && self.buckets[idx].0 == key {
            let c = self.buckets[idx].1;
            proof {
                lemma_hist_count_le_total(pre, key);
                assert(pre =~= pre.subrange(0, i) + seq![pre[i]] + pre.subrange(
                    i + 1,
                    pre.len() as int,
                ));
                lemma_hist_split_facts(pre.subrange(0, i), pre[i], pre.subrange(
                    i + 1,
                    pre.len() as int,
                ));
                assert(hist_count(pre, key) >= pre[i].1) by {
                    lemma_hist_count_nonneg(pre.subrange(0, i), key);
                    lemma_hist_count_nonneg(pre.subrange(i + 1, pre.len() as int), key);
                }
            }
            self.buckets.set(idx, (key, c + 1));
            proof {
                assert(self.buckets@ =~= pre.subrange(0, i) + seq![(key, (c + 1) as u64)]
                    + pre.subrange(i + 1, pre.len() as int));
                lemma_hist_split_facts(pre.subrange(0, i), (key, (c + 1) as u64), pre.subrange(
                    i + 1,
                    pre.len() as int,
                ));
                assert(hist_keys_increasing(self.buckets@)) by {
                    assert(forall|j: int|
                        0 <= j < self.buckets@.len() ==> (#[trigger] self.buckets@[j]).0 == pre[
                        j].0);
                }
            }
        } else {
            proof {
                assert(pre =~= pre.subrange(0, i) + pre.subrange(i, pre.len() as int));
                lemma_hist_total_concat(pre.subrange(0, i), pre.subrange(i, pre.len() as int));
                assert(forall|k: u64|
                    hist_count(pre, k) == hist_count(pre.subrange(0, i), k) + hist_count(
                        pre.subrange(i, pre.len() as int),
                        k,
                    )) by {
                    assert forall|k: u64|
                        hist_count(pre, k) == hist_count(pre.subrange(0, i), k) + hist_count(
                            pre.subrange(i, pre.len() as int),
                            k,
                        ) by {
                        lemma_hist_count_concat(
                            pre.subrange(0, i),
                            pre.subrange(i, pre.len() as int),
                            k,
                        );
                    }
                }
            }
            self.buckets.insert(idx, (key, 1));
            proof {
                assert(self.buckets@ =~= pre.subrange(0, i) + seq![(key, 1u64)] + pre.subrange(
                    i,
                    pre.len() as int,
                ));
                lemma_hist_split_facts(pre.subrange(0, i), (key, 1u64), pre.subrange(
                    i,
                    pre.len() as int,
                ));
                assert(hist_keys_increasing(self.buckets@)) by {
                    assert forall|a: int, b: int|
                        0 <= a < b < self.buckets@.len() implies (
                    #[trigger] self.buckets@[a]).0 < (#[trigger] self.buckets@[b]).0 by {
                        if b < i {
                        } else if b == i {
                            assert(self.buckets@[a] == pre[a]);
                        } else if a < i {
                            assert(self.buckets@[a] == pre[a] && self.buckets@[b] == pre[b - 1]);
                            if a < b - 1 {
                            } else {
                                assert(pre[i].0 >= key && pre[i].0 != key);
                            }
                        } else if a == i {
                            assert(self.buckets@[b] == pre[b - 1]);
                            assert(pre[i].0 >= key && pre[i].0 != key);
                            if i < b - 1 {
                                assert(pre[i].0 < pre[b - 1].0);
                            }
                        } else {
                            assert(self.buckets@[a] == pre[a - 1] && self.buckets@[b] == pre[b
                                - 1]);
                        }
                    }
                }
            }
        }
    }

    /// Reads back the count recorded for one key.
    pub fn count(&self, key: u64) -> (c: u64)
        requires
            self.wf(),
        ensures
            c == self.spec_count(key),
    {
        let ghost s = self.buckets@;
        let mut idx: usize = 0;
        while idx < self.buckets.len()
            invariant
                idx <= s.len(),
                s == self.buckets@,
                self.wf(),
                hist_count(s.subrange(0, idx as int), key) == 0,
            decreases s.len() - idx,
        {
            proof {
                assert(s.subrange(0, idx + 1 as int).drop_last() =~= s.subrange(0, idx as int));
            }
            if self.buckets[idx].0 == key {
                proof {
                    assert(s =~= s.subrange(0, idx + 1 as int) + s.subrange(
                        idx + 1 as int,
                        s.len() as int,
                    ));
                    lemma_hist_count_concat(
                        s.subrange(0, idx + 1 as int),
                        s.subrange(idx + 1 as int, s.len() as int),
                        key,
                    );
                    assert(forall|j: int|
                        idx < j < s.len() ==> (#[trigger] s[j]).0 > s[idx as int].0);
                    lemma_hist_count_absent(s.subrange(idx + 1 as int, s.len() as int), key);
                }
                return self.buckets[idx].1;
            }
            idx = idx + 1;
        }
        proof {
            assert(s.subrange(0, s.len() as int) =~= s);
        }
        0
    }

    /// The sum of all bucket counts, executable form.
    pub fn total(&self) -> (t: u64)
        requires
            self.wf(),
        ensures
            t == self.spec_total(),
    {
        let ghost s = self.buckets@;
        let mut t: u64 = 0;
        let mut idx: usize = 0;
        while idx < self.buckets.len()
            invariant
                idx <= s.len(),
                s == self.buckets@,
                self.wf(),
                t == hist_total(s.subrange(0, idx as int)),
            decreases s.len() - idx,
        {
            proof {
                assert(s.subrange(0, idx + 1 as int).drop_last() =~= s.subrange(0, idx as int));
                assert(s =~= s.subrange(0, idx + 1 as int) + s.subrange(
                    idx + 1 as int,
                    s.len() as int,
                ));
                lemma_hist_total_concat(
                    s.subrange(0, idx + 1 as int),
                    s.subrange(idx + 1 as int, s.len() as int),
                );
                lemma_hist_total_nonneg(s.subrange(idx + 1 as int, s.len() as int));
            }
            t = t + self.buckets[idx].1;
            idx = idx + 1;
        }
        proof {
            assert(s.subrange(0, s.len() as int) =~= s);
        }
        t
    }

    /// Builds the histogram of a non-negative sample vector. The sum of all
    /// bucket counts equals the number of samples inserted, and each
    /// bucket's count is the number of samples that truncate to its key.
    pub fn from_samples(samples: &Vec<i64>) -> (h: Histogram)
        requires
            forall|i: int| 0 <= i < samples@.len() ==> 0 <= #[trigger] samples@[i],
        ensures
            h.wf(),
            h.spec_total() == samples@.len(),
            forall|key: u64| h.spec_count(key) == bucket_count_in(samples@, key),
    {
        let mut h = Histogram::new();
        let mut i: usize = 0;
        while i < samples.len()
            invariant
                i <= samples.len(),
                forall|j: int| 0 <= j < samples@.len() ==> 0 <= #[trigger] samples@[j],
                h.wf(),
                h.spec_total() == i,
                forall|key: u64|
                    h.spec_count(key) == bucket_count_in(samples@.subrange(0, i as int), key),
            decreases samples.len() - i,
        {
            let x = samples[i];
            h.insert((x / 1000) as u64);
            proof {
                assert forall|key: u64|
                    bucket_count_in(samples@.subrange(0, i + 1 as int), key) == bucket_count_in(
                        samples@.subrange(0, i as int),
                        key,
                    ) + if bucket_of(samples@[i as int]) == key {
                        1int
                    } else {
                        0int
                    } by {
                    assert(samples@.subrange(0, i + 1 as int).drop_last() =~= samples@.subrange(
                        0,
                        i as int,
                    ));
                }
            }
            i = i + 1;
        }
        proof {
            assert(samples@.subrange(0, samples@.len() as int) =~= samples@);
        }
        h
    }
}

proof fn lemma_hist_total_nonneg(s: Seq<(u64, u64)>)
    ensures
        0 <= hist_total(s),
    decreases s.len(),
{
    if s.len() != 0 {
        lemma_hist_total_nonneg(s.drop_last());
    }
}

proof fn lemma_hist_count_nonneg(s: Seq<(u64, u64)>, key: u64)
    ensures
        0 <= hist_count(s, key),
    decreases s.len(),
{
    if s.len() != 0 {
        lemma_hist_count_nonneg(s.drop_last(), key);
    }
}

/// A bucket sequence none of whose keys is `key` records count zero for it.
proof fn lemma_hist_count_absent(s: Seq<(u64, u64)>, key: u64)
    requires
        forall|j: int| 0 <= j < s.len() ==> (#[trigger] s[j]).0 != key,
    ensures
        hist_count(s, key) == 0,
    decreases s.len(),
{
    if s.len() != 0 {
        lemma_hist_count_absent(s.drop_last(), key);
    }
}

/// Totals and counts of a split `a + [mid] + b`.
proof fn lemma_hist_split_facts(a: Seq<(u64, u64)>, mid: (u64, u64), b: Seq<(u64, u64)>)
    ensures
        hist_total(a + seq![mid] + b) == hist_total(a) + mid.1 + hist_total(b),
        forall|key: u64|
            hist_count(a + seq![mid] + b, key) == hist_count(a, key) + hist_count(b, key) + if mid.0
                == key {
                mid.1 as int
            } else {
                0int
            },
{
    lemma_hist_total_concat(a, seq![mid]);
    lemma_hist_total_concat(a + seq![mid], b);
    lemma_hist_singleton(mid);
    assert forall|key: u64|
        hist_count(a + seq![mid] + b, key) == hist_count(a, key) + hist_count(b, key) + if mid.0
            == key {
            mid.1 as int
        } else {
            0int
        } by {
        lemma_hist_count_concat(a, seq![mid], key);
        lemma_hist_count_concat(a + seq![mid], b, key);
    }
}

} // verus!
