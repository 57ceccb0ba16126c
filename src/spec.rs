//! The mathematical model of the histogram.

use vstd::prelude::*;

verus! {

/// Number of buckets of every histogram.
pub const BUCKETS: usize = 256;

/// The largest bucket index, which is also the scale factor of the mapping.
pub const TOP: u64 = 255;

/// `n` clamped to the counter type: what a saturating counter holds after
/// `n` increments from zero.
pub open spec fn sat(n: int) -> u32 {
    if n > u32::MAX {
        u32::MAX
    } else if n < 0 {
        0
    } else {
        n as u32
    }
}

/// Smallest element of a non-empty sequence (0 for the empty one).
pub open spec fn seq_min(s: Seq<u32>) -> u32
    decreases s.len(),
{
    if s.len() == 0 {
        0
    } else if s.len() == 1 {
        s[0]
    } else {
        let m = seq_min(s.drop_last());
        if s.last() < m {
            s.last()
        } else {
            m
        }
    }
}

/// Largest element of a non-empty sequence (0 for the empty one).
pub open spec fn seq_max(s: Seq<u32>) -> u32
    decreases s.len(),
{
    if s.len() == 0 {
        0
    } else if s.len() == 1 {
        s[0]
    } else {
        let m = seq_max(s.drop_last());
        if s.last() > m {
            s.last()
        } else {
            m
        }
    }
}

/// Bucket of `x` when the values `lo ..= lo + range` are spread over the
/// buckets; a range of zero puts everything in bucket 0.
pub open spec fn bucket_of(x: u32, lo: u32, range: int) -> int {
    if range <= 0 {
        0
    } else {
        ((x - lo) * 255) / range
    }
}

/// How many elements of `s` fall in bucket `b`.
pub open spec fn count_in(s: Seq<u32>, lo: u32, range: int, b: int) -> nat
    decreases s.len(),
{
    if s.len() == 0 {
        0
    } else {
        count_in(s.drop_last(), lo, range, b) + if bucket_of(s.last(), lo, range) == b {
            1nat
        } else {
            0nat
        }
    }
}

/// The saturated bucket counts of `s` for a fixed mapping.
pub open spec fn counts(s: Seq<u32>, lo: u32, range: int) -> Seq<u32> {
    Seq::new(BUCKETS as nat, |b: int| sat(count_in(s, lo, range, b) as int))
}

/// The histogram of `s`: the mapping spreads `seq_min(s) ..= seq_max(s)`
/// over the buckets.
pub open spec fn histogram(s: Seq<u32>) -> Seq<u32> {
    counts(s, seq_min(s), seq_max(s) - seq_min(s))
}

/// The all-zero histogram.
pub open spec fn zeros() -> Seq<u32> {
    Seq::new(BUCKETS as nat, |b: int| 0u32)
}

/// Elementwise saturating sum of two histograms.
pub open spec fn merge(a: Seq<u32>, b: Seq<u32>) -> Seq<u32> {
    Seq::new(BUCKETS as nat, |i: int| sat(a[i] + b[i]))
}

/// Splitting `s` into consecutive chunks of `c` elements (the last one
/// shorter), counting each chunk on its own and merging the chunk results.
pub open spec fn fold_chunks(s: Seq<u32>, c: int, lo: u32, range: int) -> Seq<u32>
    decreases s.len(),
{
    if s.len() == 0 || c <= 0 {
        zeros()
    } else {
        let k = if s.len() < c {
            s.len() as int
        } else {
            c
        };
        merge(counts(s.take(k), lo, range), fold_chunks(s.skip(k), c, lo, range))
    }
}

/// Sum of the counters of a histogram.
pub open spec fn total(h: Seq<u32>) -> int
    decreases h.len(),
{
    if h.len() == 0 {
        0
    } else {
        total(h.drop_last()) + h.last()
    }
}

} // verus!

verus! {

/// Number of elements of `s` whose bucket lies below `n`.
pub open spec fn count_below(s: Seq<u32>, lo: u32, range: int, n: int) -> int
    decreases n,
{
    if n <= 0 {
        0
    } else {
        count_below(s, lo, range, n - 1) + count_in(s, lo, range, n - 1)
    }
}

} // verus!
