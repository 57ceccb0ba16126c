//! The histogram engine: range scan, chunk-local counting, merge.

use vstd::prelude::*;
use rayon::iter::ParallelIterator;
use rayon::slice::ParallelSlice;
use crate::spec::{sat, seq_min, seq_max, bucket_of, count_in, counts, histogram, merge, fold_chunks, BUCKETS, TOP};
use crate::lemmas::{lemma_sat_add, lemma_bucket_bounds, lemma_min_max_bound, lemma_fold_chunks, lemma_count_flat};

verus! {

/// Chunk length used by `histogram_256`.
pub const CHUNK_SIZE: usize = 65536;

/// Smallest and largest element of a non-empty slice.
fn min_max(nums: &[u32]) -> (r: (u32, u32))
    requires
        nums@.len() > 0,
    ensures
        r.0 == seq_min(nums@),
        r.1 == seq_max(nums@),
{
    let mut lo: u32 = nums[0];
    let mut hi: u32 = nums[0];
    let mut j: usize = 1;
    assert(nums@.take(1) =~= seq![nums@[0]]);
    while j < nums.len()
        invariant
            1 <= j <= nums@.len(),
            lo == seq_min(nums@.take(j as int)),
            hi == seq_max(nums@.take(j as int)),
        decreases nums@.len() - j,
    {
        let x = nums[j];
        assert(nums@.take(j + 1).drop_last() =~= nums@.take(j as int));
        if x < lo {
            lo = x;
        }
        if x > hi {
            hi = x;
        }
        j += 1;
    }
    assert(nums@.take(j as int) =~= nums@);
    (lo, hi)
}

/// Counts of one chunk, each element mapped to its bucket for the range
/// `lo ..= lo + range`.
pub fn chunk_counts(chunk: &[u32], lo: u32, range: u64) -> (r: [u32; 256])
    requires
        range > 0,
        forall|i: int| 0 <= i < chunk@.len() ==> lo <= #[trigger] chunk@[i] && chunk@[i] - lo <= range,
    ensures
        r@ == counts(chunk@, lo, range as int),
{
    let mut local = [0u32; 256];
    assert(local@ =~= counts(chunk@.take(0), lo, range as int));
    let mut j: usize = 0;
    while j < chunk.len()
        invariant
            j <= chunk@.len(),
            range > 0,
            forall|i: int| 0 <= i < chunk@.len() ==> lo <= #[trigger] chunk@[i] && chunk@[i] - lo <= range,
            local@ == counts(chunk@.take(j as int), lo, range as int),
        decreases chunk@.len() - j,
    {
        let x = chunk[j];
        proof {
            lemma_bucket_bounds(x, lo, range as int);
        }
        let idx: u64 = (((x - lo) as u64) * TOP) / range;
        assert(idx == bucket_of(x, lo, range as int));
        let old_local = local;
        local[idx as usize] = local[idx as usize].saturating_add(1);
        proof {
            let s = chunk@.take(j + 1);
            assert(s.drop_last() =~= chunk@.take(j as int));
            assert forall|b: int| 0 <= b < BUCKETS implies #[trigger] local@[b]
                == counts(s, lo, range as int)[b] by {
                lemma_sat_add(count_in(s.drop_last(), lo, range as int, b) as int, 1);
            }
            assert(local@ =~= counts(s, lo, range as int));
        }
        j += 1;
    }
    assert(chunk@.take(j as int) =~= chunk@);
    local
}

/// Elementwise saturating sum of two histograms.
pub fn merge_counts(a: [u32; 256], b: [u32; 256]) -> (r: [u32; 256])
    ensures
        r@ == merge(a@, b@),
{
    let mut r = a;
    let mut i: usize = 0;
    while i < BUCKETS
        invariant
            i <= BUCKETS,
            r@.len() == BUCKETS,
            forall|k: int| 0 <= k < i ==> #[trigger] r@[k] == sat(a@[k] + b@[k]),
            forall|k: int| i <= k < BUCKETS ==> #[trigger] r@[k] == a@[k],
        decreases BUCKETS - i,
    {
        r[i] = r[i].saturating_add(b[i]);
        i += 1;
    }
    assert(r@ =~= merge(a@, b@));
    r
}

/// Relies on rayon's `par_chunks`, which yields the consecutive slices of
/// `chunk` elements of `nums` (the last one shorter), and on `reduce`, which
/// combines the mapped items with `op` in their order, inserting `identity()`
/// where it likes. `merge_counts` is associative and has `[0; 256]` as its
/// identity (see the laws module), so any such reduction equals the fold below.
#[verifier::external_body]
fn reduce_chunks(nums: &[u32], chunk: usize, lo: u32, range: u64) -> (r: [u32; 256])
    requires
        chunk > 0,
        range > 0,
        forall|i: int| 0 <= i < nums@.len() ==> lo <= #[trigger] nums@[i] && nums@[i] - lo <= range,
    ensures
        r@ == fold_chunks(nums@, chunk as int, lo, range as int),
{
    nums.par_chunks(chunk)
        .map(|c| chunk_counts(c, lo, range))
        .reduce(|| [0u32; 256], |a, b| merge_counts(a, b))
}

/// The histogram of `nums`, counting chunks of `chunk_size` elements in
/// parallel. The result does not depend on `chunk_size`.
pub fn histogram_256_chunked(nums: &[u32], chunk_size: usize) -> (r: [u32; 256])
    requires
        chunk_size > 0,
    ensures
        r@ == histogram(nums@),
{
    if nums.len() == 0 {
        let h = [0u32; 256];
        assert(h@ =~= histogram(nums@));
        return h;
    }
    let (mn, mx) = min_max(nums);
    proof {
        lemma_min_max_bound(nums@);
    }
    if mn == mx {
        let mut h = [0u32; 256];
        h[0] = if nums.len() > u32::MAX as usize {
            u32::MAX
        } else {
            nums.len() as u32
        };
        proof {
            lemma_count_flat(nums@, mn);
        }
        assert(h@ =~= histogram(nums@));
        return h;
    }
    let range: u64 = (mx - mn) as u64;
    let h = reduce_chunks(nums, chunk_size, mn, range);
    proof {
        lemma_fold_chunks(nums@, chunk_size as int, mn, range as int);
    }
    h
}

/// The histogram of `nums`: bucket `b` counts the elements `x` with
/// `(x - min) * 255 / (max - min) == b`, saturated at `u32::MAX`; when all
/// elements are equal they all count in bucket 0.
pub fn histogram_256(nums: &[u32]) -> (r: [u32; 256])
    ensures
        r@ == histogram(nums@),
{
    histogram_256_chunked(nums, CHUNK_SIZE)
}

} // verus!
