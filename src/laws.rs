//! What holds of every histogram the engine returns.

use vstd::prelude::*;
use crate::spec::{
    sat, seq_min, seq_max, bucket_of, count_in, count_below, counts, histogram, zeros, merge,
    fold_chunks, total, BUCKETS,
};
use crate::lemmas::{lemma_bucket_bounds, lemma_min_max_bound, lemma_fold_chunks, lemma_count_flat};
use vstd::arithmetic::div_mod::lemma_div_is_ordered;

verus! {

proof fn lemma_count_le_len(s: Seq<u32>, lo: u32, range: int, b: int)
    ensures
        count_in(s, lo, range, b) <= s.len(),
    decreases s.len(),
{
    if s.len() > 0 {
        lemma_count_le_len(s.drop_last(), lo, range, b);
    }
}

proof fn lemma_count_below_step(s: Seq<u32>, lo: u32, range: int, n: int)
    requires
        s.len() > 0,
        n >= 0,
    ensures
        count_below(s, lo, range, n) == count_below(s.drop_last(), lo, range, n) + if 0
            <= bucket_of(s.last(), lo, range) < n {
            1int
        } else {
            0int
        },
    decreases n,
{
    if n > 0 {
        lemma_count_below_step(s, lo, range, n - 1);
    }
}

proof fn lemma_count_below_empty(s: Seq<u32>, lo: u32, range: int, n: int)
    requires
        s.len() == 0,
    ensures
        count_below(s, lo, range, n) == 0,
    decreases n,
{
    if n > 0 {
        lemma_count_below_empty(s, lo, range, n - 1);
    }
}

proof fn lemma_count_below_all(s: Seq<u32>, lo: u32, range: int)
    requires
        forall|i: int| 0 <= i < s.len() ==> lo <= #[trigger] s[i] && s[i] - lo <= range,
    ensures
        count_below(s, lo, range, BUCKETS as int) == s.len(),
    decreases s.len(),
{
    if s.len() > 0 {
        let p = s.drop_last();
        assert forall|i: int| 0 <= i < p.len() implies lo <= #[trigger] p[i] && p[i] - lo <= range by {
            assert(p[i] == s[i]);
        }
        lemma_count_below_all(p, lo, range);
        lemma_count_below_step(s, lo, range, BUCKETS as int);
        assert(lo <= s[s.len() - 1]);
        lemma_bucket_bounds(s.last(), lo, range);
    } else {
        lemma_count_below_empty(s, lo, range, BUCKETS as int);
    }
}

proof fn lemma_total_prefix(s: Seq<u32>, lo: u32, range: int, n: int)
    requires
        s.len() <= u32::MAX,
        0 <= n <= BUCKETS,
    ensures
        total(counts(s, lo, range).take(n)) == count_below(s, lo, range, n),
    decreases n,
{
    if n > 0 {
        lemma_total_prefix(s, lo, range, n - 1);
        lemma_count_le_len(s, lo, range, n - 1);
        assert(counts(s, lo, range).take(n).drop_last() =~= counts(s, lo, range).take(n - 1));
    }
}

/// Conservation: when no counter can saturate (at most `u32::MAX`
/// elements), the counters of the histogram add up to the number of
/// elements.
pub proof fn law_conservation(s: Seq<u32>)
    requires
        s.len() <= u32::MAX,
    ensures
        total(histogram(s)) == s.len(),
{
    let lo = seq_min(s);
    let range = seq_max(s) - seq_min(s);
    lemma_min_max_bound(s);
    lemma_count_below_all(s, lo, range);
    lemma_total_prefix(s, lo, range, BUCKETS as int);
    assert(counts(s, lo, range).take(BUCKETS as int) =~= histogram(s));
}

/// The histogram of no elements is all zeros.
pub proof fn law_empty()
    ensures
        histogram(Seq::<u32>::empty()) == zeros(),
{
    assert(histogram(Seq::<u32>::empty()) =~= zeros());
}

/// A sequence whose elements all equal `v` puts all its `n` elements in
/// bucket 0 (saturated at `u32::MAX`) and none elsewhere, whatever `v` is.
pub proof fn law_all_equal(s: Seq<u32>, v: u32)
    requires
        s.len() >= 1,
        forall|i: int| 0 <= i < s.len() ==> #[trigger] s[i] == v,
    ensures
        histogram(s)[0] == sat(s.len() as int),
        forall|b: int| 1 <= b < BUCKETS ==> #[trigger] histogram(s)[b] == 0,
{
    lemma_min_max_bound(s);
    assert(s[0] == v);
    lemma_min_max_attained(s);
    lemma_count_flat(s, seq_min(s));
}

proof fn lemma_min_max_attained(s: Seq<u32>)
    requires
        s.len() >= 1,
    ensures
        exists|i: int| 0 <= i < s.len() && s[i] == seq_min(s),
        exists|i: int| 0 <= i < s.len() && s[i] == seq_max(s),
    decreases s.len(),
{
    if s.len() == 1 {
        assert(s[0] == seq_min(s));
        assert(s[0] == seq_max(s));
    } else {
        let p = s.drop_last();
        lemma_min_max_attained(p);
        let i = choose|i: int| 0 <= i < p.len() && p[i] == seq_min(p);
        let j = choose|j: int| 0 <= j < p.len() && p[j] == seq_max(p);
        assert(s[i] == p[i]);
        assert(s[j] == p[j]);
        if s.last() < seq_min(p) {
            assert(s[s.len() - 1] == seq_min(s));
        } else {
            assert(s[i] == seq_min(s));
        }
        if s.last() > seq_max(p) {
            assert(s[s.len() - 1] == seq_max(s));
        } else {
            assert(s[j] == seq_max(s));
        }
    }
}

/// Bucket assignment keeps order: of two elements `x <= y` of `s`, `x`
/// lands in a bucket no higher than that of `y`, and both lie in
/// `0 ..= 255`.
pub proof fn law_monotonic_buckets(s: Seq<u32>, x: u32, y: u32)
    requires
        s.contains(x),
        s.contains(y),
        x <= y,
    ensures
        0 <= bucket_of(x, seq_min(s), seq_max(s) - seq_min(s)) <= bucket_of(
            y,
            seq_min(s),
            seq_max(s) - seq_min(s),
        ) <= 255,
{
    let lo = seq_min(s);
    let range = seq_max(s) - seq_min(s);
    lemma_min_max_bound(s);
    lemma_bucket_bounds(x, lo, range);
    lemma_bucket_bounds(y, lo, range);
    if range > 0 {
        lemma_div_is_ordered((x - lo) * 255, (y - lo) * 255, range);
    }
}

/// The saturating merge is associative.
pub proof fn law_merge_associative(a: Seq<u32>, b: Seq<u32>, c: Seq<u32>)
    requires
        a.len() == BUCKETS,
        b.len() == BUCKETS,
        c.len() == BUCKETS,
    ensures
        merge(merge(a, b), c) == merge(a, merge(b, c)),
{
    assert(merge(merge(a, b), c) =~= merge(a, merge(b, c)));
}

/// The saturating merge is commutative.
pub proof fn law_merge_commutative(a: Seq<u32>, b: Seq<u32>)
    requires
        a.len() == BUCKETS,
        b.len() == BUCKETS,
    ensures
        merge(a, b) == merge(b, a),
{
    assert(merge(a, b) =~= merge(b, a));
}

/// The all-zero histogram is the identity of the merge, on either side.
pub proof fn law_merge_identity(a: Seq<u32>)
    requires
        a.len() == BUCKETS,
    ensures
        merge(zeros(), a) == a,
        merge(a, zeros()) == a,
{
    assert(merge(zeros(), a) =~= a);
    assert(merge(a, zeros()) =~= a);
}

/// Chunk-size invariance: counting chunks of `c1` elements and merging
/// gives the same histogram as chunks of `c2` elements, and the same as one
/// sequential pass over the whole sequence.
pub proof fn law_chunk_size_invariance(s: Seq<u32>, c1: int, c2: int, lo: u32, range: int)
    requires
        c1 > 0,
        c2 > 0,
    ensures
        fold_chunks(s, c1, lo, range) == fold_chunks(s, c2, lo, range),
        fold_chunks(s, c1, lo, range) == counts(s, lo, range),
{
    lemma_fold_chunks(s, c1, lo, range);
    lemma_fold_chunks(s, c2, lo, range);
}

} // verus!
