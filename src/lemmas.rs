//! Facts about the model that the engine's proofs use.

use vstd::prelude::*;
use vstd::arithmetic::div_mod::{lemma_div_is_ordered, lemma_div_by_multiple, lemma_div_pos_is_pos};
use crate::spec::{sat, seq_min, seq_max, bucket_of, count_in, counts, fold_chunks, BUCKETS};

verus! {

/// Saturating twice is saturating once.
pub proof fn lemma_sat_add(a: int, b: int)
    requires
        a >= 0,
        b >= 0,
    ensures
        sat(sat(a) + sat(b)) == sat(a + b),
{
}

/// A value inside the range lands in a bucket between 0 and 255.
pub proof fn lemma_bucket_bounds(x: u32, lo: u32, range: int)
    requires
        lo <= x,
        x - lo <= range,
    ensures
        0 <= bucket_of(x, lo, range) <= 255,
{
    if range > 0 {
        let d: int = x - lo;
        lemma_div_pos_is_pos(d * 255, range);
        lemma_div_is_ordered(d * 255, range * 255, range);
        lemma_div_by_multiple(255, range);
        assert(range * 255 == 255 * range) by (nonlinear_arith);
    }
}

/// Counting over a concatenation adds the counts of the parts.
pub proof fn lemma_count_concat(a: Seq<u32>, b: Seq<u32>, lo: u32, range: int, k: int)
    ensures
        count_in(a + b, lo, range, k) == count_in(a, lo, range, k) + count_in(b, lo, range, k),
    decreases b.len(),
{
    if b.len() > 0 {
        lemma_count_concat(a, b.drop_last(), lo, range, k);
        assert((a + b).drop_last() =~= a + b.drop_last());
    }
}

/// The smallest and largest elements bound every element.
pub proof fn lemma_min_max_bound(s: Seq<u32>)
    ensures
        forall|i: int| 0 <= i < s.len() ==> seq_min(s) <= #[trigger] s[i] <= seq_max(s),
    decreases s.len(),
{
    if s.len() > 1 {
        lemma_min_max_bound(s.drop_last());
        assert forall|i: int| 0 <= i < s.len() implies seq_min(s) <= #[trigger] s[i] <= seq_max(s) by {
            if i < s.len() - 1 {
                assert(s[i] == s.drop_last()[i]);
            }
        }
    }
}

/// Counting chunk by chunk and merging gives the counts of the whole.
pub proof fn lemma_fold_chunks(s: Seq<u32>, c: int, lo: u32, range: int)
    requires
        c > 0,
    ensures
        fold_chunks(s, c, lo, range) == counts(s, lo, range),
    decreases s.len(),
{
    if s.len() == 0 {
        assert(fold_chunks(s, c, lo, range) =~= counts(s, lo, range));
    } else {
        let k = if s.len() < c {
            s.len() as int
        } else {
            c
        };
        lemma_fold_chunks(s.skip(k), c, lo, range);
        assert(s.take(k) + s.skip(k) =~= s);
        assert forall|b: int| 0 <= b < BUCKETS implies #[trigger] fold_chunks(s, c, lo, range)[b]
            == counts(s, lo, range)[b] by {
            lemma_count_concat(s.take(k), s.skip(k), lo, range, b);
            lemma_sat_add(
                count_in(s.take(k), lo, range, b) as int,
                count_in(s.skip(k), lo, range, b) as int,
            );
        }
        assert(fold_chunks(s, c, lo, range) =~= counts(s, lo, range));
    }
}

} // verus!

verus! {

/// With a range of zero every element counts in bucket 0.
pub proof fn lemma_count_flat(s: Seq<u32>, lo: u32)
    ensures
        forall|b: int| #[trigger] count_in(s, lo, 0, b) == if b == 0 { s.len() } else { 0 },
    decreases s.len(),
{
    if s.len() > 0 {
        lemma_count_flat(s.drop_last(), lo);
        assert forall|b: int| #[trigger] count_in(s, lo, 0, b) == if b == 0 { s.len() } else { 0 } by {
            assert(count_in(s.drop_last(), lo, 0, b) == if b == 0 { s.len() - 1 } else { 0 });
        }
    }
}

} // verus!
