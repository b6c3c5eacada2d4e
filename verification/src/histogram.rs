//! The intensity histogram of an 8-bit grayscale image.

use vstd::prelude::*;

use crate::gray_image::GrayImage;

verus! {

/// One bin per 8-bit intensity value.
pub const HIST_ARRAY_SIZE: usize = 256;

/// `hist[v]` is the number of samples whose intensity is `v`.
pub type Histogram = [u64; 256];

/// How many times the value `v` occurs in `s`.
pub open spec fn count_of(s: Seq<u8>, v: int) -> nat
    decreases s.len(),
{
    if s.len() == 0 {
        0
    } else {
        count_of(s.drop_last(), v) + if s.last() == v {
            1nat
        } else {
            0nat
        }
    }
}

/// `h` is the histogram of the samples `s`.
pub open spec fn is_histogram_of(h: Seq<u64>, s: Seq<u8>) -> bool {
    &&& h.len() == 256
    &&& forall|v: int| 0 <= v < 256 ==> #[trigger] h[v] == count_of(s, v)
}

/// The sum of the first `k` bins of `h`.
pub open spec fn bins_sum(h: Seq<u64>, k: int) -> int
    decreases k,
{
    if k <= 0 {
        0
    } else {
        bins_sum(h, k - 1) + h[k - 1]
    }
}

/// A value occurs no more often than the sequence is long.
pub proof fn lemma_count_bounded(s: Seq<u8>, v: int)
    ensures
        count_of(s, v) <= s.len(),
    decreases s.len(),
{
    if s.len() > 0 {
        lemma_count_bounded(s.drop_last(), v);
    }
}

/// The counts of all 256 values add up to the length of the sequence.
pub proof fn lemma_counts_sum_to_len(s: Seq<u8>)
    ensures
        sum_counts(s, 256) == s.len(),
    decreases s.len(),
{
    if s.len() > 0 {
        let t = s.drop_last();
        lemma_counts_sum_to_len(t);
        lemma_sum_counts_step(s, 256);
    } else {
        lemma_sum_counts_empty(s, 256);
    }
}

proof fn lemma_sum_counts_empty(s: Seq<u8>, k: int)
    requires
        s.len() == 0,
    ensures
        sum_counts(s, k) == 0,
    decreases k,
{
    if k > 0 {
        lemma_sum_counts_empty(s, k - 1);
    }
}

/// The sum of the counts of the values `0..k` in `s`.
pub open spec fn sum_counts(s: Seq<u8>, k: int) -> int
    decreases k,
{
    if k <= 0 {
        0
    } else {
        sum_counts(s, k - 1) + count_of(s, k - 1)
    }
}

proof fn lemma_sum_counts_step(s: Seq<u8>, k: int)
    requires
        s.len() > 0,
        0 <= k <= 256,
    ensures
        sum_counts(s, k) == sum_counts(s.drop_last(), k) + if s.last() < k {
            1int
        } else {
            0int
        },
    decreases k,
{
    if k > 0 {
        lemma_sum_counts_step(s, k - 1);
    }
}

proof fn lemma_bins_sum_is_sum_counts(h: Seq<u64>, s: Seq<u8>, k: int)
    requires
        is_histogram_of(h, s),
        0 <= k <= 256,
    ensures
        bins_sum(h, k) == sum_counts(s, k),
    decreases k,
{
    if k > 0 {
        lemma_bins_sum_is_sum_counts(h, s, k - 1);
        assert(h[k - 1] == count_of(s, k - 1));
    }
}

/// A histogram with every bin at zero.
pub fn empty_histogram() -> (res: Histogram)
    ensures
        forall|v: int| 0 <= v < 256 ==> #[trigger] res@[v] == 0,
        is_histogram_of(res@, Seq::<u8>::empty()),
{
    let res: Histogram = [0u64; 256];
    assert(forall|v: int| 0 <= v < 256 ==> #[trigger] res@[v] == 0);
    res
}

/// Counts, for every intensity value, how many samples of the image have it.
pub fn histogram(image: &GrayImage) -> (res: Histogram)
    ensures
        is_histogram_of(res@, image.sample_seq()),
        bins_sum(res@, 256) == image.sample_seq().len(),
{
    let samples = image.samples();
    let mut hist: Histogram = [0u64; 256];
    let n: usize = samples.len();
    let mut i: usize = 0;
    assert(samples@.take(0) =~= Seq::<u8>::empty());
    while i < n
        invariant
            n == samples@.len(),
            samples@ == image.sample_seq(),
            0 <= i <= n,
            is_histogram_of(hist@, samples@.take(i as int)),
        decreases n - i,
    {
        let sample: u8 = samples[i];
        let idx: usize = sample as usize;
        let ghost prev = samples@.take(i as int);
        let ghost next = samples@.take(i + 1);
        assert(next.drop_last() =~= prev);
        assert(next.last() == sample);
        proof {
            lemma_count_bounded(prev, idx as int);
        }
        hist[idx] = hist[idx] + 1;
        i = i + 1;
        assert forall|v: int| 0 <= v < 256 implies #[trigger] hist@[v] == count_of(next, v) by {
            assert(count_of(next, v) == count_of(prev, v) + if sample == v {
                1nat
            } else {
                0nat
            });
        }
    }
    assert(samples@.take(n as int) =~= samples@);
    proof {
        lemma_bins_sum_is_sum_counts(hist@, samples@, 256);
        lemma_counts_sum_to_len(samples@);
    }
    hist
}

/// `count_of` counts: it is the number of times the value occurs in the
/// samples, as their multiset says.
pub proof fn law_count_is_the_number_of_occurrences(s: Seq<u8>, v: u8)
    ensures
        count_of(s, v as int) == s.to_multiset().count(v),
    decreases s.len(),
{
    broadcast use vstd::seq_lib::group_to_multiset_ensures;

    if s.len() == 0 {
        assert(s.to_multiset() =~= vstd::multiset::Multiset::empty());
    } else {
        let t = s.drop_last();
        law_count_is_the_number_of_occurrences(t, v);
        assert(t.push(s.last()) =~= s);
        assert(s.to_multiset() == t.to_multiset().insert(s.last()));
    }
}

} // verus!
