//! The negative of an image: every intensity `v` becomes `255 - v`.

use vstd::prelude::*;

use crate::gray_image::GrayImage;
use crate::histogram::{count_of, is_histogram_of};

verus! {

/// The negative of the samples `s`.
pub open spec fn negated(s: Seq<u8>) -> Seq<u8> {
    Seq::new(s.len(), |i: int| (255 - s[i]) as u8)
}

/// Images whose intensities can be inverted.
pub trait Negative: Sized {
    /// Inverts the image in place.
    fn negative_inplace(&mut self);

    /// Returns the inverted image.
    fn negative(self) -> Self;
}

impl Negative for GrayImage {
    /// Every sample `v` becomes `255 - v`; the dimensions stay.
    fn negative_inplace(&mut self)
        ensures
            final(self)@.0 == old(self)@.0,
            final(self)@.1 == old(self)@.1,
            final(self)@.2 == negated(old(self)@.2),
    {
        let n: usize = self.samples().len();
        let ghost orig = self@;
        let mut i: usize = 0;
        while i < n
            invariant
                n == orig.2.len(),
                0 <= i <= n,
                self@.0 == orig.0,
                self@.1 == orig.1,
                self@.2.len() == n,
                forall|j: int| 0 <= j < i ==> #[trigger] self@.2[j] == (255 - orig.2[j]) as u8,
                forall|j: int| i <= j < n ==> #[trigger] self@.2[j] == orig.2[j],
            decreases n - i,
        {
            let v: u8 = self.samples()[i];
            self.set_sample(i, 255 - v);
            i = i + 1;
        }
        assert(self@.2 =~= negated(orig.2));
    }

    /// The inverted image, of the same dimensions.
    fn negative(self) -> (res: GrayImage)
        ensures
            res@.0 == self@.0,
            res@.1 == self@.1,
            res@.2 == negated(self@.2),
    {
        let mut img = self;
        img.negative_inplace();
        img
    }
}


/// Inverting twice gives the samples back.
pub proof fn lemma_negated_involution(s: Seq<u8>)
    ensures
        negated(negated(s)) == s,
{
    assert(negated(negated(s)) =~= s);
}

/// Inverting an image twice gives the image back.
pub proof fn law_negative_involution(before: GrayImage, once: GrayImage, twice: GrayImage)
    requires
        once@ == (before@.0, before@.1, negated(before@.2)),
        twice@ == (once@.0, once@.1, negated(once@.2)),
    ensures
        twice@ == before@,
{
    lemma_negated_involution(before@.2);
}


proof fn lemma_count_negated(s: Seq<u8>, v: int)
    requires
        0 <= v < 256,
    ensures
        count_of(negated(s), 255 - v) == count_of(s, v),
    decreases s.len(),
{
    if s.len() > 0 {
        assert(negated(s).drop_last() =~= negated(s.drop_last()));
        lemma_count_negated(s.drop_last(), v);
    }
}

/// The histogram of the negative is the histogram of the image read
/// backwards: bin `255 - v` of the one is bin `v` of the other.
pub proof fn law_negative_mirrors_histogram(
    samples: Seq<u8>,
    hist: Seq<u64>,
    negative_hist: Seq<u64>,
)
    requires
        is_histogram_of(hist, samples),
        is_histogram_of(negative_hist, negated(samples)),
    ensures
        forall|v: int| 0 <= v < 256 ==> #[trigger] negative_hist[255 - v] == hist[v],
{
    assert forall|v: int| 0 <= v < 256 implies #[trigger] negative_hist[255 - v] == hist[v] by {
        lemma_count_negated(samples, v);
        assert(negative_hist[255 - v] == count_of(negated(samples), 255 - v));
        assert(hist[v] == count_of(samples, v));
    }
}

/// The negative of a sample and the sample add up to 255, and the negative
/// has as many samples.
pub proof fn law_negative_complements_each_sample(s: Seq<u8>)
    ensures
        negated(s).len() == s.len(),
        forall|i: int| 0 <= i < s.len() ==> #[trigger] negated(s)[i] + s[i] == 255,
{
}

} // verus!
