//! Point transforms of 8-bit intensities given as a lookup table: the new
//! value of a sample depends on its old value alone. Gamma correction and
//! the logarithmic transform are point transforms of this kind; the table
//! holds the transformed value of each of the 256 intensities.

use vstd::prelude::*;

use crate::gray_image::GrayImage;
use crate::negative::negated;

verus! {

/// A lookup table: entry `v` is the new value of intensity `v`.
pub type IntensityTable = [u8; 256];

/// The samples `s` with each value `v` replaced by `table[v]`.
pub open spec fn mapped(s: Seq<u8>, table: Seq<u8>) -> Seq<u8> {
    Seq::new(s.len(), |i: int| table[s[i] as int])
}

/// The table that applies `first`, then `second`.
pub open spec fn composed(first: Seq<u8>, second: Seq<u8>) -> Seq<u8> {
    Seq::new(256, |v: int| second[first[v] as int])
}

/// The table of the negative: `v` becomes `255 - v`.
pub open spec fn negative_table() -> Seq<u8> {
    Seq::new(256, |v: int| (255 - v) as u8)
}

/// Replaces each sample `v` of the image by `table[v]`; the dimensions stay.
pub fn map_intensities_inplace(image: &mut GrayImage, table: &IntensityTable)
    ensures
        final(image)@.0 == old(image)@.0,
        final(image)@.1 == old(image)@.1,
        final(image)@.2 == mapped(old(image)@.2, table@),
        final(image)@.2.len() == old(image)@.2.len(),
        forall|i: int|
            0 <= i < old(image)@.2.len() ==> #[trigger] final(image)@.2[i] == table@[old(
                image,
            )@.2[i] as int],
{
    let n: usize = image.samples().len();
    let ghost orig = image@;
    let mut i: usize = 0;
    while i < n
        invariant
            n == orig.2.len(),
            0 <= i <= n,
            table@.len() == 256,
            image@.0 == orig.0,
            image@.1 == orig.1,
            image@.2.len() == n,
            forall|j: int| 0 <= j < i ==> #[trigger] image@.2[j] == table@[orig.2[j] as int],
            forall|j: int| i <= j < n ==> #[trigger] image@.2[j] == orig.2[j],
        decreases n - i,
    {
        let v: u8 = image.samples()[i];
        let w: u8 = table[v as usize];
        image.set_sample(i, w);
        i = i + 1;
    }
    assert(image@.2 =~= mapped(orig.2, table@));
}

/// The image with each sample `v` replaced by `table[v]`.
pub fn map_intensities(image: GrayImage, table: &IntensityTable) -> (res: GrayImage)
    ensures
        res@.0 == image@.0,
        res@.1 == image@.1,
        res@.2 == mapped(image@.2, table@),
        res@.2.len() == image@.2.len(),
        forall|i: int|
            0 <= i < image@.2.len() ==> #[trigger] res@.2[i] == table@[image@.2[i] as int],
{
    let mut img = image;
    map_intensities_inplace(&mut img, table);
    img
}

/// Mapping by the negative table is the negative.
pub proof fn law_negative_is_a_point_transform(s: Seq<u8>)
    ensures
        mapped(s, negative_table()) == negated(s),
{
    assert(mapped(s, negative_table()) =~= negated(s));
}

/// Mapping by one table and then by another is mapping by their composition.
pub proof fn law_mapping_composes(s: Seq<u8>, first: Seq<u8>, second: Seq<u8>)
    requires
        first.len() == 256,
        second.len() == 256,
    ensures
        mapped(mapped(s, first), second) == mapped(s, composed(first, second)),
{
    assert(mapped(mapped(s, first), second) =~= mapped(s, composed(first, second)));
}

/// Mapping replaces every sample by the table's entry at that sample's own
/// value, and keeps the number of samples.
pub proof fn law_mapping_looks_up_each_sample(s: Seq<u8>, table: Seq<u8>)
    ensures
        mapped(s, table).len() == s.len(),
        forall|i: int| 0 <= i < s.len() ==> #[trigger] mapped(s, table)[i] == table[s[i] as int],
{
}

} // verus!
