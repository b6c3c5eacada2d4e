//! An image as loaded from disk, its transformed version and the histogram
//! of the transformed version, which always agree.

use vstd::prelude::*;

use crate::gray_image::GrayImage;
use crate::histogram::{histogram, is_histogram_of, Histogram};
use crate::pipeline::{accepts_active_steps, is_result_of_run, Pipeline};

verus! {

/// An image together with its histogram.
struct AnalyzedImage {
    image: GrayImage,
    histogram: Histogram,
}

impl AnalyzedImage {
    /// The histogram is always that of the image.
    #[verifier::type_invariant]
    spec fn histogram_matches(self) -> bool {
        is_histogram_of(self.histogram@, self.image.sample_seq())
    }

    fn new(image: GrayImage) -> (res: AnalyzedImage)
        ensures
            res.image == image,
    {
        let histogram = histogram(&image);
        AnalyzedImage { image, histogram }
    }
}

/// The original image, the image after the pipeline, and the histogram of
/// the latter.
pub struct LoadedImage {
    original: GrayImage,
    transformed: AnalyzedImage,
}

impl LoadedImage {
    /// The image as loaded.
    pub closed spec fn original_spec(self) -> GrayImage {
        self.original
    }

    /// The image after the pipeline.
    pub closed spec fn transformed_spec(self) -> GrayImage {
        self.transformed.image
    }

    /// The histogram held.
    pub closed spec fn histogram_spec(self) -> Seq<u64> {
        self.transformed.histogram@
    }

    /// Keeps `original`, runs `pipeline` on a copy of it (each active step by
    /// a call of `apply`), and computes the histogram of the result.
    pub fn from_original<T, F: Fn(&T, GrayImage) -> GrayImage>(
        original: GrayImage,
        pipeline: &Pipeline<T>,
        apply: F,
    ) -> (res: LoadedImage)
        requires
            accepts_active_steps(pipeline@, apply),
        ensures
            res.original_spec() == original,
            is_result_of_run(pipeline@, apply, original, res.transformed_spec()),
            is_histogram_of(res.histogram_spec(), res.transformed_spec().sample_seq()),
    {
        let analyzed = Self::transform_original(&original, pipeline, apply);
        proof {
            use_type_invariant(&analyzed);
        }
        LoadedImage { original, transformed: analyzed }
    }

    /// Runs `pipeline` again on the original, as the pipeline is now, and
    /// recomputes the histogram.
    pub fn retransform<T, F: Fn(&T, GrayImage) -> GrayImage>(
        &mut self,
        pipeline: &Pipeline<T>,
        apply: F,
    )
        requires
            accepts_active_steps(pipeline@, apply),
        ensures
            final(self).original_spec() == old(self).original_spec(),
            is_result_of_run(pipeline@, apply, old(self).original_spec(), final(self).transformed_spec()),
            is_histogram_of(final(self).histogram_spec(), final(self).transformed_spec().sample_seq()),
    {
        let analyzed = Self::transform_original(&self.original, pipeline, apply);
        proof {
            use_type_invariant(&analyzed);
        }
        self.transformed = analyzed;
    }

    /// Runs `pipeline` on a copy of `original`, with the histogram of the result.
    fn transform_original<T, F: Fn(&T, GrayImage) -> GrayImage>(
        original: &GrayImage,
        pipeline: &Pipeline<T>,
        apply: F,
    ) -> (res: AnalyzedImage)
        requires
            accepts_active_steps(pipeline@, apply),
        ensures
            is_result_of_run(pipeline@, apply, *original, res.image),
    {
        let transformed = pipeline.apply_to(original.clone(), apply);
        AnalyzedImage::new(transformed)
    }

    /// The image as loaded.
    pub fn original(&self) -> (res: &GrayImage)
        ensures
            *res == self.original_spec(),
    {
        &self.original
    }

    /// The image after the pipeline.
    pub fn transformed(&self) -> (res: &GrayImage)
        ensures
            *res == self.transformed_spec(),
    {
        &self.transformed.image
    }

    /// The histogram of the image after the pipeline.
    pub fn histogram(&self) -> (res: &Histogram)
        ensures
            res@ == self.histogram_spec(),
            is_histogram_of(res@, self.transformed_spec().sample_seq()),
    {
        proof {
            use_type_invariant(&self.transformed);
        }
        &self.transformed.histogram
    }
}

/// Whether an image tab has an image, and which.
pub enum ImageLoadState {
    /// No image was chosen yet.
    Empty,
    /// An image is loaded.
    Loaded(Box<LoadedImage>),
    /// Loading failed, with this message.
    Failed(String),
}

impl ImageLoadState {
    /// The histogram to show: that of the transformed image when one is
    /// loaded, none otherwise.
    pub fn histogram(&self) -> (res: Option<&Histogram>)
        ensures
            match self {
                ImageLoadState::Loaded(img) => res matches Some(h) && h@ == img.histogram_spec()
                    && is_histogram_of(h@, img.transformed_spec().sample_seq()),
                _ => res is None,
            },
    {
        match self {
            ImageLoadState::Loaded(image) => Some(image.histogram()),
            _ => None,
        }
    }
}

} // verus!
