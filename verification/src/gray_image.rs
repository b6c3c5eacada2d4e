//! An 8-bit grayscale image: its dimensions and its raw sample buffer.

use vstd::prelude::*;

verus! {

/// A single-channel 8-bit image. `samples` is the raw buffer in row-major
/// order; it holds at least `width * height` samples.
pub struct GrayImage {
    width: u32,
    height: u32,
    samples: Vec<u8>,
}

/// The abstract value of an image: its width, its height and its samples.
pub type GrayImageView = (u32, u32, Seq<u8>);

/// Whether `len` samples are enough for a `width` x `height` image.
pub open spec fn fits(width: u32, height: u32, len: int) -> bool {
    width * height <= len
}

impl View for GrayImage {
    type V = GrayImageView;

    closed spec fn view(&self) -> GrayImageView {
        (self.width, self.height, self.samples@)
    }
}

impl GrayImage {
    /// The samples of the image, as a sequence.
    pub open spec fn sample_seq(&self) -> Seq<u8> {
        self@.2
    }

    /// Well-formedness: the buffer is big enough for the dimensions.
    pub open spec fn wf(&self) -> bool {
        fits(self@.0, self@.1, self@.2.len() as int)
    }

    /// Builds an image from a raw buffer. Returns `None` when the buffer is
    /// smaller than `width * height` (or that product does not fit a `usize`).
    pub fn from_raw(width: u32, height: u32, samples: Vec<u8>) -> (res: Option<GrayImage>)
        ensures
            match res {
                Some(img) => fits(width, height, samples@.len() as int) && img@ == (
                    width,
                    height,
                    samples@,
                ) && img.wf(),
                None => !fits(width, height, samples@.len() as int),
            },
    {
        let len: usize = samples.len();
        let w: usize = width as usize;
        let h: usize = height as usize;
        match w.checked_mul(h) {
            Some(needed) => {
                if needed <= len {
                    Some(GrayImage { width, height, samples })
                } else {
                    None
                }
            },
            None => {
                None
            },
        }
    }

    /// The width in pixels.
    pub fn width(&self) -> (res: u32)
        ensures
            res == self@.0,
    {
        self.width
    }

    /// The height in pixels.
    pub fn height(&self) -> (res: u32)
        ensures
            res == self@.1,
    {
        self.height
    }

    /// The raw sample buffer.
    pub fn samples(&self) -> (res: &[u8])
        ensures
            res@ == self@.2,
    {
        self.samples.as_slice()
    }

    /// Gives the raw sample buffer back.
    pub fn into_samples(self) -> (res: Vec<u8>)
        ensures
            res@ == self@.2,
    {
        self.samples
    }

    /// Replaces the sample at `index` by `value`.
    pub(crate) fn set_sample(&mut self, index: usize, value: u8)
        requires
            index < old(self)@.2.len(),
        ensures
            final(self)@ == (old(self)@.0, old(self)@.1, old(self)@.2.update(index as int, value)),
    {
        self.samples.set(index, value);
    }
}

impl Clone for GrayImage {
    /// A copy of the image.
    fn clone(&self) -> (res: GrayImage)
        ensures
            res@ == self@,
    {
        GrayImage { width: self.width, height: self.height, samples: self.samples.clone() }
    }
}

/// The image that decoding `data` gives, as width, height and luma samples,
/// or the decoder's error message: what `image::guess_format` followed by
/// `image::load_from_memory_with_format` and `DynamicImage::to_luma8`
/// computes from the bytes. Both steps use only the formats built into the
/// `image` crate and its default limits, so the outcome depends on the bytes
/// alone.
pub uninterp spec fn luma8_decoding(data: Seq<u8>) -> Result<GrayImageView, Seq<char>>;

/// Decodes encoded image bytes (PNG, JPEG, ...) into an 8-bit grayscale image.
/// Trusted: recognises the format from the leading bytes with
/// `image::guess_format`, decodes with `image::load_from_memory_with_format`
/// (which reads no registered hooks for a built-in format), converts with
/// `DynamicImage::to_luma8`, and returns the error's text on failure. The
/// contract claims that the outcome is `luma8_decoding(data)`, and that a
/// decoded buffer holds `width * height` samples at least (every
/// `image::ImageBuffer` does).
#[verifier::external_body]
fn decode_luma8(data: &[u8]) -> (res: Result<GrayImage, String>)
    ensures
        match res {
            Ok(img) => luma8_decoding(data@) == Ok::<GrayImageView, Seq<char>>(img@) && img.wf(),
            Err(msg) => luma8_decoding(data@) == Err::<GrayImageView, Seq<char>>(msg@),
        },
{
    let decoded = match image::guess_format(data) {
        Ok(format) => image::load_from_memory_with_format(data, format),
        Err(err) => Err(err),
    };
    match decoded {
        Ok(img) => {
            let gray = img.to_luma8();
            Ok(GrayImage { width: gray.width(), height: gray.height(), samples: gray.into_raw() })
        },
        Err(err) => Err(err.to_string()),
    }
}

/// The image that decoding `data` as the file at `path` gives, as width,
/// height and luma samples, or the error's message: what
/// `image::ImageFormat::from_path` (the format named by the path's
/// extension) followed by `image::load_from_memory_with_format` and
/// `DynamicImage::to_luma8` computes. Only formats built into the `image`
/// crate and its default limits take part, so the outcome depends on the
/// path's text and the bytes alone.
pub uninterp spec fn luma8_decoding_at(path: Seq<char>, data: Seq<u8>) -> Result<
    GrayImageView,
    Seq<char>,
>;

/// Decodes the bytes of the file at `path` into an 8-bit grayscale image, in
/// the format that the path's extension names. Trusted: takes the format
/// from `image::ImageFormat::from_path`, decodes with
/// `image::load_from_memory_with_format`, converts with
/// `DynamicImage::to_luma8`, and returns the error's text on failure. The
/// contract claims that the outcome is `luma8_decoding_at(path, data)`, and
/// that a decoded buffer holds `width * height` samples at least.
#[verifier::external_body]
fn decode_luma8_at(path: &str, data: &[u8]) -> (res: Result<GrayImage, String>)
    ensures
        match res {
            Ok(img) => luma8_decoding_at(path@, data@) == Ok::<GrayImageView, Seq<char>>(img@)
                && img.wf(),
            Err(msg) => luma8_decoding_at(path@, data@) == Err::<GrayImageView, Seq<char>>(msg@),
        },
{
    let decoded = match image::ImageFormat::from_path(path) {
        Ok(format) => image::load_from_memory_with_format(data, format),
        Err(err) => Err(err),
    };
    match decoded {
        Ok(img) => {
            let gray = img.to_luma8();
            Ok(GrayImage { width: gray.width(), height: gray.height(), samples: gray.into_raw() })
        },
        Err(err) => Err(err.to_string()),
    }
}

/// Loads the bytes read from the file at `path` as 8-bit grayscale, in the
/// format that the path's extension names. On failure the message is the
/// decoder's.
pub fn load_gray_image_from_file_bytes(path: &str, data: &[u8]) -> (res: Result<GrayImage, String>)
    ensures
        res is Ok <==> luma8_decoding_at(path@, data@) is Ok,
        res matches Ok(img) ==> luma8_decoding_at(path@, data@) == Ok::<GrayImageView, Seq<char>>(
            img@,
        ) && img.wf(),
        res matches Err(msg) ==> luma8_decoding_at(path@, data@) == Err::<GrayImageView, Seq<char>>(
            msg@,
        ),
{
    decode_luma8_at(path, data)
}

/// The text put before a decoder's message when an image cannot be loaded.
pub open spec fn load_error_prefix() -> Seq<char> {
    "Ошибка. Не удалось загрузить изображение: "@
}

/// Loads an image from encoded bytes as 8-bit grayscale. On failure the
/// message is the decoder's, after `load_error_prefix()`.
pub fn load_gray_image_from_memory(data: &[u8]) -> (res: Result<GrayImage, String>)
    ensures
        res is Ok <==> luma8_decoding(data@) is Ok,
        res matches Ok(img) ==> luma8_decoding(data@) == Ok::<GrayImageView, Seq<char>>(img@)
            && img.wf(),
        res matches Err(msg) ==> (luma8_decoding(data@) matches Err(e) && msg@ == load_error_prefix()
            + e),
{
    let decoded = decode_luma8(data);
    load_result(decoded)
}

/// What loading makes of the decoder's outcome: a decoded image as it is;
/// a decoder's message after `load_error_prefix()`.
pub fn load_result(decoded: Result<GrayImage, String>) -> (res: Result<GrayImage, String>)
    ensures
        match decoded {
            Ok(img) => res == Ok::<GrayImage, String>(img),
            Err(e) => res matches Err(msg) && msg@ == load_error_prefix() + e@,
        },
{
    match decoded {
        Ok(img) => Ok(img),
        Err(err) => {
            let mut msg = String::from_str("Ошибка. Не удалось загрузить изображение: ");
            msg.append(err.as_str());
            Err(msg)
        },
    }
}

} // verus!
