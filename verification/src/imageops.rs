//! Trusted boundary to the external image-processing library: geometric
//! resampling and grayscale conversion of an already-decoded image. Decoding
//! itself (file I/O) is left to the embedding application.

use vstd::prelude::*;

verus! {

/// Declares the external decoded-image type. A value of it is opaque here:
/// it only carries the decoded pixels from the embedding application to the
/// resampling call below.
#[verifier::external_type_specification]
#[verifier::external_body]
pub struct ExDynamicImage(image::DynamicImage);

/// Resamples `img` to exactly `w`-by-`h` pixels with the Lanczos3 filter,
/// converts the result to 8-bit grayscale, and returns the luminance samples
/// in row-major order: the sample of pixel `(x, y)` at index `y * w + x`.
///
/// Relies on `image::DynamicImage::resize_exact`, which returns an image of
/// exactly the requested dimensions; on `DynamicImage::to_luma8`, which
/// converts it, dimensions kept, to one 8-bit luminance channel per pixel;
/// and on `ImageBuffer::into_raw`, which hands out the flat row-major sample
/// buffer, of length `w * h` for a single-channel image.
#[verifier::external_body]
pub(crate) fn resize_luma(img: &image::DynamicImage, w: u32, h: u32) -> (r: Vec<u8>)
    requires
        1 <= w <= 65535,
        1 <= h <= 65535,
    ensures
        r@.len() == w * h,
{
    img.resize_exact(w, h, image::imageops::FilterType::Lanczos3).to_luma8().into_raw()
}

} // verus!
