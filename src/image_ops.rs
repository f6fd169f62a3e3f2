//! The `image` crate's types as this library sees them, and the calls into
//! it that the resampling step makes.

use image::GenericImageView;
use vstd::prelude::*;

verus! {

#[verifier::external_type_specification]
#[verifier::external_body]
pub struct ExDynamicImage(image::DynamicImage);

/// An RGBA buffer produced by resampling. The buffer stays hidden from the
/// verifier: what the contracts know of it is its dimensions.
#[verifier::external_body]
pub struct Resampled {
    pub buffer: image::RgbaImage,
}

/// Width and height, in pixels, of a decoded image.
pub uninterp spec fn image_dimensions(image: image::DynamicImage) -> (u32, u32);

/// Width and height, in pixels, of a resampled buffer.
pub uninterp spec fn resampled_dimensions(image: Resampled) -> (u32, u32);

/// Relies on `GenericImageView::dimensions` for `DynamicImage`: the width and
/// height of the image held.
#[verifier::external_body]
pub(crate) fn dimensions_of(image: &image::DynamicImage) -> (r: (u32, u32))
    ensures
        r == image_dimensions(*image),
{
    image.dimensions()
}

/// Relies on `image::imageops::resize` with the Lanczos filter of window 3:
/// it returns an RGBA buffer of exactly `nwidth` by `nheight` pixels.
/// It panics when a buffer it allocates (source width by `nheight`, then
/// `nwidth` by `nheight`, four samples a pixel) has more samples than `usize`
/// can count.
#[verifier::external_body]
pub(crate) fn resample_lanczos3(image: &image::DynamicImage, nwidth: u32, nheight: u32) -> (r:
    Resampled)
    requires
        image_dimensions(*image).0 as int * nheight as int * 4 <= usize::MAX as int,
        nwidth as int * nheight as int * 4 <= usize::MAX as int,
    ensures
        resampled_dimensions(r) == (nwidth, nheight),
{
    let buffer = image::imageops::resize(
        image,
        nwidth,
        nheight,
        image::imageops::FilterType::Lanczos3,
    );
    Resampled { buffer }
}

} // verus!
