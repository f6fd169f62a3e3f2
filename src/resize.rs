//! Resizing a decoded image: the calculator decides, the resampler produces
//! the replacement buffer, and a store writes it back over the original.

use crate::dimensions::{enlarge_dimensions, enlarged, shrink_dimensions, shrunk};
use crate::image_ops::{dimensions_of, image_dimensions, resample_lanczos3, resampled_dimensions, Resampled};
use vstd::prelude::*;

verus! {

/// Why a resize could not be carried out.
#[derive(Debug, Clone, Copy, PartialEq, Eq, Structural)]
pub enum ResizeError {
    /// A buffer that resampling needs would hold more samples than `usize`
    /// can count.
    TooLarge,
}

/// The outcome of resizing one image: a replacement buffer to be written to
/// the image's path, or nothing to do.
pub enum Resize<'a> {
    Resize { path: &'a str, buffer: Resampled },
    Noop,
}

/// Where resized images go: `store` writes `image` to `path`, replacing
/// what is there.
pub trait ImageStore {
    type Error;

    /// What an implementation promises of a call `store(path, image)` that
    /// returned `r`; by default, nothing.
    open spec fn stored(&self, path: Seq<char>, image: Resampled, r: Result<(), Self::Error>) -> bool {
        true
    }

    fn store(&self, path: &str, image: &Resampled) -> (r: Result<(), Self::Error>)
        ensures
            self.stored(path@, *image, r),
    ;
}

impl<'a> Resize<'a> {
    /// Hands a replacement buffer to `store`, under the path it was read
    /// from; does nothing when no change is needed.
    pub fn write<S: ImageStore>(&self, store: &S) -> (r: Result<(), S::Error>)
        ensures
            self is Noop ==> r is Ok,
            self matches Resize::Resize { path, buffer } ==> store.stored(path@, *buffer, r),
    {
        match self {
            Resize::Resize { path, buffer } => store.store(path, buffer),
            Resize::Noop => Ok(()),
        }
    }
}

/// Whether resampling from `source` to `target` (width, height) keeps every
/// buffer it allocates within what `usize` can count: the intermediate one
/// of source width by target height, and the result, at four samples a
/// pixel.
pub open spec fn resample_fits(source: (u32, u32), target: (u32, u32)) -> bool {
    &&& source.0 as int * target.1 as int * 4 <= usize::MAX as int
    &&& target.0 as int * target.1 as int * 4 <= usize::MAX as int
}

/// What resizing an image of dimensions `source` at `path` yields when the
/// calculator answered `target`.
pub open spec fn resize_outcome(
    source: (u32, u32),
    target: Option<(u32, u32)>,
    path: &str,
    r: Result<Resize, ResizeError>,
) -> bool {
    match target {
        None => r matches Ok(Resize::Noop),
        Some(t) => if resample_fits(source, t) {
            r matches Ok(Resize::Resize { path: p, buffer }) && p@ == path@ && resampled_dimensions(
                buffer,
            ) == t
        } else {
            r == Err::<Resize, ResizeError>(ResizeError::TooLarge)
        },
    }
}

fn fits(source: (u32, u32), target: (u32, u32)) -> (r: bool)
    ensures
        r == resample_fits(source, target),
{
    let (sw, _) = source;
    let (tw, th) = target;
    proof {
        assert(sw as int * th as int <= u32::MAX as int * u32::MAX as int) by (nonlinear_arith)
            requires
                0 <= sw <= u32::MAX,
                0 <= th <= u32::MAX,
        ;
        assert(tw as int * th as int <= u32::MAX as int * u32::MAX as int) by (nonlinear_arith)
            requires
                0 <= tw <= u32::MAX,
                0 <= th <= u32::MAX,
        ;
    }
    let intermediate: u128 = (sw as u128) * (th as u128) * 4;
    let result: u128 = (tw as u128) * (th as u128) * 4;
    intermediate <= usize::MAX as u128 && result <= usize::MAX as u128
}

/// Resamples `image` to `target` when the calculator asked for a change.
fn resample_to<'a>(
    image: &image::DynamicImage,
    path: &'a str,
    target: Option<(u32, u32)>,
) -> (r: Result<Resize<'a>, ResizeError>)
    ensures
        resize_outcome(image_dimensions(*image), target, path, r),
{
    match target {
        None => Ok(Resize::Noop),
        Some((nwidth, nheight)) => {
            let source = dimensions_of(image);
            if fits(source, (nwidth, nheight)) {
                let buffer = resample_lanczos3(image, nwidth, nheight);
                Ok(Resize::Resize { path, buffer })
            } else {
                Err(ResizeError::TooLarge)
            }
        },
    }
}

/// Shrinks `image`, read from `path`, so that its long side is `size`, when
/// that side is longer.
pub fn shrink<'a>(image: &image::DynamicImage, path: &'a str, size: u32) -> (r: Result<
    Resize<'a>,
    ResizeError,
>)
    ensures
        ({
            let (w, h) = image_dimensions(*image);
            resize_outcome((w, h), shrunk(w, h, size), path, r)
        }),
{
    let (width, height) = dimensions_of(image);
    resample_to(image, path, shrink_dimensions(width, height, size))
}

/// Enlarges `image`, read from `path`, so that its long side is `size`, when
/// that side is shorter.
pub fn enlarge<'a>(image: &image::DynamicImage, path: &'a str, size: u32) -> (r: Result<
    Resize<'a>,
    ResizeError,
>)
    ensures
        ({
            let (w, h) = image_dimensions(*image);
            resize_outcome((w, h), enlarged(w, h, size), path, r)
        }),
{
    let (width, height) = dimensions_of(image);
    resample_to(image, path, enlarge_dimensions(width, height, size))
}

} // verus!
