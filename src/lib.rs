//! Aspect-ratio preserving image resizing: the dimension calculator and the
//! resampling step that turns a decoded image into a replacement buffer.

mod binary64;
mod dimensions;
mod image_ops;
mod resize;

pub use binary64::{
    bit_len, excess_bits, floor_of_product, quotient_shift, quotient_significand, round_half_even,
    round_to_double, scale, scaled_numerator,
};
pub use dimensions::{enlarge_dimensions, enlarged, shrink_dimensions, shrunk};
pub use image_ops::{image_dimensions, resampled_dimensions, Resampled};
pub use resize::{enlarge, resample_fits, resize_outcome, shrink, ImageStore, Resize, ResizeError};
