//! The dimension calculator: given an image's width and height and a target
//! size for its long side, decide whether a resize is needed and, if so, the
//! new width and height with the aspect ratio kept.
//!
//! The long side is the width when the width is strictly greater than the
//! height; on a tie it is the height. The short side is scaled by
//! `floor(size / long * short)` in double-precision arithmetic, rounding
//! included (see `binary64`).

use crate::binary64::{scale, scale_exec};
use vstd::prelude::*;

verus! {

/// The dimensions after shrinking, or `None` when the long side already fits.
pub open spec fn shrunk(width: u32, height: u32, size: u32) -> Option<(u32, u32)> {
    if width > height {
        if width > size {
            Some((size, scale(size, width, height)))
        } else {
            None
        }
    } else if height > size {
        Some((scale(size, height, width), size))
    } else {
        None
    }
}

/// The dimensions after enlarging, or `None` when the long side already
/// reaches the target.
pub open spec fn enlarged(width: u32, height: u32, size: u32) -> Option<(u32, u32)> {
    if width > height {
        if width < size {
            Some((size, scale(size, width, height)))
        } else {
            None
        }
    } else if height < size {
        Some((scale(size, height, width), size))
    } else {
        None
    }
}

/// New dimensions for shrinking an image whose long side exceeds `size`.
pub fn shrink_dimensions(width: u32, height: u32, size: u32) -> (r: Option<(u32, u32)>)
    ensures
        r == shrunk(width, height, size),
        width > height && width > size ==> (r matches Some((nw, nh)) && nw == size
            && nh == scale(size, width, height)),
        height >= width && height > size ==> (r matches Some((nw, nh)) && nh == size
            && nw == scale(size, height, width)),
        width <= size && height <= size ==> r is None,
        r matches Some((nw, nh)) ==> if width > height {
            nw == size
        } else {
            nh == size
        },
{
    if width > height && width > size {
        let nheight = scale_exec(size, width, height);
        Some((size, nheight))
    } else if height > size {
        let nwidth = scale_exec(size, height, width);
        Some((nwidth, size))
    } else {
        None
    }
}

/// New dimensions for enlarging an image whose long side falls short of
/// `size`.
pub fn enlarge_dimensions(width: u32, height: u32, size: u32) -> (r: Option<(u32, u32)>)
    ensures
        r == enlarged(width, height, size),
        width > height && width < size ==> (r matches Some((nw, nh)) && nw == size
            && nh == scale(size, width, height)),
        height >= width && height < size ==> (r matches Some((nw, nh)) && nh == size
            && nw == scale(size, height, width)),
        width >= size && height >= size ==> r is None,
        r matches Some((nw, nh)) ==> if width > height {
            nw == size
        } else {
            nh == size
        },
{
    if width > height {
        if width < size {
            let nheight = scale_exec(size, width, height);
            Some((size, nheight))
        } else {
            None
        }
    } else if height < size {
        let nwidth = scale_exec(size, height, width);
        Some((nwidth, size))
    } else {
        None
    }
}

} // verus!
